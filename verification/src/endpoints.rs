//! Registry of the endpoints that can be reached from outside by name:
//! event sources, query sources and event sinks.
//!
//! A name stands for at most one endpoint of each kind. It can be given to
//! another endpoint only after the first one was removed.
use vstd::prelude::*;

verus! {

/// No name occurs twice.
pub open spec fn distinct_names(names: Seq<Seq<char>>) -> bool {
    forall|i: int, j: int| 0 <= i < j < names.len() ==> #[trigger] names[i] != #[trigger] names[j]
}

/// Whether `name` is one of `names`.
pub open spec fn has_name(names: Seq<Seq<char>>, name: Seq<char>) -> bool {
    exists|i: int| 0 <= i < names.len() && #[trigger] names[i] == name
}

/// Index of `name` among `names`.
pub open spec fn name_index(names: Seq<Seq<char>>, name: Seq<char>) -> int {
    choose|i: int| 0 <= i < names.len() && #[trigger] names[i] == name
}

/// Among distinct names a name is found at one index only.
pub proof fn lemma_name_index(names: Seq<Seq<char>>, i: int)
    requires
        distinct_names(names),
        0 <= i < names.len(),
    ensures
        has_name(names, names[i]),
        name_index(names, names[i]) == i,
{
    let j = name_index(names, names[i]);
    if j < i {
        assert(names[j] != names[i]);
    }
    if i < j {
        assert(names[i] != names[j]);
    }
}

/// A relation from names to endpoints of one kind.
pub struct NameTable<T> {
    names: Vec<String>,
    items: Vec<T>,
}

impl<T> NameTable<T> {
    /// The registered names, in the order of registration.
    pub closed spec fn names(&self) -> Seq<Seq<char>> {
        Seq::new(self.names@.len(), |i: int| self.names@[i]@)
    }

    /// The registered endpoints, each at the index of its name.
    pub closed spec fn items(&self) -> Seq<T> {
        self.items@
    }

    /// Every name has its endpoint and no name occurs twice.
    pub open spec fn wf(&self) -> bool {
        self.names().len() == self.items().len() && distinct_names(self.names())
    }

    /// Whether an endpoint is registered under `name`.
    pub open spec fn contains(&self, name: Seq<char>) -> bool {
        has_name(self.names(), name)
    }

    /// The endpoint registered under `name`.
    pub open spec fn endpoint(&self, name: Seq<char>) -> T {
        self.items()[name_index(self.names(), name)]
    }

    /// Creates a table without names.
    pub fn new() -> (t: Self)
        ensures
            t.wf(),
            t.names() == Seq::<Seq<char>>::empty(),
            t.items() == Seq::<T>::empty(),
    {
        let t = NameTable { names: Vec::new(), items: Vec::new() };
        proof {
            assert(t.names() =~= Seq::<Seq<char>>::empty());
        }
        t
    }

    /// Number of registered names.
    pub fn len(&self) -> (n: usize)
        ensures
            n == self.names().len(),
    {
        self.names.len()
    }

    /// Index of the endpoint registered under `name`, if there is one.
    pub fn position(&self, name: &String) -> (r: Option<usize>)
        requires
            self.wf(),
        ensures
            r.is_some() <==> self.contains(name@),
            r matches Some(i) ==> i < self.names().len() && self.names()[i as int] == name@ && i == name_index(
                self.names(),
                name@,
            ),
    {
        let mut i: usize = 0;
        while i < self.names.len()
            invariant
                i <= self.names@.len(),
                self.wf(),
                forall|j: int| 0 <= j < i ==> #[trigger] self.names()[j] != name@,
            decreases self.names@.len() - i,
        {
            if self.names[i] == *name {
                proof {
                    assert(self.names()[i as int] == name@);
                    lemma_name_index(self.names(), i as int);
                }
                return Some(i);
            }
            proof {
                assert(self.names()[i as int] == self.names@[i as int]@);
            }
            i = i + 1;
        }
        None
    }

    /// The endpoint registered under `name`, if there is one.
    pub fn get(&self, name: &String) -> (r: Option<&T>)
        requires
            self.wf(),
        ensures
            r.is_some() <==> self.contains(name@),
            r matches Some(item) ==> *item == self.endpoint(name@),
    {
        match self.position(name) {
            Some(i) => Some(&self.items[i]),
            None => None,
        }
    }

    /// Registers `item` under `name`. A name that is taken is refused and
    /// the endpoint is given back.
    pub fn add(&mut self, name: String, item: T) -> (r: Result<(), T>)
        requires
            old(self).wf(),
        ensures
            final(self).wf(),
            r.is_err() <==> old(self).contains(name@),
            r matches Err(back) ==> back == item && final(self).names() == old(self).names() && final(self).items()
                == old(self).items(),
            r.is_ok() ==> final(self).names() == old(self).names().push(name@) && final(self).items() == old(
                self,
            ).items().push(item),
    {
        if self.position(&name).is_some() {
            return Err(item);
        }
        let ghost before = self.names();
        let ghost text = name@;
        self.names.push(name);
        self.items.push(item);
        proof {
            assert(self.names() =~= before.push(text));
        }
        Ok(())
    }

    /// Removes the endpoint registered under `name` and returns it, if
    /// there is one. The name can be registered again afterwards.
    pub fn remove(&mut self, name: &String) -> (r: Option<T>)
        requires
            old(self).wf(),
        ensures
            final(self).wf(),
            r.is_some() <==> old(self).contains(name@),
            r.is_none() ==> final(self).names() == old(self).names() && final(self).items() == old(self).items(),
            r matches Some(item) ==> {
                &&& item == old(self).endpoint(name@)
                &&& final(self).names() == old(self).names().remove(name_index(old(self).names(), name@))
                &&& final(self).items() == old(self).items().remove(name_index(old(self).names(), name@))
                &&& !final(self).contains(name@)
            },
    {
        match self.position(name) {
            None => None,
            Some(i) => {
                let ghost before = self.names();
                let _ = self.names.remove(i);
                let item = self.items.remove(i);
                proof {
                    let after = self.names();
                    assert(after =~= before.remove(i as int));
                    assert forall|a: int, b: int| 0 <= a < b < after.len() implies #[trigger] after[a]
                        != #[trigger] after[b] by {
                        let a2 = if a < i { a } else { a + 1 };
                        let b2 = if b < i { b } else { b + 1 };
                        assert(after[a] == before[a2] && after[b] == before[b2]);
                    }
                    if has_name(after, name@) {
                        let a = choose|a: int| 0 <= a < after.len() && #[trigger] after[a] == name@;
                        let a2 = if a < i { a } else { a + 1 };
                        assert(after[a] == before[a2]);
                        if a2 < i {
                            assert(before[a2] != before[i as int]);
                        } else {
                            assert(before[i as int] != before[a2]);
                        }
                    }
                }
                Some(item)
            },
        }
    }
}

/// The endpoints of a simulation bench: event sources `E`, query sources `Q`
/// and event sinks `S`, each kind with names of its own.
pub struct EndpointRegistry<E, Q, S> {
    pub event_sources: NameTable<E>,
    pub query_sources: NameTable<Q>,
    pub event_sinks: NameTable<S>,
}

impl<E, Q, S> EndpointRegistry<E, Q, S> {
    /// The three tables are well-formed.
    pub open spec fn wf(&self) -> bool {
        self.event_sources.wf() && self.query_sources.wf() && self.event_sinks.wf()
    }

    /// Creates a registry without endpoints.
    pub fn new() -> (r: Self)
        ensures
            r.wf(),
            r.event_sources.names().len() == 0,
            r.query_sources.names().len() == 0,
            r.event_sinks.names().len() == 0,
    {
        EndpointRegistry {
            event_sources: NameTable::new(),
            query_sources: NameTable::new(),
            event_sinks: NameTable::new(),
        }
    }

    /// Registers an event source. A name that is taken by an event source
    /// is refused and the source is given back.
    pub fn add_event_source(&mut self, source: E, name: String) -> (r: Result<(), E>)
        requires
            old(self).wf(),
        ensures
            final(self).wf(),
            final(self).query_sources == old(self).query_sources,
            final(self).event_sinks == old(self).event_sinks,
            r.is_err() <==> old(self).event_sources.contains(name@),
            r matches Err(back) ==> back == source && final(self).event_sources == old(self).event_sources,
            r.is_ok() ==> final(self).event_sources.names() == old(self).event_sources.names().push(name@)
                && final(self).event_sources.items() == old(self).event_sources.items().push(source),
    {
        if self.event_sources.position(&name).is_some() {
            return Err(source);
        }
        self.event_sources.add(name, source)
    }

    /// Registers a query source. A name that is taken by a query source is
    /// refused and the source is given back.
    pub fn add_query_source(&mut self, source: Q, name: String) -> (r: Result<(), Q>)
        requires
            old(self).wf(),
        ensures
            final(self).wf(),
            final(self).event_sources == old(self).event_sources,
            final(self).event_sinks == old(self).event_sinks,
            r.is_err() <==> old(self).query_sources.contains(name@),
            r matches Err(back) ==> back == source && final(self).query_sources == old(self).query_sources,
            r.is_ok() ==> final(self).query_sources.names() == old(self).query_sources.names().push(name@)
                && final(self).query_sources.items() == old(self).query_sources.items().push(source),
    {
        if self.query_sources.position(&name).is_some() {
            return Err(source);
        }
        self.query_sources.add(name, source)
    }

    /// Registers an event sink. A name that is taken by an event sink is
    /// refused and the sink is given back.
    pub fn add_event_sink(&mut self, sink: S, name: String) -> (r: Result<(), S>)
        requires
            old(self).wf(),
        ensures
            final(self).wf(),
            final(self).event_sources == old(self).event_sources,
            final(self).query_sources == old(self).query_sources,
            r.is_err() <==> old(self).event_sinks.contains(name@),
            r matches Err(back) ==> back == sink && final(self).event_sinks == old(self).event_sinks,
            r.is_ok() ==> final(self).event_sinks.names() == old(self).event_sinks.names().push(name@),
            r.is_ok() ==> final(self).event_sinks.items() == old(self).event_sinks.items().push(sink),
    {
        if self.event_sinks.position(&name).is_some() {
            return Err(sink);
        }
        self.event_sinks.add(name, sink)
    }

    /// The event source registered under `name`, if there is one.
    pub fn get_event_source(&self, name: &String) -> (r: Option<&E>)
        requires
            self.wf(),
        ensures
            r.is_some() <==> self.event_sources.contains(name@),
            r matches Some(source) ==> *source == self.event_sources.endpoint(name@),
    {
        self.event_sources.get(name)
    }

    /// The query source registered under `name`, if there is one.
    pub fn get_query_source(&self, name: &String) -> (r: Option<&Q>)
        requires
            self.wf(),
        ensures
            r.is_some() <==> self.query_sources.contains(name@),
            r matches Some(source) ==> *source == self.query_sources.endpoint(name@),
    {
        self.query_sources.get(name)
    }

    /// The event sink registered under `name`, if there is one.
    pub fn get_event_sink(&self, name: &String) -> (r: Option<&S>)
        requires
            self.wf(),
        ensures
            r.is_some() <==> self.event_sinks.contains(name@),
            r matches Some(sink) ==> *sink == self.event_sinks.endpoint(name@),
    {
        self.event_sinks.get(name)
    }
}

} // verus!
