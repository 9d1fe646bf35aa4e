//! Generational registry of the keys of cancellable actions.
//!
//! A key names a slot of the registry and the generation of that slot at the
//! time the key was given out. A slot that is filled again moves on to the
//! next generation, so that a key that outlived its action can never reach
//! the action that took its slot.
use vstd::prelude::*;
use crate::time::MonotonicTime;

verus! {

/// Handle on a cancellable action: a slot of the registry and the generation
/// of that slot.
#[derive(Clone, Copy, Debug, PartialEq, Eq, Hash, Structural)]
pub struct KeyId {
    pub index: usize,
    pub generation: u64,
}

impl KeyId {
    /// Builds a handle from a slot index and a generation.
    pub fn from_raw_parts(index: usize, generation: u64) -> (id: KeyId)
        ensures
            id.index == index,
            id.generation == generation,
    {
        KeyId { index, generation }
    }

    /// The slot index and the generation of the handle.
    pub fn into_raw_parts(self) -> (parts: (usize, u64))
        ensures
            parts.0 == self.index,
            parts.1 == self.generation,
    {
        (self.index, self.generation)
    }
}

/// What a slot holds: nothing, a token that expires at a deadline, or a
/// token that never expires.
#[derive(Clone, Copy, Debug, PartialEq, Eq, Structural)]
pub enum SlotState {
    Vacant,
    Bounded { token: u64, deadline: MonotonicTime },
    Eternal { token: u64 },
}

/// A slot of the registry.
#[derive(Clone, Copy, Debug, PartialEq, Eq, Structural)]
pub struct KeySlot {
    pub generation: u64,
    pub state: SlotState,
}

/// Every deadline held by the slots is a well-formed timestamp.
pub open spec fn slots_wf(s: Seq<KeySlot>) -> bool {
    &&& s.len() <= usize::MAX
    &&& forall|i: int|
        0 <= i < s.len() ==> ((#[trigger] s[i]).state matches SlotState::Bounded { deadline, .. }
            ==> deadline.wf())
}

/// Whether a slot can be filled again: it is vacant and has a generation left.
pub open spec fn reusable(slot: KeySlot) -> bool {
    slot.state is Vacant && slot.generation < u64::MAX
}

/// Index of the first slot that can be filled again, or the number of slots
/// when there is none.
pub open spec fn first_reusable(s: Seq<KeySlot>) -> int
    decreases s.len(),
{
    if s.len() == 0 {
        0
    } else if reusable(s[0]) {
        0
    } else {
        1 + first_reusable(s.skip(1))
    }
}

/// The key that the next insertion gives out.
pub open spec fn next_id(s: Seq<KeySlot>) -> KeyId {
    let i = first_reusable(s);
    KeyId {
        index: i as usize,
        generation: if i < s.len() {
            (s[i].generation + 1) as u64
        } else {
            0
        },
    }
}

/// The slots after an insertion that stores `state`.
pub open spec fn inserted(s: Seq<KeySlot>, state: SlotState) -> Seq<KeySlot> {
    let i = first_reusable(s);
    if i < s.len() {
        s.update(i, KeySlot { generation: (s[i].generation + 1) as u64, state })
    } else {
        s.push(KeySlot { generation: 0, state })
    }
}

/// Whether `id` names a token that the slots hold now.
pub open spec fn live(s: Seq<KeySlot>, id: KeyId) -> bool {
    &&& id.index < s.len()
    &&& s[id.index as int].generation == id.generation
    &&& !(s[id.index as int].state is Vacant)
}

/// Whether `id` was given out at some time up to now: its slot exists and
/// has reached the generation of `id`.
pub open spec fn issued(s: Seq<KeySlot>, id: KeyId) -> bool {
    id.index < s.len() && id.generation <= s[id.index as int].generation
}

/// The token of a slot that is not vacant.
pub open spec fn token_of(slot: KeySlot) -> u64 {
    match slot.state {
        SlotState::Vacant => 0,
        SlotState::Bounded { token, .. } => token,
        SlotState::Eternal { token } => token,
    }
}

/// The token that `id` names, if `id` is live.
pub open spec fn lookup(s: Seq<KeySlot>, id: KeyId) -> Option<u64> {
    if live(s, id) {
        Some(token_of(s[id.index as int]))
    } else {
        None
    }
}

/// The slots after the token that `id` names was taken out.
pub open spec fn extracted(s: Seq<KeySlot>, id: KeyId) -> Seq<KeySlot> {
    if live(s, id) {
        s.update(id.index as int, KeySlot { generation: id.generation, state: SlotState::Vacant })
    } else {
        s
    }
}

/// Whether a slot holds a token whose deadline is `now` or earlier.
pub open spec fn is_expired(slot: KeySlot, now: MonotonicTime) -> bool {
    slot.state matches SlotState::Bounded { deadline, .. } && deadline.as_nanos() <= now.as_nanos()
}

/// A slot after the tokens that expired by `now` were dropped.
pub open spec fn expired_slot(slot: KeySlot, now: MonotonicTime) -> KeySlot {
    if is_expired(slot, now) {
        KeySlot { generation: slot.generation, state: SlotState::Vacant }
    } else {
        slot
    }
}

/// The slots after the tokens that expired by `now` were dropped.
pub open spec fn expired(s: Seq<KeySlot>, now: MonotonicTime) -> Seq<KeySlot> {
    Seq::new(s.len(), |i: int| expired_slot(s[i], now))
}

/// The first slot that can be filled again is the one index below which no
/// slot can.
pub proof fn lemma_first_reusable(s: Seq<KeySlot>)
    ensures
        0 <= first_reusable(s) <= s.len(),
        forall|j: int| 0 <= j < first_reusable(s) ==> !reusable(#[trigger] s[j]),
        first_reusable(s) < s.len() ==> reusable(s[first_reusable(s)]),
    decreases s.len(),
{
    if s.len() > 0 && !reusable(s[0]) {
        let t = s.skip(1);
        lemma_first_reusable(t);
        assert forall|j: int| 0 <= j < first_reusable(s) implies !reusable(#[trigger] s[j]) by {
            if j > 0 {
                assert(t[j - 1] == s[j]);
            }
        }
        if first_reusable(s) < s.len() {
            assert(t[first_reusable(t)] == s[first_reusable(s)]);
        }
    }
}

/// An index below which no slot can be filled again, and that is itself
/// such a slot or the end of the slots, is the first one.
pub proof fn lemma_first_reusable_is(s: Seq<KeySlot>, i: int)
    requires
        0 <= i <= s.len(),
        forall|j: int| 0 <= j < i ==> !reusable(#[trigger] s[j]),
        i < s.len() ==> reusable(s[i]),
    ensures
        first_reusable(s) == i,
{
    lemma_first_reusable(s);
    let r = first_reusable(s);
    if r < i {
        assert(!reusable(s[r]));
    }
    if i < r {
        assert(!reusable(s[i]));
    }
}

/// Generational safety of an insertion.
///
/// The key given out by an insertion was never given out before, and it
/// names the inserted token. Every key given out before stays given out. A
/// key that was live still names the same token, and a key that was given
/// out and is no longer live stays dead: a reused slot never answers to an
/// old key.
pub proof fn lemma_insert_safe(s: Seq<KeySlot>, state: SlotState, id: KeyId)
    requires
        !(state is Vacant),
        s.len() <= usize::MAX,
    ensures
        !issued(s, next_id(s)),
        live(inserted(s, state), next_id(s)),
        inserted(s, state)[next_id(s).index as int].state == state,
        next_id(s).index <= s.len(),
        issued(s, id) ==> issued(inserted(s, state), id),
        live(s, id) ==> live(inserted(s, state), id) && lookup(inserted(s, state), id) == lookup(s, id),
        issued(s, id) && !live(s, id) ==> !live(inserted(s, state), id),
{
    lemma_first_reusable(s);
}

/// Generational safety of an extraction.
///
/// Taking out the token of a key kills that key and no other: every other
/// key is live afterwards exactly if it was live before, and names the same
/// token. No key is given out or forgotten.
pub proof fn lemma_extract_safe(s: Seq<KeySlot>, taken: KeyId, id: KeyId)
    ensures
        !live(extracted(s, taken), taken),
        extracted(s, taken).len() == s.len(),
        issued(extracted(s, taken), id) <==> issued(s, id),
        id != taken ==> (live(extracted(s, taken), id) <==> live(s, id)),
        id != taken ==> lookup(extracted(s, taken), id) == lookup(s, id),
        !live(s, id) ==> !live(extracted(s, taken), id),
{
}

/// Generational safety of the disposal of expired tokens.
///
/// Disposal kills exactly the live keys whose deadline has passed. It never
/// revives a key, never changes the token of a key that stays live, and
/// neither gives out nor forgets a key.
pub proof fn lemma_expire_safe(s: Seq<KeySlot>, now: MonotonicTime, id: KeyId)
    ensures
        expired(s, now).len() == s.len(),
        issued(expired(s, now), id) <==> issued(s, id),
        live(expired(s, now), id) <==> live(s, id) && !is_expired(s[id.index as int], now),
        live(expired(s, now), id) ==> lookup(expired(s, now), id) == lookup(s, id),
{
}

/// Disposing of the expired tokens twice at one time is the same as doing it
/// once.
pub proof fn lemma_expire_idempotent(s: Seq<KeySlot>, now: MonotonicTime)
    ensures
        expired(expired(s, now), now) == expired(s, now),
{
    assert(expired(expired(s, now), now) =~= expired(s, now));
}

/// The insertions, extractions and disposals keep the slots well-formed.
pub proof fn lemma_ops_wf(s: Seq<KeySlot>, state: SlotState, id: KeyId, now: MonotonicTime)
    requires
        slots_wf(s),
        state matches SlotState::Bounded { deadline, .. } ==> deadline.wf(),
    ensures
        inserted(s, state).len() <= usize::MAX ==> slots_wf(inserted(s, state)),
        slots_wf(extracted(s, id)),
        slots_wf(expired(s, now)),
{
    lemma_first_reusable(s);
    let a = inserted(s, state);
    assert forall|i: int| 0 <= i < a.len() implies ((#[trigger] a[i]).state matches SlotState::Bounded {
        deadline,
        ..
    } ==> deadline.wf()) by {
        if i < s.len() && i != first_reusable(s) {
            assert(a[i] == s[i]);
        }
    }
    let b = extracted(s, id);
    assert forall|i: int| 0 <= i < b.len() implies ((#[trigger] b[i]).state matches SlotState::Bounded {
        deadline,
        ..
    } ==> deadline.wf()) by {
        if !(live(s, id) && i == id.index) {
            assert(b[i] == s[i]);
        }
    }
    let c = expired(s, now);
    assert forall|i: int| 0 <= i < c.len() implies ((#[trigger] c[i]).state matches SlotState::Bounded {
        deadline,
        ..
    } ==> deadline.wf()) by {
        assert(c[i] == expired_slot(s[i], now));
    }
}

/// The registry of cancellation keys.
pub struct KeyRegistry {
    slots: Vec<KeySlot>,
}

impl View for KeyRegistry {
    type V = Seq<KeySlot>;

    /// The slots of the registry.
    closed spec fn view(&self) -> Seq<KeySlot> {
        self.slots@
    }
}

impl KeyRegistry {
    /// Every deadline held by the registry is a well-formed timestamp.
    pub open spec fn wf(&self) -> bool {
        slots_wf(self@)
    }

    /// Creates a registry without slots.
    pub fn new() -> (r: Self)
        ensures
            r@ == Seq::<KeySlot>::empty(),
            r.wf(),
    {
        KeyRegistry { slots: Vec::new() }
    }

    /// Number of slots, vacant ones included.
    pub fn capacity(&self) -> (n: usize)
        ensures
            n == self@.len(),
    {
        self.slots.len()
    }

    /// Whether `id` names a token that the registry holds.
    pub fn contains(&self, id: KeyId) -> (b: bool)
        ensures
            b == live(self@, id),
    {
        if id.index >= self.slots.len() {
            return false;
        }
        let slot = self.slots[id.index];
        if slot.generation != id.generation {
            return false;
        }
        match slot.state {
            SlotState::Vacant => false,
            _ => true,
        }
    }

    /// Stores `state` in the first slot that can be filled again, or in a
    /// new slot, and returns the key of the stored token.
    fn insert_state(&mut self, state: SlotState) -> (id: KeyId)
        requires
            old(self).wf(),
            !(state is Vacant),
            state matches SlotState::Bounded { deadline, .. } ==> deadline.wf(),
        ensures
            final(self).wf(),
            id == next_id(old(self)@),
            final(self)@ == inserted(old(self)@, state),
    {
        let mut i: usize = 0;
        while i < self.slots.len()
            invariant
                i <= self.slots@.len(),
                self.slots@ == old(self).slots@,
                slots_wf(self.slots@),
                state matches SlotState::Bounded { deadline, .. } ==> deadline.wf(),
                forall|j: int| 0 <= j < i ==> !reusable(#[trigger] self.slots@[j]),
            decreases self.slots@.len() - i,
        {
            let slot = self.slots[i];
            let vacant = match slot.state {
                SlotState::Vacant => true,
                _ => false,
            };
            if vacant && slot.generation < u64::MAX {
                proof {
                    lemma_first_reusable_is(self.slots@, i as int);
                    lemma_ops_wf(self.slots@, state, (KeyId { index: 0, generation: 0 }), MonotonicTime::from_parts(0, 0));
                }
                let generation: u64 = slot.generation + 1;
                self.slots.set(i, KeySlot { generation, state });
                return KeyId { index: i, generation };
            }
            i = i + 1;
        }
        let ghost before = self.slots@;
        proof {
            lemma_first_reusable_is(before, i as int);
        }
        self.slots.push(KeySlot { generation: 0, state });
        let _ = self.slots.len();
        proof {
            lemma_ops_wf(before, state, (KeyId { index: 0, generation: 0 }), MonotonicTime::from_parts(0, 0));
        }
        KeyId { index: i, generation: 0 }
    }

    /// Stores a token that expires once simulation time has reached
    /// `deadline`, and returns its key.
    pub fn insert_key(&mut self, token: u64, deadline: MonotonicTime) -> (id: KeyId)
        requires
            old(self).wf(),
        ensures
            final(self).wf(),
            id == next_id(old(self)@),
            final(self)@ == inserted(old(self)@, (SlotState::Bounded { token, deadline })),
            live(final(self)@, id),
            lookup(final(self)@, id) == Some(token),
    {
        let _ = self.slots.len();
        proof {
            use_type_invariant(deadline);
            lemma_insert_safe(self@, (SlotState::Bounded { token, deadline }), (KeyId { index: 0, generation: 0 }));
        }
        self.insert_state(SlotState::Bounded { token, deadline })
    }

    /// Stores a token that never expires, and returns its key.
    pub fn insert_eternal_key(&mut self, token: u64) -> (id: KeyId)
        requires
            old(self).wf(),
        ensures
            final(self).wf(),
            id == next_id(old(self)@),
            final(self)@ == inserted(old(self)@, (SlotState::Eternal { token })),
            live(final(self)@, id),
            lookup(final(self)@, id) == Some(token),
    {
        let _ = self.slots.len();
        proof {
            lemma_insert_safe(self@, (SlotState::Eternal { token }), (KeyId { index: 0, generation: 0 }));
        }
        self.insert_state(SlotState::Eternal { token })
    }

    /// Takes out the token that `id` names. A key that is not live (never
    /// given out, already taken out, expired, or of an earlier generation of
    /// its slot) yields nothing and changes nothing.
    pub fn extract_key(&mut self, id: KeyId) -> (r: Option<u64>)
        requires
            old(self).wf(),
        ensures
            final(self).wf(),
            r == lookup(old(self)@, id),
            final(self)@ == extracted(old(self)@, id),
            !live(final(self)@, id),
    {
        if !self.contains(id) {
            return None;
        }
        proof {
            lemma_ops_wf(self.slots@, SlotState::Vacant, id, MonotonicTime::from_parts(0, 0));
        }
        let slot = self.slots[id.index];
        self.slots.set(id.index, KeySlot { generation: slot.generation, state: SlotState::Vacant });
        match slot.state {
            SlotState::Vacant => None,
            SlotState::Bounded { token, .. } => Some(token),
            SlotState::Eternal { token } => Some(token),
        }
    }

    /// Drops every token whose deadline is `now` or earlier. Tokens that
    /// never expire stay.
    pub fn remove_expired_keys(&mut self, now: MonotonicTime)
        requires
            old(self).wf(),
        ensures
            final(self).wf(),
            final(self)@ == expired(old(self)@, now),
    {
        let mut i: usize = 0;
        while i < self.slots.len()
            invariant
                i <= self.slots@.len(),
                self.slots@.len() == old(self).slots@.len(),
                forall|j: int| 0 <= j < i ==> #[trigger] self.slots@[j] == expired_slot(old(self).slots@[j], now),
                forall|j: int| i <= j < self.slots@.len() ==> #[trigger] self.slots@[j] == old(self).slots@[j],
            decreases self.slots@.len() - i,
        {
            let slot = self.slots[i];
            let drop = match slot.state {
                SlotState::Bounded { deadline, .. } => deadline.le(&now),
                _ => false,
            };
            if drop {
                self.slots.set(i, KeySlot { generation: slot.generation, state: SlotState::Vacant });
            }
            i = i + 1;
        }
        proof {
            assert(self.slots@ =~= expired(old(self).slots@, now));
            lemma_ops_wf(old(self).slots@, SlotState::Vacant, (KeyId { index: 0, generation: 0 }), now);
        }
    }
}

} // verus!
