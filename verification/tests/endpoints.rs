use asynchronix::endpoints::{EndpointRegistry, NameTable};

#[test]
fn a_name_stands_for_one_endpoint() {
    let mut table: NameTable<u32> = NameTable::new();
    assert_eq!(table.add("a".to_string(), 1), Ok(()));
    assert_eq!(table.add("b".to_string(), 2), Ok(()));
    assert_eq!(table.add("a".to_string(), 3), Err(3));
    assert_eq!(table.len(), 2);
    assert_eq!(table.get(&"a".to_string()), Some(&1));
    assert_eq!(table.get(&"b".to_string()), Some(&2));
    assert_eq!(table.get(&"c".to_string()), None);
    assert_eq!(table.position(&"b".to_string()), Some(1));
}

#[test]
fn a_name_can_be_reused_after_removal() {
    let mut table: NameTable<u32> = NameTable::new();
    table.add("a".to_string(), 1).unwrap();
    table.add("b".to_string(), 2).unwrap();
    assert_eq!(table.remove(&"a".to_string()), Some(1));
    assert_eq!(table.remove(&"a".to_string()), None);
    assert_eq!(table.get(&"b".to_string()), Some(&2));
    assert_eq!(table.add("a".to_string(), 5), Ok(()));
    assert_eq!(table.get(&"a".to_string()), Some(&5));
}

#[test]
fn each_kind_of_endpoint_has_names_of_its_own() {
    let mut registry: EndpointRegistry<u8, u16, u32> = EndpointRegistry::new();
    assert_eq!(registry.add_event_source(1, "x".to_string()), Ok(()));
    assert_eq!(registry.add_query_source(2, "x".to_string()), Ok(()));
    assert_eq!(registry.add_event_sink(3, "x".to_string()), Ok(()));
    assert_eq!(registry.add_event_source(4, "x".to_string()), Err(4));
    assert_eq!(registry.add_query_source(5, "x".to_string()), Err(5));
    assert_eq!(registry.add_event_sink(6, "x".to_string()), Err(6));
    assert_eq!(registry.get_event_source(&"x".to_string()), Some(&1));
    assert_eq!(registry.get_query_source(&"x".to_string()), Some(&2));
    assert_eq!(registry.get_event_sink(&"x".to_string()), Some(&3));
    assert_eq!(registry.get_event_sink(&"y".to_string()), None);
}
