use substrate_api_client::assoc::AssocMap;

#[test]
fn a_read_after_an_insert_finds_the_inserted_value() {
    let mut m: AssocMap<String, u8> = AssocMap::new();
    assert_eq!(m.len(), 0);
    assert_eq!(m.get(&"a".to_string()), None);
    m.insert("a".to_string(), 1);
    m.insert("b".to_string(), 2);
    assert_eq!(m.get(&"a".to_string()), Some(&1));
    assert_eq!(m.get(&"b".to_string()), Some(&2));
    assert_eq!(m.get(&"c".to_string()), None);
    // a present key keeps its place and takes the new value
    m.insert("a".to_string(), 7);
    assert_eq!(m.len(), 2);
    assert_eq!(m.get(&"a".to_string()), Some(&7));
    assert_eq!(m.keys(), vec![&"a".to_string(), &"b".to_string()]);
    assert_eq!(m.values(), vec![&7u8, &2u8]);
}

#[test]
fn byte_keys() {
    let mut m: AssocMap<u8, String> = AssocMap::new();
    m.insert(3, "three".to_string());
    m.insert(0, "zero".to_string());
    m.insert(3, "drei".to_string());
    assert_eq!(m.len(), 2);
    assert_eq!(m.get(&3), Some(&"drei".to_string()));
    assert_eq!(m.get(&0), Some(&"zero".to_string()));
    assert_eq!(m.get(&1), None);
}
