use rpc_shield::strmap::StrMap;

#[test]
fn test_strmap_get_and_insert() {
    let mut m: StrMap<u64> = StrMap::new();
    assert!(m.get(&"a".to_string()).is_none());
    m.insert("a".to_string(), 1);
    m.insert("b".to_string(), 2);
    assert_eq!(m.get(&"a".to_string()), Some(&1));
    assert_eq!(m.get(&"b".to_string()), Some(&2));
    assert!(m.get(&"c".to_string()).is_none());
}

#[test]
fn test_strmap_insert_overwrites() {
    let mut m: StrMap<u64> = StrMap::new();
    m.insert("a".to_string(), 1);
    m.insert("a".to_string(), 7);
    assert_eq!(m.get(&"a".to_string()), Some(&7));
}

#[test]
fn test_strmap_clear() {
    let mut m: StrMap<u64> = StrMap::new();
    m.insert("a".to_string(), 1);
    m.clear();
    assert!(m.get(&"a".to_string()).is_none());
}
