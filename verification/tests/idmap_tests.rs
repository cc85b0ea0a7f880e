use immich_auto_uploader::idmap::IdMap;

#[test]
fn id_map_behaves_like_a_map() {
    let mut m: IdMap<u32> = IdMap::new();
    assert!(!m.contains("a"));
    m.insert("a".to_string(), 1);
    m.insert("b".to_string(), 2);
    m.insert("a".to_string(), 3);
    assert_eq!(m.get("a"), Some(&3));
    assert_eq!(m.get("b"), Some(&2));
    m.remove("a");
    assert!(!m.contains("a"));
    assert_eq!(m.take("b"), Some(2));
    assert_eq!(m.take("b"), None);
    assert!(!m.contains("b"));
}
