use dsh_tui::strmap::StringMap;

#[test]
fn pairs_list_each_key_once_with_its_value() {
    let mut m = StringMap::new();
    m.insert("A".to_string(), "1".to_string());
    assert_eq!(m.pairs().len(), 1);
    m.insert("B".to_string(), "2".to_string());
    m.insert("A".to_string(), "3".to_string());
    assert_eq!(m.pairs(), &vec![("A".to_string(), "3".to_string()), ("B".to_string(), "2".to_string())]);
    let c = m.clone();
    assert_eq!(c.get("A"), Some(&"3".to_string()));
    assert_eq!(c.pairs().len(), 2);
}
