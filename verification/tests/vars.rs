use zellij_bookmarks::vars::VarMap;

#[test]
fn a_new_map_has_no_keys() {
    let m = VarMap::new();
    assert!(!m.contains_key("x"));
    assert_eq!(m.get("x"), None);
    assert!(m.pairs().is_empty());
}

#[test]
fn insert_gives_a_key_its_value_and_replaces_an_older_one() {
    let mut m = VarMap::new();
    m.insert("x".to_string(), "1".to_string());
    m.insert("y".to_string(), "2".to_string());
    assert_eq!(m.get("x"), Some(&"1".to_string()));
    assert_eq!(m.get("y"), Some(&"2".to_string()));
    m.insert("x".to_string(), "3".to_string());
    assert_eq!(m.get("x"), Some(&"3".to_string()));
    assert_eq!(m.get("y"), Some(&"2".to_string()));
    assert_eq!(m.pairs().len(), 2);
    assert!(m.contains_key("x"));
    assert!(!m.contains_key("z"));
}

#[test]
fn overlay_prefers_the_values_of_the_map_laid_over() {
    let mut under = VarMap::new();
    under.insert("a".to_string(), "under".to_string());
    under.insert("b".to_string(), "under".to_string());
    let mut over = VarMap::new();
    over.insert("b".to_string(), "over".to_string());
    over.insert("c".to_string(), "over".to_string());
    under.overlay(&over);
    assert_eq!(under.get("a"), Some(&"under".to_string()));
    assert_eq!(under.get("b"), Some(&"over".to_string()));
    assert_eq!(under.get("c"), Some(&"over".to_string()));
    assert_eq!(under.pairs().len(), 3);
}

#[test]
fn a_clone_holds_the_same_values() {
    let mut m = VarMap::new();
    m.insert("x".to_string(), "1".to_string());
    let c = m.clone();
    m.insert("x".to_string(), "2".to_string());
    assert_eq!(c.get("x"), Some(&"1".to_string()));
    assert_eq!(m.get("x"), Some(&"2".to_string()));
}
