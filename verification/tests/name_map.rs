use rust_ast_differ::name_map::NameMap;

fn n_key(s: &str) -> String {
    s.to_string()
}

#[test]
fn a_new_map_is_empty() {
    let m: NameMap<u32> = NameMap::new();
    assert_eq!(m.len(), 0);
    assert!(m.is_empty());
    assert_eq!(m.get(&n_key("a")), None);
    assert!(!m.contains_key(&n_key("a")));
    assert_eq!(m.position(&n_key("a")), None);
}

#[test]
fn insert_appends_new_names_in_order() {
    let mut m: NameMap<u32> = NameMap::new();
    m.insert(n_key("b"), 2);
    m.insert(n_key("a"), 1);
    m.insert(n_key("c"), 3);
    assert_eq!(m.len(), 3);
    assert!(!m.is_empty());
    assert_eq!(m.entries, vec![(n_key("b"), 2), (n_key("a"), 1), (n_key("c"), 3)]);
    assert_eq!(m.position(&n_key("a")), Some(1));
    assert_eq!(m.get(&n_key("c")), Some(&3));
    assert!(m.contains_key(&n_key("b")));
    assert!(!m.contains_key(&n_key("d")));
}

#[test]
fn insert_overwrites_in_place() {
    let mut m: NameMap<u32> = NameMap::new();
    m.insert(n_key("a"), 1);
    m.insert(n_key("b"), 2);
    m.insert(n_key("a"), 10);
    assert_eq!(m.len(), 2);
    assert_eq!(m.entries, vec![(n_key("a"), 10), (n_key("b"), 2)]);
    assert_eq!(m.get(&n_key("a")), Some(&10));
}

#[test]
fn lookup_finds_the_first_entry_of_a_name() {
    let m = NameMap { entries: vec![(n_key("a"), 1), (n_key("b"), 2), (n_key("a"), 3)] };
    assert_eq!(m.position(&n_key("a")), Some(0));
    assert_eq!(m.get(&n_key("a")), Some(&1));
    let mut m = m;
    m.insert(n_key("a"), 9);
    assert_eq!(m.entries, vec![(n_key("a"), 9), (n_key("b"), 2), (n_key("a"), 3)]);
}
