use rwa_protocol::store::Store;

fn filled(keys: &[&str]) -> Store<u64> {
    let mut s: Store<u64> = Store::new();
    let mut n = 0;
    for k in keys.iter() {
        n += 1;
        s.insert(k.to_string(), n);
    }
    s
}

fn keys_of(s: &Store<u64>, bounds: (usize, usize)) -> Vec<String> {
    let mut out = Vec::new();
    for i in bounds.0..bounds.1 {
        out.push(s.entry(i).key.clone());
    }
    out
}

#[test]
fn new_store_is_empty() {
    let s: Store<u64> = Store::new();
    assert_eq!(s.len(), 0);
    assert_eq!(s.get("1"), None);
    assert!(!s.contains("1"));
    assert_eq!(s.find("1"), None);
    assert_eq!(s.page_bounds(None, 10), (0, 0));
}

#[test]
fn insert_then_get() {
    let s = filled(&["b", "a", "c"]);
    assert_eq!(s.len(), 3);
    assert_eq!(s.get("a"), Some(&2));
    assert_eq!(s.get("b"), Some(&1));
    assert_eq!(s.get("c"), Some(&3));
    assert_eq!(s.get("d"), None);
    assert!(s.contains("a"));
    assert!(!s.contains(""));
}

#[test]
fn insert_replaces_what_stands_under_the_key() {
    let mut s = filled(&["a", "b"]);
    s.insert("a".to_string(), 77);
    assert_eq!(s.len(), 2);
    assert_eq!(s.get("a"), Some(&77));
    assert_eq!(s.get("b"), Some(&2));
}

#[test]
fn remove_takes_one_key_out() {
    let mut s = filled(&["a", "b", "c"]);
    s.remove("b");
    assert_eq!(s.len(), 2);
    assert_eq!(s.get("b"), None);
    assert_eq!(s.get("a"), Some(&1));
    assert_eq!(s.get("c"), Some(&3));
    s.remove("b");
    assert_eq!(s.len(), 2);
    s.remove("zz");
    assert_eq!(s.len(), 2);
}

#[test]
fn listing_ascends_by_bytes() {
    let s = filled(&["2", "10", "1", "9", "11"]);
    assert_eq!(keys_of(&s, (0, s.len())), vec!["1", "10", "11", "2", "9"]);
    assert_eq!(s.find("1"), Some(0));
    assert_eq!(s.find("9"), Some(4));
    assert_eq!(s.find("3"), None);
    assert_eq!(s.entry(1).value, 2);
}

#[test]
fn page_starts_strictly_after_the_cursor() {
    let s = filled(&["1", "2", "3", "4", "5"]);
    assert_eq!(keys_of(&s, s.page_bounds(Some("2"), 10)), vec!["3", "4", "5"]);
    assert_eq!(keys_of(&s, s.page_bounds(Some("5"), 10)), Vec::<String>::new());
    assert_eq!(keys_of(&s, s.page_bounds(Some("0"), 10)), vec!["1", "2", "3", "4", "5"]);
    assert_eq!(keys_of(&s, s.page_bounds(Some(""), 10)), vec!["1", "2", "3", "4", "5"]);
}

#[test]
fn page_cursor_need_not_be_a_key() {
    let s = filled(&["1", "3", "5"]);
    assert_eq!(keys_of(&s, s.page_bounds(Some("2"), 10)), vec!["3", "5"]);
    assert_eq!(keys_of(&s, s.page_bounds(Some("10"), 10)), vec!["3", "5"]);
    assert_eq!(keys_of(&s, s.page_bounds(Some("6"), 10)), Vec::<String>::new());
}

#[test]
fn page_holds_at_most_the_limit() {
    let s = filled(&["1", "2", "3", "4", "5"]);
    assert_eq!(keys_of(&s, s.page_bounds(None, 2)), vec!["1", "2"]);
    assert_eq!(keys_of(&s, s.page_bounds(Some("1"), 2)), vec!["2", "3"]);
    assert_eq!(keys_of(&s, s.page_bounds(Some("4"), 2)), vec!["5"]);
    assert_eq!(keys_of(&s, s.page_bounds(None, 0)), Vec::<String>::new());
    assert_eq!(keys_of(&s, s.page_bounds(None, usize::MAX)), vec!["1", "2", "3", "4", "5"]);
}
