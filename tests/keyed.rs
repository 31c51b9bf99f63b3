use jobset_generator::{str_eq, str_lt, KeyedCollection};

#[test]
fn insert_keeps_keys_sorted_and_unique() {
    let mut c: KeyedCollection<u32> = KeyedCollection::new();
    c.insert(String::from("b"), 2);
    c.insert(String::from("a"), 1);
    c.insert(String::from("ab"), 3);
    c.insert(String::from("b"), 4);
    assert_eq!(c.len(), 3);
    let keys: Vec<&str> = c.entries().iter().map(|e| e.0.as_str()).collect();
    assert_eq!(keys, vec!["a", "ab", "b"]);
    assert_eq!(c.get("b"), Some(&4));
    assert_eq!(c.get("c"), None);
    let values: Vec<u32> = c.into_entries().into_iter().map(|e| e.1).collect();
    assert_eq!(values, vec![1, 3, 4]);
}

#[test]
fn string_order_is_by_code_point() {
    assert!(str_lt("", "a"));
    assert!(!str_lt("a", ""));
    assert!(str_lt("Z", "a"));
    assert!(str_lt("ab", "b"));
    assert!(str_lt("a", "ab"));
    assert!(!str_lt("ab", "ab"));
    assert!(str_lt("z", "é"));
    assert!(str_eq("é", "é"));
    assert!(!str_eq("a", "ab"));
}
