use platform_poc::key_index::KeyIndex;

fn keys(i: &KeyIndex) -> Vec<String> {
    i.get_keys()
}

#[test]
fn lists_keys_in_first_write_order_once_each() {
    let mut i = KeyIndex::new();
    assert!(keys(&i).is_empty());
    i.set("b");
    i.set("a");
    i.set("b");
    assert_eq!(keys(&i), vec!["b", "a"]);
    assert!(i.has_key("a"));
    assert!(!i.has_key("c"));
}

#[test]
fn delete_removes_only_that_key() {
    let mut i = KeyIndex::new();
    i.set("a");
    i.set("b");
    i.set("c");
    i.delete("b");
    assert_eq!(keys(&i), vec!["a", "c"]);
    i.delete("zzz");
    assert_eq!(keys(&i), vec!["a", "c"]);
    assert!(!i.has_key("b"));
}

#[test]
fn delete_undoes_a_new_set() {
    let mut i = KeyIndex::new();
    i.set("a");
    let before = keys(&i);
    i.set("new");
    i.delete("new");
    assert_eq!(keys(&i), before);
}

#[test]
fn batches() {
    let mut i = KeyIndex::new();
    i.set_many(&vec!["x".to_string(), "y".to_string(), "x".to_string()]);
    assert_eq!(keys(&i), vec!["x", "y"]);
    i.delete_many(&vec!["x".to_string(), "q".to_string()]);
    assert_eq!(keys(&i), vec!["y"]);
}

#[test]
fn lists_exactly_the_live_keys_after_a_history() {
    let mut i = KeyIndex::new();
    i.set("a");
    i.set("b");
    i.delete("a");
    i.set("c");
    i.set("a");
    i.delete("zzz");
    i.set("b");
    assert_eq!(keys(&i), vec!["b", "c", "a"]);
}
