use lightkeeper::keyed::KeyedList;

#[test]
fn keyed_list_keeps_keys_sorted() {
    let mut list: KeyedList<String> = KeyedList::new();
    list.insert(String::from("pear"), String::from("3"));
    list.insert(String::from("apple"), String::from("1"));
    list.insert(String::from("fig"), String::from("2"));
    assert_eq!(list.len(), 3);
    assert_eq!(list.key_at(0), "apple");
    assert_eq!(list.key_at(1), "fig");
    assert_eq!(list.key_at(2), "pear");
    assert_eq!(list.value_at(2), "3");
}

#[test]
fn keyed_list_insert_replaces_and_remove_returns() {
    let mut list: KeyedList<String> = KeyedList::new();
    list.insert(String::from("a"), String::from("old"));
    list.insert(String::from("a"), String::from("new"));
    assert_eq!(list.len(), 1);
    assert_eq!(list.get("a"), Some(&String::from("new")));
    assert!(list.contains_key("a"));
    assert_eq!(list.remove("a"), Some(String::from("new")));
    assert_eq!(list.remove("a"), None);
    assert!(!list.contains_key("a"));
    assert_eq!(list.len(), 0);
}

#[test]
fn keyed_list_copy_is_equal() {
    let mut list: KeyedList<String> = KeyedList::new();
    list.insert(String::from("k"), String::from("v"));
    let copy = list.deep_copy_list();
    assert_eq!(copy.get("k"), Some(&String::from("v")));
    assert_eq!(copy.len(), 1);
}
