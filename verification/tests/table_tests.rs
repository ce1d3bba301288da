use homeserver_sync::table::Table;

#[test]
fn table_starts_empty() {
    let table: Table<String, u32> = Table::new();
    assert!(table.is_empty());
    assert_eq!(table.len(), 0);
    assert!(table.get(&"a".to_owned()).is_none());
}

#[test]
fn table_insert_get_and_replace() {
    let mut table: Table<String, u32> = Table::new();
    table.insert("a".to_owned(), 1);
    table.insert("b".to_owned(), 2);
    table.insert("a".to_owned(), 3);
    assert_eq!(table.len(), 2);
    assert_eq!(table.get(&"a".to_owned()), Some(&3));
    assert_eq!(table.get(&"b".to_owned()), Some(&2));
    assert!(table.contains_key(&"a".to_owned()));
    assert!(!table.contains_key(&"c".to_owned()));
    let lines = table.into_vec();
    assert_eq!(lines[0].key, "a");
    assert_eq!(lines[0].value, 3);
    assert_eq!(lines[1].key, "b");
    assert_eq!(lines[1].value, 2);
}

#[test]
fn table_remove_takes_only_the_named_key() {
    let mut table: Table<String, u32> = Table::new();
    table.insert("a".to_owned(), 1);
    table.insert("b".to_owned(), 2);
    table.insert("c".to_owned(), 3);
    assert_eq!(table.remove(&"b".to_owned()), Some(2));
    assert_eq!(table.remove(&"b".to_owned()), None);
    assert_eq!(table.remove(&"z".to_owned()), None);
    assert_eq!(table.len(), 2);
    assert_eq!(table.get(&"a".to_owned()), Some(&1));
    assert_eq!(table.get(&"c".to_owned()), Some(&3));
}
