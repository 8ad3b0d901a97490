use genesis_transactions::table::Table;

#[test]
fn a_table_keeps_the_last_value_of_a_key() {
    let mut table: Table<String, bool> = Table::new();
    assert_eq!(table.len(), 0);
    table.insert("a".to_string(), true);
    table.insert("b".to_string(), true);
    table.insert("a".to_string(), false);
    assert_eq!(table.len(), 2);
    assert_eq!(table.get(&"a".to_string()), Some(&false));
    assert_eq!(table.get(&"b".to_string()), Some(&true));
    assert_eq!(table.get(&"c".to_string()), None);
}

#[test]
fn a_removed_key_is_gone() {
    let mut table: Table<String, bool> = Table::new();
    table.insert("a".to_string(), true);
    table.insert("b".to_string(), false);
    assert_eq!(table.remove(&"a".to_string()), Some(true));
    assert_eq!(table.remove(&"a".to_string()), None);
    assert!(!table.contains_key(&"a".to_string()));
    assert!(table.contains_key(&"b".to_string()));
    assert_eq!(table.key_at(0), "b");
    assert_eq!(table.value_at(0), &false);
}
