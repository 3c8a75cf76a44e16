use tablestore::table::Table;
use tablestore::types::{ColumnType, TableError, Value};

fn users_table() -> Table {
    let mut t = Table::new("users");
    t.add_column("ID", "uuid_v4").unwrap();
    t.add_column("Username", "string").unwrap();
    t.add_column("Password", "string").unwrap();
    t.set_primary_key("ID").unwrap();
    t
}

#[test]
fn new_table_is_empty() {
    let t = Table::new("users");
    assert_eq!(t.row_count(), 0);
    assert_eq!(t.columns.len(), 0);
    assert!(t.primary_key_column.is_none());
    assert_eq!(t.table_name, "users");
}

#[test]
fn add_column_records_name_and_type() {
    let mut t = Table::new("t");
    t.add_column("a", "serial").unwrap();
    t.add_column("b", "int").unwrap();
    assert_eq!(t.columns.len(), 2);
    assert_eq!(t.columns[0].column_name, "a");
    assert_eq!(t.columns[0].datatype, ColumnType::Serial);
    assert_eq!(t.columns[0].auto_increment, 1);
    assert_eq!(t.columns[1].datatype, ColumnType::Int);
    assert_eq!(t.columns[1].auto_increment, 0);
}

#[test]
fn unsupported_type_rejected() {
    let mut t = Table::new("t");
    assert_eq!(t.add_column("a", "float"), Err(TableError::UnsupportedType));
    assert_eq!(t.add_column("a", ""), Err(TableError::UnsupportedType));
    assert_eq!(t.columns.len(), 0);
}

#[test]
fn duplicate_column_name_rejected() {
    let mut t = Table::new("t");
    t.add_column("a", "int").unwrap();
    assert_eq!(t.add_column("a", "string"), Err(TableError::DuplicateColumnName));
    assert_eq!(t.columns.len(), 1);
}

#[test]
fn schema_frozen_after_first_row() {
    let mut t = Table::new("t");
    t.add_column("a", "int").unwrap();
    t.add_row(vec![Value::Integer(1)]).unwrap();
    assert_eq!(t.add_column("b", "string"), Err(TableError::SchemaFrozenAfterFirstRow));
    assert_eq!(t.columns.len(), 1);
}

#[test]
fn primary_key_set_once() {
    let mut t = users_table();
    // A second designation fails, and the first stays.
    assert_eq!(t.set_primary_key("Username"), Err(TableError::PrimaryKeyAlreadySet));
    assert_eq!(t.set_primary_key("ID"), Err(TableError::PrimaryKeyAlreadySet));
    assert_eq!(t.primary_key_column, Some(0));
    let flagged = t.columns.iter().filter(|c| c.primary_key).count();
    assert_eq!(flagged, 1);
}

#[test]
fn primary_key_unknown_column() {
    let mut t = users_table();
    let mut u = Table::new("u");
    assert_eq!(t.set_primary_key("Nope"), Err(TableError::ColumnNotFound));
    assert_eq!(u.set_primary_key("ID"), Err(TableError::ColumnNotFound));
}

#[test]
fn add_row_arity_mismatch_leaves_table_unchanged() {
    let mut t = users_table();
    t.add_row(vec![
        Value::UuidV4(String::new()),
        Value::Text("Alice".to_string()),
        Value::Text("PASS".to_string()),
    ])
    .unwrap();
    // A row of the wrong arity is rejected and no column grows.
    let r = t.add_row(vec![Value::Text("Bob".to_string())]);
    assert_eq!(r, Err(TableError::RowArityMismatch));
    assert_eq!(t.row_count(), 1);
    for c in &t.columns {
        assert_eq!(c.data.len(), 1);
    }
}

#[test]
fn add_row_type_mismatch_leaves_table_unchanged() {
    let mut t = Table::new("t");
    t.add_column("a", "string").unwrap();
    t.add_column("b", "int").unwrap();
    let r = t.add_row(vec![Value::Text("x".to_string()), Value::Text("y".to_string())]);
    assert_eq!(r, Err(TableError::TypeMismatch));
    assert_eq!(t.row_count(), 0);
    assert_eq!(t.columns[0].data.len(), 0);
    assert_eq!(t.columns[1].data.len(), 0);
}

#[test]
fn remove_row_out_of_range_leaves_table_unchanged() {
    let mut t = users_table();
    t.add_row_simple(vec!["_", "Alice", "PASS"]).unwrap();
    // An index at or past the row count is rejected without effect.
    assert_eq!(t.remove_row(1), Err(TableError::IndexOutOfRange));
    assert_eq!(t.remove_row(7), Err(TableError::IndexOutOfRange));
    assert_eq!(t.row_count(), 1);
    assert_eq!(t.columns[1].data[0], Value::Text("Alice".to_string()));
}

#[test]
fn row_count_invariant_across_operations() {
    // After every successful add_row/remove_row all columns have
    // equal length.
    let mut t = Table::new("t");
    t.add_column("k", "serial").unwrap();
    t.add_column("v", "string").unwrap();
    t.add_column("n", "int").unwrap();
    for i in 0..4 {
        t.add_row(vec![
            Value::Serial(0),
            Value::Text(format!("row{}", i)),
            Value::Integer(i),
        ])
        .unwrap();
        for c in &t.columns {
            assert_eq!(c.data.len(), t.row_count());
        }
    }
    t.remove_row(2).unwrap();
    t.remove_row(0).unwrap();
    assert_eq!(t.row_count(), 2);
    for c in &t.columns {
        assert_eq!(c.data.len(), 2);
    }
}

#[test]
fn users_end_to_end() {
    // Build the users table end to end.
    let mut t = users_table();
    t.add_row_simple(vec!["_", "Alice", "PASS"]).unwrap();
    t.add_row_simple(vec!["_", "Bob", "PASS"]).unwrap();
    assert_eq!(t.row_count(), 2);
    let id0 = match &t.columns[0].data[0] {
        Value::UuidV4(s) => s.clone(),
        other => panic!("expected a UUID value, got {:?}", other),
    };
    let id1 = match &t.columns[0].data[1] {
        Value::UuidV4(s) => s.clone(),
        other => panic!("expected a UUID value, got {:?}", other),
    };
    assert_ne!(id0, id1);
    assert!(uuid::Uuid::parse_str(&id0).is_ok());
    assert!(uuid::Uuid::parse_str(&id1).is_ok());
    t.remove_row(0).unwrap();
    assert_eq!(t.row_count(), 1);
    assert_eq!(t.columns[1].data[0], Value::Text("Bob".to_string()));
    assert_eq!(t.columns[2].data[0], Value::Text("PASS".to_string()));
}

#[test]
fn edit_data_replaces_in_place() {
    let mut t = Table::new("t");
    t.add_column("v", "string").unwrap();
    t.add_row(vec![Value::Text("old".to_string())]).unwrap();
    t.columns[0].edit_data(0, Value::Text("new".to_string())).unwrap();
    assert_eq!(t.columns[0].data[0], Value::Text("new".to_string()));
    assert_eq!(
        t.columns[0].edit_data(1, Value::Text("x".to_string())),
        Err(TableError::IndexOutOfRange)
    );
    assert_eq!(
        t.columns[0].edit_data(0, Value::Integer(3)),
        Err(TableError::TypeMismatch)
    );
    assert_eq!(t.columns[0].data[0], Value::Text("new".to_string()));
}
