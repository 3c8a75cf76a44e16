use tablestore::column::Column;
use tablestore::table::Table;
use tablestore::types::{TableError, Value};

#[test]
fn serial_appends_count_up() {
    // Appends produce 1, 2, ..., N.
    let mut t = Table::new("t");
    t.add_column("id", "serial").unwrap();
    for _ in 0..3 {
        t.add_row(vec![Value::Integer(999)]).unwrap();
    }
    assert_eq!(
        t.columns[0].data,
        vec![Value::Serial(1), Value::Serial(2), Value::Serial(3)]
    );
    assert_eq!(t.columns[0].auto_increment, 4);
}

#[test]
fn serial_renumbers_after_front_removal() {
    // Removing the first row renumbers to [1, 2], not [2, 3].
    let mut t = Table::new("t");
    t.add_column("id", "serial").unwrap();
    for _ in 0..3 {
        t.add_row(vec![Value::Serial(0)]).unwrap();
    }
    t.remove_row(0).unwrap();
    assert_eq!(t.columns[0].data, vec![Value::Serial(1), Value::Serial(2)]);
    assert_eq!(t.columns[0].auto_increment, 3);
}

#[test]
fn serial_renumbers_after_middle_removal() {
    // Three rows, remove the middle one: values become [1, 2], not
    // [1, 3].
    let mut t = Table::new("t");
    t.add_column("id", "serial").unwrap();
    for _ in 0..3 {
        t.add_row(vec![Value::Serial(0)]).unwrap();
    }
    t.remove_row(1).unwrap();
    assert_eq!(t.columns[0].data, vec![Value::Serial(1), Value::Serial(2)]);
}

#[test]
fn serial_ignores_supplied_value() {
    let mut c = Column::new("id", "serial").unwrap();
    c.add_data(Value::Text("ignored".to_string())).unwrap();
    c.add_data(Value::Serial(777)).unwrap();
    assert_eq!(c.data, vec![Value::Serial(1), Value::Serial(2)]);
}

#[test]
fn serial_next_value_continues_after_removals() {
    let mut c = Column::new("id", "serial").unwrap();
    for _ in 0..4 {
        c.add_data(Value::Serial(0)).unwrap();
    }
    c.remove_data(3).unwrap();
    c.remove_data(0).unwrap();
    assert_eq!(c.data, vec![Value::Serial(1), Value::Serial(2)]);
    c.add_data(Value::Serial(0)).unwrap();
    assert_eq!(c.data, vec![Value::Serial(1), Value::Serial(2), Value::Serial(3)]);
}

fn is_uuid_v4_text(s: &str) -> bool {
    let chars: Vec<char> = s.chars().collect();
    if chars.len() != 36 {
        return false;
    }
    for (i, c) in chars.iter().enumerate() {
        if i == 8 || i == 13 || i == 18 || i == 23 {
            if *c != '-' {
                return false;
            }
        } else if !(c.is_ascii_digit() || ('a'..='f').contains(c)) {
            return false;
        }
    }
    chars[14] == '4' && matches!(chars[19], '8' | '9' | 'a' | 'b')
}

#[test]
fn uuid_column_generates_valid_v4_strings() {
    // Every appended value is a well-formed version-4 UUID string,
    // whatever value the caller supplied.  This also exercises the
    // generator: a column that merely echoed the supplied placeholder
    // would fail the shape check.
    let mut c = Column::new("id", "uuid_v4").unwrap();
    for _ in 0..8 {
        c.add_data(Value::Text("placeholder".to_string())).unwrap();
    }
    for v in &c.data {
        match v {
            Value::UuidV4(s) => {
                assert!(is_uuid_v4_text(s), "not a v4 UUID: {}", s);
                let parsed = uuid::Uuid::parse_str(s).unwrap();
                assert_eq!(parsed.get_version_num(), 4);
            }
            other => panic!("expected a UUID value, got {:?}", other),
        }
    }
}

#[test]
fn uuid_column_values_are_distinct() {
    // No two appended values in the same column are equal.
    let mut c = Column::new("id", "uuid_v4").unwrap();
    for _ in 0..16 {
        c.add_data(Value::UuidV4(String::new())).unwrap();
    }
    for i in 0..c.data.len() {
        for j in 0..i {
            assert_ne!(c.data[i], c.data[j]);
        }
    }
}

#[test]
fn column_remove_out_of_range() {
    let mut c = Column::new("n", "int").unwrap();
    c.add_data(Value::Integer(5)).unwrap();
    assert_eq!(c.remove_data(1), Err(TableError::IndexOutOfRange));
    assert_eq!(c.data, vec![Value::Integer(5)]);
}

#[test]
fn column_type_mismatch_on_plain_types() {
    let mut c = Column::new("n", "int").unwrap();
    assert_eq!(
        c.add_data(Value::Text("five".to_string())),
        Err(TableError::TypeMismatch)
    );
    assert_eq!(c.data.len(), 0);
    c.add_data(Value::Integer(-3)).unwrap();
    assert_eq!(c.data, vec![Value::Integer(-3)]);
}
