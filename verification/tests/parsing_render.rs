use tablestore::table::Table;
use tablestore::types::{TableError, Value};

fn int_table() -> Table {
    let mut t = Table::new("t");
    t.add_column("n", "int").unwrap();
    t
}

fn last_int(t: &Table) -> i64 {
    match t.columns[0].data.last().unwrap() {
        Value::Integer(v) => *v,
        other => panic!("expected an integer value, got {:?}", other),
    }
}

#[test]
fn add_row_simple_parses_integers() {
    let mut t = int_table();
    t.add_row_simple(vec!["42"]).unwrap();
    assert_eq!(last_int(&t), 42);
    t.add_row_simple(vec!["-7"]).unwrap();
    assert_eq!(last_int(&t), -7);
    t.add_row_simple(vec!["+5"]).unwrap();
    assert_eq!(last_int(&t), 5);
    t.add_row_simple(vec!["007"]).unwrap();
    assert_eq!(last_int(&t), 7);
    t.add_row_simple(vec!["0"]).unwrap();
    assert_eq!(last_int(&t), 0);
}

#[test]
fn add_row_simple_parses_extreme_integers() {
    let mut t = int_table();
    t.add_row_simple(vec!["9223372036854775807"]).unwrap();
    assert_eq!(last_int(&t), i64::MAX);
    t.add_row_simple(vec!["-9223372036854775808"]).unwrap();
    assert_eq!(last_int(&t), i64::MIN);
}

#[test]
fn add_row_simple_rejects_bad_integers() {
    let mut t = int_table();
    for bad in ["", "-", "+", "12a", "abc", " 1", "1 ", "9223372036854775808",
        "-9223372036854775809", "99999999999999999999999999"]
    {
        assert_eq!(
            t.add_row_simple(vec![bad]),
            Err(TableError::InvalidIntegerLiteral),
            "literal {:?} should be rejected",
            bad
        );
        assert_eq!(t.row_count(), 0);
    }
}

#[test]
fn add_row_simple_arity_checked_first() {
    let mut t = int_table();
    assert_eq!(
        t.add_row_simple(vec!["1", "2"]),
        Err(TableError::RowArityMismatch)
    );
    assert_eq!(t.row_count(), 0);
}

#[test]
fn add_row_simple_wraps_strings_as_is() {
    let mut t = Table::new("t");
    t.add_column("s", "string").unwrap();
    t.add_row_simple(vec!["hello world"]).unwrap();
    assert_eq!(t.columns[0].data[0], Value::Text("hello world".to_string()));
}

#[test]
fn render_plain_table() {
    let mut t = Table::new("t");
    t.add_column("id", "serial").unwrap();
    t.add_column("name", "string").unwrap();
    t.add_row_simple(vec!["_", "al"]).unwrap();
    t.add_row_simple(vec!["_", "bo"]).unwrap();
    let expected = "@---TABLE: t --\n\
                    | id | name |\n\
                    |----|------|\n\
                    | 1  | al   |\n\
                    | 2  | bo   |\n";
    assert_eq!(t.render(), expected);
}

#[test]
fn render_marks_primary_key_and_sizes_to_widest_value() {
    let mut t = Table::new("people");
    t.add_column("id", "serial").unwrap();
    t.add_column("who", "string").unwrap();
    t.set_primary_key("id").unwrap();
    t.add_row_simple(vec!["_", "Archimedes"]).unwrap();
    let expected = "@---TABLE: people --\n\
                    | id(PK) | who        |\n\
                    |--------|------------|\n\
                    | 1      | Archimedes |\n";
    assert_eq!(t.render(), expected);
}

#[test]
fn render_negative_integers() {
    let mut t = Table::new("n");
    t.add_column("v", "int").unwrap();
    t.add_row(vec![Value::Integer(-120)]).unwrap();
    t.add_row(vec![Value::Integer(3)]).unwrap();
    let expected = "@---TABLE: n --\n\
                    | v    |\n\
                    |------|\n\
                    | -120 |\n\
                    | 3    |\n";
    assert_eq!(t.render(), expected);
}

#[test]
fn render_empty_table() {
    let t = Table::new("empty");
    assert_eq!(t.render(), "@---TABLE: empty --\n|\n|\n");
}
