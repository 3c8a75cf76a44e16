use tablestore::registry::{Database, Instance, Transaction, TransactionStatus};

#[test]
fn transaction_init_is_pending_with_uuid_id() {
    let t = Transaction::init("INSERT", "exec-1", "client-9".to_string());
    assert_eq!(t.status, TransactionStatus::Pending);
    assert_eq!(t.transaction_cmd, "INSERT");
    assert_eq!(t.executor_id, "exec-1");
    assert_eq!(t.client_id, "client-9");
    assert_eq!(t.fact_executor_id, "");
    assert!(uuid::Uuid::parse_str(&t.transaction_id).is_ok());
    assert_eq!(t.transaction_id.len(), 36);
}

#[test]
fn change_status_only_touches_status() {
    let mut t = Transaction::init("SELECT", "exec-2", "client-1".to_string());
    let id = t.transaction_id.clone();
    t.change_status(TransactionStatus::Executing);
    assert_eq!(t.status, TransactionStatus::Executing);
    t.change_status(TransactionStatus::Error);
    assert_eq!(t.status, TransactionStatus::Error);
    assert_eq!(t.transaction_id, id);
    assert_eq!(t.transaction_cmd, "SELECT");
}

#[test]
fn database_records_table_names() {
    let mut d = Database::init("db1", "kv_engine");
    assert_eq!(d.name, "db1");
    assert_eq!(d.engine, "kv_engine");
    assert!(d.tables.is_empty());
    d.create_table("users");
    d.create_table("orders");
    assert_eq!(d.tables, vec!["users".to_string(), "orders".to_string()]);
}

#[test]
fn instance_registers_databases_by_unique_name() {
    let mut inst = Instance::init();
    assert!(uuid::Uuid::parse_str(&inst.instance_id).is_ok());
    inst.create_database("db1", "kv_engine");
    inst.create_database("db2", "kv_engine");
    assert_eq!(inst.databases.len(), 2);
    // Registering the same name again replaces the entry instead of
    // producing a duplicate.
    inst.databases[0].create_table("users");
    inst.create_database("db1", "other_engine");
    assert_eq!(inst.databases.len(), 2);
    assert_eq!(inst.databases[0].name, "db1");
    assert_eq!(inst.databases[0].engine, "other_engine");
    assert!(inst.databases[0].tables.is_empty());
}

#[test]
fn execute_transaction_reports_done() {
    let inst = Instance::init();
    let t = Transaction::init("ANY", "exec", "client".to_string());
    assert_eq!(inst.execute_transaction(&t), TransactionStatus::Done);
}
