//! The thin surrounding layer: a transaction record with a status field, a
//! database that lists its table names, and an instance that registers
//! databases by name.  None of it carries table logic; the table engine
//! itself lives in [`crate::table`].

use vstd::prelude::*;
use crate::text::str_eq;
use crate::types::{fresh_uuid_v4, is_uuid_v4_string};

verus! {

/// The status a transaction reports.  No transition policy is defined:
/// execution reports `Done` unconditionally.
#[derive(Clone, Copy, Debug, PartialEq, Eq, Structural)]
pub enum TransactionStatus {
    Pending,
    Executing,
    Done,
    Error,
}

/// A transaction record: an identifier, the command text, the executors
/// and client involved, and a status.
#[derive(Debug)]
pub struct Transaction {
    /// A freshly generated version-4 UUID naming this transaction.
    pub transaction_id: String,
    /// The command this transaction carries.
    pub transaction_cmd: String,
    /// The executor the transaction is addressed to.
    pub executor_id: String,
    /// The executor that in fact ran it; empty until then.
    pub fact_executor_id: String,
    /// The reported status.
    pub status: TransactionStatus,
    /// The client that submitted the transaction.
    pub client_id: String,
}

impl Transaction {
    /// Create a pending transaction with a fresh version-4 UUID as its
    /// identifier and an empty fact-executor field.
    pub fn init(transaction_cmd: &str, executor_id: &str, client_id: String) -> (t: Transaction)
        ensures
            is_uuid_v4_string(t.transaction_id@),
            t.transaction_cmd@ == transaction_cmd@,
            t.executor_id@ == executor_id@,
            t.fact_executor_id@ == Seq::<char>::empty(),
            t.status == TransactionStatus::Pending,
            t.client_id == client_id,
    {
        Transaction {
            transaction_id: fresh_uuid_v4(),
            transaction_cmd: transaction_cmd.to_owned(),
            executor_id: executor_id.to_owned(),
            fact_executor_id: String::new(),
            status: TransactionStatus::Pending,
            client_id,
        }
    }

    /// Set the reported status; every other field stays.
    pub fn change_status(&mut self, status: TransactionStatus)
        ensures
            final(self).status == status,
            final(self).transaction_id == old(self).transaction_id,
            final(self).transaction_cmd == old(self).transaction_cmd,
            final(self).executor_id == old(self).executor_id,
            final(self).fact_executor_id == old(self).fact_executor_id,
            final(self).client_id == old(self).client_id,
    {
        self.status = status;
    }
}

/// A database: a name, an engine label, and the names of its tables.
#[derive(Debug)]
pub struct Database {
    /// The database's name.
    pub name: String,
    /// The names of the tables created under this database.
    pub tables: Vec<String>,
    /// The storage-engine label the database was created with.
    pub engine: String,
}

impl Database {
    /// Create a database with no tables.
    pub fn init(name: &str, engine: &str) -> (d: Database)
        ensures
            d.name@ == name@,
            d.engine@ == engine@,
            d.tables@.len() == 0,
    {
        Database { name: name.to_owned(), tables: Vec::new(), engine: engine.to_owned() }
    }

    /// Record one more table name.
    pub fn create_table(&mut self, tablename: &str)
        ensures
            final(self).name == old(self).name,
            final(self).engine == old(self).engine,
            final(self).tables@.len() == old(self).tables@.len() + 1,
            forall|i: int| 0 <= i < old(self).tables@.len() ==> final(self).tables@[i] == old(self).tables@[i],
            final(self).tables@.last()@ == tablename@,
    {
        self.tables.push(tablename.to_owned());
    }
}

/// An instance: a registry of databases under unique names.
#[derive(Debug)]
pub struct Instance {
    /// A freshly generated version-4 UUID naming this instance.
    pub instance_id: String,
    /// The registered databases; names are unique.
    pub databases: Vec<Database>,
}

impl Instance {
    /// Well-formedness: no two registered databases share a name.
    pub open spec fn wf(self) -> bool {
        forall|i: int, j: int|
            0 <= i < j < self.databases@.len() ==> (#[trigger] self.databases@[i]).name@ != (
            #[trigger] self.databases@[j]).name@
    }

    /// Create an instance with a fresh version-4 UUID as its identifier
    /// and no databases.
    pub fn init() -> (r: Instance)
        ensures
            r.wf(),
            is_uuid_v4_string(r.instance_id@),
            r.databases@.len() == 0,
    {
        Instance { instance_id: fresh_uuid_v4(), databases: Vec::new() }
    }

    /// Register an empty database under the given name, replacing any
    /// database already registered under it.
    pub fn create_database(&mut self, database_name: &str, database_engine: &str)
        requires
            old(self).wf(),
        ensures
            final(self).wf(),
            final(self).instance_id == old(self).instance_id,
            final(self).has_database_named(database_name@),
            exists|k: int|
                #![trigger final(self).databases@[k]]
                {
                    let after = final(self).databases@;
                    &&& 0 <= k < after.len()
                    &&& after[k].name@ == database_name@
                    &&& after[k].engine@ == database_engine@
                    &&& after[k].tables@.len() == 0
                    &&& forall|j: int|
                        0 <= j < old(self).databases@.len() && j != k ==> old(
                            self,
                        ).databases@[j] == after[j]
                },
    {
        let d = Database::init(database_name, database_engine);
        let n = self.databases.len();
        let mut i: usize = 0;
        while i < n
            invariant
                0 <= i <= n,
                n == self.databases@.len(),
                forall|j: int|
                    0 <= j < i ==> (#[trigger] self.databases@[j]).name@ != database_name@,
                *self == *old(self),
                old(self).wf(),
                d.name@ == database_name@,
                d.engine@ == database_engine@,
                d.tables@.len() == 0,
            decreases n - i,
        {
            if str_eq(self.databases[i].name.as_str(), database_name) {
                let ghost dbs0 = self.databases@;
                let _ = self.databases.remove(i);
                self.databases.insert(i, d);
                proof {
                    assert(self.databases@ =~= dbs0.update(i as int, self.databases@[i as int]));
                }
                return ;
            }
            i += 1;
        }
        self.databases.push(d);
        proof {
            assert(self.databases@[n as int].name@ == database_name@);
            assert(forall|j: int|
                0 <= j < old(self).databases@.len() && j != n ==> old(self).databases@[j]
                    == self.databases@[j]);
        }
    }

    /// True when some database carries the given name.
    pub open spec fn has_database_named(self, name: Seq<char>) -> bool {
        exists|i: int|
            0 <= i < self.databases@.len() && (#[trigger] self.databases@[i]).name@ == name
    }

    /// A placeholder with no observable effect: the surrounding design
    /// declares it, but defines no behaviour for it.
    pub fn create_table(&self, database_name: &str, table_name: &str) {
    }

    /// Report the outcome of a transaction.  No execution policy is
    /// defined: the reported status is unconditionally `Done`.
    pub fn execute_transaction(&self, transaction: &Transaction) -> (s: TransactionStatus)
        ensures
            s == TransactionStatus::Done,
    {
        TransactionStatus::Done
    }
}

} // verus!
