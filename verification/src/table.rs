//! A named collection of equal-length columns sharing a row index, with at
//! most one designated primary-key column.
//!
//! The table owns the schema-wide invariants: all columns hold the same
//! number of values, at most one column is the primary key, column names
//! are unique, and every `serial` column reads `1, 2, ..., N`.  Row
//! operations are atomic: a rejected operation leaves every column exactly
//! as it was.

use vstd::prelude::*;
use crate::column::{type_of_tag, Column};
use crate::text::{int_literal_val, parses_to_i64, str_eq};
use crate::types::{is_uuid_v4_string, value_has_type, value_matches_type, ColumnType, TableError,
    Value};

verus! {

/// True when the declared type accepts the supplied value on append: the
/// synthetic types ignore the supplied value, the plain types demand the
/// matching variant.
pub open spec fn value_accepted(t: ColumnType, v: Value) -> bool {
    t == ColumnType::Serial || t == ColumnType::UuidV4 || value_matches_type(v, t)
}

/// How one append changes one column: the name, type and key flag stay;
/// one value lands at the end, chosen by the column's synthesis policy.
pub open spec fn column_after_append(oc: Column, nc: Column, v: Value) -> bool {
    &&& nc.column_name == oc.column_name
    &&& nc.datatype == oc.datatype
    &&& nc.primary_key == oc.primary_key
    &&& nc.data@.len() == oc.data@.len() + 1
    &&& nc.data@.subrange(0, oc.data@.len() as int) == oc.data@
    &&& oc.datatype == ColumnType::Serial ==> {
        &&& nc.data@ == oc.data@.push(Value::Serial(oc.auto_increment))
        &&& nc.auto_increment == oc.auto_increment + 1
    }
    &&& oc.datatype == ColumnType::UuidV4 ==> {
        &&& nc.data@.last() matches Value::UuidV4(u)
        &&& is_uuid_v4_string(u@)
    }
    &&& (oc.datatype == ColumnType::Text || oc.datatype == ColumnType::Int) ==> nc.data@
        == oc.data@.push(v)
    &&& oc.datatype != ColumnType::Serial ==> nc.auto_increment == oc.auto_increment
}

/// How one removal changes one column: the value at `idx` leaves; a
/// `serial` column then renumbers positionally to `1..N`, the others keep
/// their remaining values in order.
pub open spec fn column_after_remove(oc: Column, nc: Column, idx: int) -> bool {
    &&& nc.column_name == oc.column_name
    &&& nc.datatype == oc.datatype
    &&& nc.primary_key == oc.primary_key
    &&& nc.data@.len() == oc.data@.len() - 1
    &&& oc.datatype == ColumnType::Serial ==> {
        &&& nc.serial_contiguous()
        &&& nc.auto_increment == oc.auto_increment - 1
    }
    &&& oc.datatype != ColumnType::Serial ==> {
        &&& nc.data@ == oc.data@.remove(idx)
        &&& nc.auto_increment == oc.auto_increment
    }
}

/// A named table: an ordered schema of columns and an optional
/// primary-key designation.
#[derive(Debug)]
pub struct Table {
    /// The table's name, fixed at creation.
    pub table_name: String,
    /// The columns, in schema declaration order.
    pub columns: Vec<Column>,
    /// The index of the designated primary-key column, if one is set.
    pub primary_key_column: Option<usize>,
}

impl Table {
    /// The common length of all columns: the number of rows.
    pub open spec fn spec_row_count(self) -> nat {
        if self.columns@.len() == 0 {
            0
        } else {
            self.columns@[0].data@.len()
        }
    }

    /// The primary-key designation agrees with the per-column flags:
    /// exactly the designated column is flagged, or no column is.
    pub open spec fn pk_consistent(self) -> bool {
        match self.primary_key_column {
            Some(k) => {
                &&& k < self.columns@.len()
                &&& self.columns@[k as int].primary_key
                &&& forall|i: int|
                    0 <= i < self.columns@.len() && i != k ==> !(
                    #[trigger] self.columns@[i]).primary_key
            },
            None => forall|i: int|
                0 <= i < self.columns@.len() ==> !(#[trigger] self.columns@[i]).primary_key,
        }
    }

    /// No two columns share a name.
    pub open spec fn names_unique(self) -> bool {
        forall|i: int, j: int|
            0 <= i < j < self.columns@.len() ==> (#[trigger] self.columns@[i]).column_name@ != (
            #[trigger] self.columns@[j]).column_name@
    }

    /// Well-formedness: every column is well-formed and holds exactly one
    /// value per row, every `serial` column reads `1..N`, the primary-key
    /// designation is consistent, and column names are unique.
    pub open spec fn wf(self) -> bool {
        &&& forall|i: int| 0 <= i < self.columns@.len() ==> (#[trigger] self.columns@[i]).wf()
        &&& forall|i: int|
            0 <= i < self.columns@.len() ==> (#[trigger] self.columns@[i]).data@.len()
                == self.spec_row_count()
        &&& forall|i: int|
            0 <= i < self.columns@.len() ==> (#[trigger] self.columns@[i]).serial_contiguous()
        &&& self.pk_consistent()
        &&& self.names_unique()
    }

    /// True when some column carries the given name.
    pub open spec fn has_column_named(self, name: Seq<char>) -> bool {
        exists|i: int|
            0 <= i < self.columns@.len() && (#[trigger] self.columns@[i]).column_name@ == name
    }

    /// Create an empty table: no columns, no primary key.
    pub fn new(table_name: &str) -> (t: Table)
        ensures
            t.wf(),
            t.table_name@ == table_name@,
            t.columns@.len() == 0,
            t.primary_key_column is None,
    {
        Table { table_name: table_name.to_owned(), columns: Vec::new(), primary_key_column: None }
    }

    /// The number of rows.
    pub fn row_count(&self) -> (n: usize)
        requires
            self.wf(),
        ensures
            n == self.spec_row_count(),
    {
        if self.columns.len() == 0 {
            0
        } else {
            self.columns[0].data.len()
        }
    }

    /// Append a new column to the schema.  Fails with
    /// `SchemaFrozenAfterFirstRow` once any row exists, with
    /// `DuplicateColumnName` when a column of that name exists, and with
    /// `UnsupportedType` when the type tag is not recognised.
    pub fn add_column(&mut self, column_name: &str, column_type: &str) -> (r: Result<
        (),
        TableError,
    >)
        requires
            old(self).wf(),
        ensures
            final(self).wf(),
            final(self).table_name == old(self).table_name,
            final(self).primary_key_column == old(self).primary_key_column,
            r is Ok <==> (old(self).spec_row_count() == 0 && !old(self).has_column_named(
                column_name@,
            ) && type_of_tag(column_type@) is Some),
            match r {
                Ok(()) => {
                    &&& final(self).columns@.len() == old(self).columns@.len() + 1
                    &&& forall|i: int|
                        0 <= i < old(self).columns@.len() ==> final(self).columns@[i]
                            == old(self).columns@[i]
                    &&& final(self).columns@.last().column_name@ == column_name@
                    &&& type_of_tag(column_type@) == Some(final(self).columns@.last().datatype)
                    &&& final(self).columns@.last().data@ == Seq::<Value>::empty()
                    &&& final(self).columns@.last().primary_key == false
                },
                Err(e) => {
                    &&& *final(self) == *old(self)
                    &&& (e == TableError::SchemaFrozenAfterFirstRow <==> old(self).spec_row_count()
                        > 0)
                    &&& (e == TableError::DuplicateColumnName <==> old(self).spec_row_count() == 0
                        && old(self).has_column_named(column_name@))
                    &&& (e == TableError::UnsupportedType <==> old(self).spec_row_count() == 0
                        && !old(self).has_column_named(column_name@) && type_of_tag(
                        column_type@,
                    ) is None)
                },
            },
    {
        if self.row_count() > 0 {
            return Err(TableError::SchemaFrozenAfterFirstRow);
        }
        let n = self.columns.len();
        let mut i: usize = 0;
        while i < n
            invariant
                0 <= i <= n,
                n == self.columns@.len(),
                forall|j: int|
                    0 <= j < i ==> (#[trigger] self.columns@[j]).column_name@ != column_name@,
                *self == *old(self),
                old(self).wf(),
                old(self).spec_row_count() == 0,
            decreases n - i,
        {
            if str_eq(self.columns[i].column_name.as_str(), column_name) {
                return Err(TableError::DuplicateColumnName);
            }
            i += 1;
        }
        match Column::new(column_name, column_type) {
            Ok(c) => {
                self.columns.push(c);
                Ok(())
            },
            Err(e) => Err(e),
        }
    }

    /// Designate the column of the given name as the primary key.  Fails
    /// with `ColumnNotFound` when no column carries the name, and with
    /// `PrimaryKeyAlreadySet` when a primary key was designated before.
    pub fn set_primary_key(&mut self, column_name: &str) -> (r: Result<(), TableError>)
        requires
            old(self).wf(),
        ensures
            final(self).wf(),
            final(self).table_name == old(self).table_name,
            final(self).columns@.len() == old(self).columns@.len(),
            final(self).spec_row_count() == old(self).spec_row_count(),
            r is Ok <==> (old(self).has_column_named(column_name@)
                && old(self).primary_key_column is None),
            match r {
                Ok(()) => exists|k: usize|
                    #![trigger old(self).columns@[k as int]]
                    {
                        let before = old(self).columns@;
                        let after = final(self).columns@;
                        &&& 0 <= k < before.len()
                        &&& before[k as int].column_name@ == column_name@
                        &&& final(self).primary_key_column == Some(k)
                        &&& after[k as int].primary_key == true
                        &&& after[k as int].column_name == before[k as int].column_name
                        &&& after[k as int].datatype == before[k as int].datatype
                        &&& after[k as int].data == before[k as int].data
                        &&& after[k as int].auto_increment == before[k as int].auto_increment
                        &&& forall|j: int|
                            0 <= j < before.len() && j != k ==> after[j] == before[j]
                    },
                Err(e) => {
                    &&& *final(self) == *old(self)
                    &&& (e == TableError::ColumnNotFound <==> !old(self).has_column_named(
                        column_name@,
                    ))
                    &&& (e == TableError::PrimaryKeyAlreadySet <==> old(self).has_column_named(
                        column_name@,
                    ) && old(self).primary_key_column is Some)
                },
            },
    {
        let n = self.columns.len();
        let mut i: usize = 0;
        while i < n
            invariant
                0 <= i <= n,
                n == self.columns@.len(),
                forall|j: int|
                    0 <= j < i ==> (#[trigger] self.columns@[j]).column_name@ != column_name@,
                *self == *old(self),
                old(self).wf(),
            decreases n - i,
        {
            if str_eq(self.columns[i].column_name.as_str(), column_name) {
                if self.primary_key_column.is_some() {
                    return Err(TableError::PrimaryKeyAlreadySet);
                }
                let ghost cols0 = self.columns@;
                let mut c = self.columns.remove(i);
                c.primary_key = true;
                self.columns.insert(i, c);
                proof {
                    assert(self.columns@ =~= cols0.update(
                        i as int,
                        Column { primary_key: true, ..cols0[i as int] },
                    ));
                }
                self.primary_key_column = Some(i);
                return Ok(());
            }
            i += 1;
        }
        Err(TableError::ColumnNotFound)
    }

    /// True when every supplied value is accepted by its column.
    pub open spec fn row_accepted(self, row: Seq<Value>) -> bool {
        forall|i: int|
            0 <= i < self.columns@.len() ==> value_accepted(
                (#[trigger] self.columns@[i]).datatype,
                row[i],
            )
    }

    /// Append one row: one value lands in every column, each chosen by
    /// that column's synthesis policy.  Fails with `RowArityMismatch` when
    /// the value count differs from the column count, and with
    /// `TypeMismatch` when a plain column is handed the wrong variant; on
    /// any failure no column changes, so no partial row can exist.
    pub fn add_row(&mut self, row_data: Vec<Value>) -> (r: Result<(), TableError>)
        requires
            old(self).wf(),
            old(self).spec_row_count() < usize::MAX - 1,
        ensures
            final(self).wf(),
            final(self).table_name == old(self).table_name,
            final(self).primary_key_column == old(self).primary_key_column,
            final(self).columns@.len() == old(self).columns@.len(),
            forall|i: int|
                0 <= i < final(self).columns@.len() ==> (#[trigger] final(self).columns@[i]).data@.len() == final(self).spec_row_count(),
            forall|i: int|
                0 <= i < final(self).columns@.len() ==> (#[trigger] final(self).columns@[i]).serial_contiguous(),
            r is Ok <==> (row_data@.len() == old(self).columns@.len() && old(self).row_accepted(
                row_data@,
            )),
            match r {
                Ok(()) => {
                    &&& old(self).columns@.len() > 0 ==> final(self).spec_row_count() == old(self).spec_row_count() + 1
                    &&& forall|i: int|
                        0 <= i < old(self).columns@.len() ==> column_after_append(
                            old(self).columns@[i],
                            #[trigger] final(self).columns@[i],
                            row_data@[i],
                        )
                },
                Err(e) => {
                    &&& *final(self) == *old(self)
                    &&& (e == TableError::RowArityMismatch <==> row_data@.len() != old(self).columns@.len())
                    &&& (e == TableError::TypeMismatch <==> (row_data@.len() == old(self).columns@.len() && !old(self).row_accepted(row_data@)))
                },
            },
    {
        let n = self.columns.len();
        if row_data.len() != n {
            return Err(TableError::RowArityMismatch);
        }
        let mut i: usize = 0;
        while i < n
            invariant
                0 <= i <= n,
                n == self.columns@.len(),
                row_data@.len() == n,
                forall|j: int|
                    0 <= j < i ==> value_accepted(
                        (#[trigger] self.columns@[j]).datatype,
                        row_data@[j],
                    ),
                *self == *old(self),
                old(self).wf(),
            decreases n - i,
        {
            let dt = self.columns[i].datatype;
            if dt == ColumnType::Text || dt == ColumnType::Int {
                if !value_has_type(&row_data[i], dt) {
                    return Err(TableError::TypeMismatch);
                }
            }
            i += 1;
        }
        let ghost cols0 = self.columns@;
        let ghost row0 = row_data@;
        proof {
            assert(old(self).row_accepted(row0));
        }
        let mut row = row_data;
        let mut i: usize = 0;
        while i < n
            invariant
                0 <= i <= n,
                n == cols0.len(),
                self.columns@.len() == n,
                row0.len() == n,
                row@ == row0.subrange(i as int, n as int),
                cols0 == old(self).columns@,
                self.table_name == old(self).table_name,
                self.primary_key_column == old(self).primary_key_column,
                old(self).wf(),
                old(self).spec_row_count() < usize::MAX - 1,
                old(self).row_accepted(row0),
                forall|j: int| i <= j < n ==> self.columns@[j] == cols0[j],
                forall|j: int|
                    0 <= j < i ==> column_after_append(
                        cols0[j],
                        #[trigger] self.columns@[j],
                        row0[j],
                    ),
                forall|j: int| 0 <= j < i ==> (#[trigger] self.columns@[j]).wf(),
                forall|j: int| 0 <= j < i ==> (#[trigger] self.columns@[j]).serial_contiguous(),
            decreases n - i,
        {
            proof {
                assert(row0.subrange(i as int, n as int)[0] == row0[i as int]);
            }
            let v = row.remove(0);
            proof {
                assert(row@ =~= row0.subrange(i + 1, n as int));
                assert(cols0[i as int].wf());
                assert(cols0[i as int].serial_contiguous());
                assert(cols0[i as int].data@.len() == old(self).spec_row_count());
                assert(value_accepted(cols0[i as int].datatype, row0[i as int]));
            }
            let ghost colsb = self.columns@;
            let mut c = self.columns.remove(i);
            let res = c.add_data(v);
            proof {
                assert(res is Ok);
            }
            self.columns.insert(i, c);
            proof {
                assert(self.columns@ =~= colsb.update(i as int, c));
                let oc = cols0[i as int];
                assert(c.data@.subrange(0, oc.data@.len() as int) =~= oc.data@);
                assert(column_after_append(oc, c, row0[i as int]));
            }
            i += 1;
        }
        proof {
            assert forall|j: int| 0 <= j < n implies (#[trigger] self.columns@[j]).data@.len()
                == old(self).spec_row_count() + 1 by {
                assert(column_after_append(cols0[j], self.columns@[j], row0[j]));
            }
            if n > 0 {
                assert(self.spec_row_count() == old(self).spec_row_count() + 1);
            }
            assert forall|j: int| 0 <= j < n implies (#[trigger] self.columns@[j]).primary_key
                == cols0[j].primary_key by {
                assert(column_after_append(cols0[j], self.columns@[j], row0[j]));
            }
            assert forall|j: int| 0 <= j < n implies (#[trigger] self.columns@[j]).column_name
                == cols0[j].column_name by {
                assert(column_after_append(cols0[j], self.columns@[j], row0[j]));
            }
            assert(self.pk_consistent());
            assert(self.names_unique());
        }
        Ok(())
    }

    /// Append one row given as literal text, one string per column.  Each
    /// string is converted according to its column's declared type: an
    /// `int` column parses it (failing with `InvalidIntegerLiteral`), a
    /// `string` column wraps it as-is, and the synthetic columns ignore it
    /// and synthesise their own value.
    pub fn add_row_simple(&mut self, row_data: Vec<&str>) -> (r: Result<(), TableError>)
        requires
            old(self).wf(),
            old(self).spec_row_count() < usize::MAX - 1,
        ensures
            final(self).wf(),
            final(self).table_name == old(self).table_name,
            final(self).primary_key_column == old(self).primary_key_column,
            final(self).columns@.len() == old(self).columns@.len(),
            r is Ok <==> (row_data@.len() == old(self).columns@.len() && forall|i: int|
                0 <= i < row_data@.len() ==> ((#[trigger] old(self).columns@[i]).datatype
                    == ColumnType::Int ==> parses_to_i64(row_data@[i]@))),
            match r {
                Ok(()) => {
                    &&& old(self).columns@.len() > 0 ==> final(self).spec_row_count() == old(self).spec_row_count() + 1
                    &&& forall|i: int|
                        0 <= i < old(self).columns@.len() ==> column_after_text_append(
                            old(self).columns@[i],
                            #[trigger] final(self).columns@[i],
                            row_data@[i]@,
                        )
                },
                Err(e) => {
                    &&& *final(self) == *old(self)
                    &&& (e == TableError::RowArityMismatch <==> row_data@.len() != old(self).columns@.len())
                    &&& (e == TableError::InvalidIntegerLiteral <==> (row_data@.len() == old(self).columns@.len() && exists|i: int|
                        0 <= i < row_data@.len() && (#[trigger] old(self).columns@[i]).datatype
                            == ColumnType::Int && !parses_to_i64(row_data@[i]@)))
                },
            },
    {
        let n = self.columns.len();
        if row_data.len() != n {
            return Err(TableError::RowArityMismatch);
        }
        let mut typed: Vec<Value> = Vec::new();
        let mut i: usize = 0;
        while i < n
            invariant
                0 <= i <= n,
                n == self.columns@.len(),
                row_data@.len() == n,
                *self == *old(self),
                old(self).wf(),
                typed@.len() == i,
                forall|j: int|
                    0 <= j < i ==> typed_from_text(
                        (#[trigger] self.columns@[j]).datatype,
                        typed@[j],
                        row_data@[j]@,
                    ),
            decreases n - i,
        {
            let dt = self.columns[i].datatype;
            match dt {
                ColumnType::Text => {
                    let s: &str = row_data[i];
                    typed.push(Value::Text(s.to_owned()));
                },
                ColumnType::Int => {
                    let s: &str = row_data[i];
                    match crate::text::parse_i64(s) {
                        Ok(v) => typed.push(Value::Integer(v)),
                        Err(_) => {
                            return Err(TableError::InvalidIntegerLiteral);
                        },
                    }
                },
                ColumnType::Serial => {
                    typed.push(Value::Serial(0));
                },
                ColumnType::UuidV4 => {
                    typed.push(Value::UuidV4(String::new()));
                },
            }
            i += 1;
        }
        proof {
            assert(self.row_accepted(typed@));
        }
        let ghost typed0 = typed@;
        let res = self.add_row(typed);
        proof {
            assert(res is Ok);
            assert forall|j: int| 0 <= j < n implies column_after_text_append(
                old(self).columns@[j],
                #[trigger] self.columns@[j],
                row_data@[j]@,
            ) by {
                let oc = old(self).columns@[j];
                let nc = self.columns@[j];
                assert(column_after_append(oc, nc, typed0[j]));
                assert(typed_from_text(oc.datatype, typed0[j], row_data@[j]@));
                if oc.datatype == ColumnType::Text || oc.datatype == ColumnType::Int {
                    assert(nc.data@ == oc.data@.push(typed0[j]));
                    assert(nc.data@.last() == typed0[j]);
                }
                if oc.datatype == ColumnType::Serial {
                    assert(nc.data@.last() == Value::Serial(oc.auto_increment));
                }
            }
        }
        res
    }

    /// Remove the row at `index` from every column in lock-step.  Fails
    /// with `IndexOutOfRange` exactly when `index` is at or beyond the
    /// current row count, leaving the table unchanged; on success every
    /// column shrinks by one and `serial` columns renumber to `1..N`.
    pub fn remove_row(&mut self, index: usize) -> (r: Result<(), TableError>)
        requires
            old(self).wf(),
        ensures
            final(self).wf(),
            final(self).table_name == old(self).table_name,
            final(self).primary_key_column == old(self).primary_key_column,
            final(self).columns@.len() == old(self).columns@.len(),
            forall|i: int|
                0 <= i < final(self).columns@.len() ==> (#[trigger] final(self).columns@[i]).data@.len() == final(self).spec_row_count(),
            forall|i: int|
                0 <= i < final(self).columns@.len() ==> (#[trigger] final(self).columns@[i]).serial_contiguous(),
            r is Ok <==> index < old(self).spec_row_count(),
            match r {
                Ok(()) => {
                    &&& final(self).spec_row_count() == old(self).spec_row_count() - 1
                    &&& forall|i: int|
                        0 <= i < old(self).columns@.len() ==> column_after_remove(
                            old(self).columns@[i],
                            #[trigger] final(self).columns@[i],
                            index as int,
                        )
                },
                Err(e) => e == TableError::IndexOutOfRange && *final(self) == *old(self),
            },
    {
        let rc = self.row_count();
        if index >= rc {
            return Err(TableError::IndexOutOfRange);
        }
        let ghost cols0 = self.columns@;
        let n = self.columns.len();
        let mut i: usize = 0;
        while i < n
            invariant
                0 <= i <= n,
                n == cols0.len(),
                self.columns@.len() == n,
                cols0 == old(self).columns@,
                self.table_name == old(self).table_name,
                self.primary_key_column == old(self).primary_key_column,
                old(self).wf(),
                index < old(self).spec_row_count(),
                forall|j: int| i <= j < n ==> self.columns@[j] == cols0[j],
                forall|j: int|
                    0 <= j < i ==> column_after_remove(
                        cols0[j],
                        #[trigger] self.columns@[j],
                        index as int,
                    ),
                forall|j: int| 0 <= j < i ==> (#[trigger] self.columns@[j]).wf(),
                forall|j: int| 0 <= j < i ==> (#[trigger] self.columns@[j]).serial_contiguous(),
            decreases n - i,
        {
            proof {
                assert(cols0[i as int].wf());
                assert(cols0[i as int].serial_contiguous());
                assert(cols0[i as int].data@.len() == old(self).spec_row_count());
            }
            let ghost colsb = self.columns@;
            let mut c = self.columns.remove(i);
            let res = c.remove_data(index);
            proof {
                assert(res is Ok);
            }
            self.columns.insert(i, c);
            proof {
                assert(self.columns@ =~= colsb.update(i as int, c));
            }
            i += 1;
        }
        proof {
            assert forall|j: int| 0 <= j < n implies (#[trigger] self.columns@[j]).data@.len()
                == old(self).spec_row_count() - 1 by {
                assert(column_after_remove(cols0[j], self.columns@[j], index as int));
            }
            assert(self.spec_row_count() == old(self).spec_row_count() - 1);
            assert forall|j: int| 0 <= j < n implies (#[trigger] self.columns@[j]).primary_key
                == cols0[j].primary_key && self.columns@[j].column_name == cols0[j].column_name by {
                assert(column_after_remove(cols0[j], self.columns@[j], index as int));
            }
            assert(self.pk_consistent());
            assert(self.names_unique());
        }
        Ok(())
    }
}

/// What one text-supplied value becomes for each declared type.
pub open spec fn typed_from_text(t: ColumnType, v: Value, s: Seq<char>) -> bool {
    match t {
        ColumnType::Text => {
            &&& v matches Value::Text(x)
            &&& x@ == s
        },
        ColumnType::Int => {
            &&& parses_to_i64(s)
            &&& v matches Value::Integer(x)
            &&& x == int_literal_val(s)
        },
        ColumnType::Serial => v == Value::Serial(0),
        ColumnType::UuidV4 => v matches Value::UuidV4(_),
    }
}

/// How one append of a text-supplied value changes one column: as
/// [`column_after_append`], with the landed value described against the
/// supplied text.
pub open spec fn column_after_text_append(oc: Column, nc: Column, s: Seq<char>) -> bool {
    &&& nc.column_name == oc.column_name
    &&& nc.datatype == oc.datatype
    &&& nc.primary_key == oc.primary_key
    &&& nc.data@.len() == oc.data@.len() + 1
    &&& nc.data@.subrange(0, oc.data@.len() as int) == oc.data@
    &&& match oc.datatype {
        ColumnType::Text => {
            &&& nc.data@.last() matches Value::Text(t)
            &&& t@ == s
        },
        ColumnType::Int => {
            &&& nc.data@.last() matches Value::Integer(v)
            &&& v == int_literal_val(s)
        },
        ColumnType::Serial => nc.data@.last() == Value::Serial(oc.auto_increment),
        ColumnType::UuidV4 => {
            &&& nc.data@.last() matches Value::UuidV4(u)
            &&& is_uuid_v4_string(u@)
        },
    }
    &&& oc.datatype == ColumnType::Serial ==> nc.auto_increment == oc.auto_increment + 1
    &&& oc.datatype != ColumnType::Serial ==> nc.auto_increment == oc.auto_increment
}

/// Law: in a well-formed table any two columns have equal length — the
/// row-count invariant that successful row operations preserve.
pub proof fn lemma_equal_column_lengths(t: Table, i: int, j: int)
    requires
        t.wf(),
        0 <= i < t.columns@.len(),
        0 <= j < t.columns@.len(),
    ensures
        t.columns@[i].data@.len() == t.columns@[j].data@.len(),
{
}

/// Law: a `serial` column of a well-formed table reads exactly
/// `1, 2, ..., N` from top to bottom, whatever appends and removals
/// produced the current state.
pub proof fn lemma_serial_contiguity(t: Table, c: int, i: int)
    requires
        t.wf(),
        0 <= c < t.columns@.len(),
        t.columns@[c].datatype == ColumnType::Serial,
        0 <= i < t.columns@[c].data@.len(),
    ensures
        t.columns@[c].data@[i] == Value::Serial((i + 1) as u64),
{
}

/// Law: at most one column of a well-formed table is marked as the
/// primary key.
pub proof fn lemma_at_most_one_primary_key(t: Table, i: int, j: int)
    requires
        t.wf(),
        0 <= i < t.columns@.len(),
        0 <= j < t.columns@.len(),
        t.columns@[i].primary_key,
        t.columns@[j].primary_key,
    ensures
        i == j,
{
}

} // verus!
