//! A single named, typed, ordered sequence of values within a table.
//!
//! A column owns its value storage and the synthesis policy for the
//! synthetic types: a `serial` column appends its own auto-incrementing
//! numbers and renumbers positionally after a removal; a `uuid_v4` column
//! appends freshly generated version-4 UUID strings.

use vstd::prelude::*;
use crate::text::str_eq;
use crate::types::{fresh_uuid_v4, is_uuid_v4_string, value_has_type, value_matches_type,
    ColumnType, TableError, Value};

verus! {

/// The declared type named by a type tag, if the tag is recognised.
pub open spec fn type_of_tag(tag: Seq<char>) -> Option<ColumnType> {
    if tag == "string"@ {
        Some(ColumnType::Text)
    } else if tag == "int"@ {
        Some(ColumnType::Int)
    } else if tag == "serial"@ {
        Some(ColumnType::Serial)
    } else if tag == "uuid_v4"@ {
        Some(ColumnType::UuidV4)
    } else {
        None
    }
}

/// One schema field: a name, a declared type, and the dense ordered
/// sequence of values stored under that field, one per row.
#[derive(Debug)]
pub struct Column {
    /// The field's name, fixed at creation.
    pub column_name: String,
    /// The declared type, fixed at creation.
    pub datatype: ColumnType,
    /// The stored values, one per row.
    pub data: Vec<Value>,
    /// The next number a `serial` column will append; meaningless (and
    /// held at zero) for the other types.
    pub auto_increment: u64,
    /// Whether this column is the table's primary key.
    pub primary_key: bool,
}

impl Column {
    /// Well-formedness: every stored value carries the variant matching
    /// the declared type, and the serial counter stands one past the
    /// current length (so the next appended number extends `1..N`).
    pub open spec fn wf(self) -> bool {
        &&& forall|i: int|
            0 <= i < self.data@.len() ==> value_matches_type(
                #[trigger] self.data@[i],
                self.datatype,
            )
        &&& self.datatype == ColumnType::Serial ==> self.auto_increment == self.data@.len() + 1
        &&& self.datatype != ColumnType::Serial ==> self.auto_increment == 0
    }

    /// Serial contiguity: a `serial` column reads exactly `1, 2, ..., N`.
    /// Appends and removals preserve this; only a direct `edit_data` of a
    /// serial value can break it.
    pub open spec fn serial_contiguous(self) -> bool {
        self.datatype == ColumnType::Serial ==> forall|i: int|
            0 <= i < self.data@.len() ==> #[trigger] self.data@[i] == Value::Serial((i + 1) as u64)
    }

    /// Create an empty column.  Fails with `UnsupportedType` exactly when
    /// the type tag lies outside the recognised set `string`, `int`,
    /// `serial`, `uuid_v4`.
    pub fn new(column_name: &str, column_type: &str) -> (r: Result<Column, TableError>)
        ensures
            match r {
                Ok(c) => {
                    &&& type_of_tag(column_type@) == Some(c.datatype)
                    &&& c.wf()
                    &&& c.serial_contiguous()
                    &&& c.column_name@ == column_name@
                    &&& c.data@ == Seq::<Value>::empty()
                    &&& c.primary_key == false
                },
                Err(e) => e == TableError::UnsupportedType && type_of_tag(column_type@) is None,
            },
            r is Ok <==> type_of_tag(column_type@) is Some,
    {
        let datatype = if str_eq(column_type, "string") {
            ColumnType::Text
        } else if str_eq(column_type, "int") {
            ColumnType::Int
        } else if str_eq(column_type, "serial") {
            ColumnType::Serial
        } else if str_eq(column_type, "uuid_v4") {
            ColumnType::UuidV4
        } else {
            return Err(TableError::UnsupportedType);
        };
        let auto_increment: u64 = if datatype == ColumnType::Serial {
            1
        } else {
            0
        };
        Ok(
            Column {
                column_name: column_name.to_owned(),
                datatype,
                data: Vec::new(),
                auto_increment,
                primary_key: false,
            },
        )
    }

    /// Append one value.  The synthesis policy overrides the supplied
    /// value for the synthetic types: a `serial` column appends its next
    /// counter value, a `uuid_v4` column a freshly generated UUID string.
    /// For `string` and `int` columns the supplied value is stored as-is
    /// after a variant check, failing with `TypeMismatch` on a mismatch.
    pub fn add_data(&mut self, data: Value) -> (r: Result<(), TableError>)
        requires
            old(self).wf(),
            old(self).data@.len() + 2 <= u64::MAX,
        ensures
            final(self).wf(),
            final(self).column_name == old(self).column_name,
            final(self).datatype == old(self).datatype,
            final(self).primary_key == old(self).primary_key,
            old(self).serial_contiguous() ==> final(self).serial_contiguous(),
            r is Ok <==> (old(self).datatype == ColumnType::Serial || old(self).datatype
                == ColumnType::UuidV4 || value_matches_type(data, old(self).datatype)),
            match r {
                Ok(()) => {
                    &&& old(self).datatype == ColumnType::Serial ==> {
                        &&& final(self).data@ == old(self).data@.push(
                            Value::Serial(old(self).auto_increment),
                        )
                        &&& final(self).auto_increment == old(self).auto_increment + 1
                    }
                    &&& old(self).datatype == ColumnType::UuidV4 ==> {
                        &&& final(self).data@.len() == old(self).data@.len() + 1
                        &&& final(self).data@.subrange(0, old(self).data@.len() as int)
                            == old(self).data@
                        &&& final(self).data@.last() matches Value::UuidV4(u)
                            && is_uuid_v4_string(u@)
                    }
                    &&& (old(self).datatype == ColumnType::Text || old(self).datatype
                        == ColumnType::Int) ==> final(self).data@ == old(self).data@.push(data)
                    &&& old(self).datatype != ColumnType::Serial ==> final(self).auto_increment
                        == old(self).auto_increment
                },
                Err(e) => e == TableError::TypeMismatch && *final(self) == *old(self),
            },
    {
        match self.datatype {
            ColumnType::Serial => {
                self.data.push(Value::Serial(self.auto_increment));
                self.auto_increment = self.auto_increment + 1;
                Ok(())
            },
            ColumnType::UuidV4 => {
                let u = fresh_uuid_v4();
                self.data.push(Value::UuidV4(u));
                proof {
                    let ghost prior = old(self).data@;
                    assert(final(self).data@.subrange(0, prior.len() as int) =~= prior);
                }
                Ok(())
            },
            _ => {
                if value_has_type(&data, self.datatype) {
                    self.data.push(data);
                    Ok(())
                } else {
                    Err(TableError::TypeMismatch)
                }
            },
        }
    }

    /// Remove the value at `index`, failing with `IndexOutOfRange` exactly
    /// when `index` is at or beyond the current length.  A `serial` column
    /// then renumbers positionally: every remaining value is rewritten to
    /// its one-based position, restoring the contiguous run `1..N`.
    pub fn remove_data(&mut self, index: usize) -> (r: Result<(), TableError>)
        requires
            old(self).wf(),
        ensures
            final(self).wf(),
            final(self).column_name == old(self).column_name,
            final(self).datatype == old(self).datatype,
            final(self).primary_key == old(self).primary_key,
            old(self).serial_contiguous() ==> final(self).serial_contiguous(),
            r is Ok <==> index < old(self).data@.len(),
            match r {
                Ok(()) => {
                    &&& final(self).data@.len() == old(self).data@.len() - 1
                    &&& old(self).datatype == ColumnType::Serial ==> {
                        &&& final(self).serial_contiguous()
                        &&& final(self).auto_increment == old(self).auto_increment - 1
                    }
                    &&& old(self).datatype != ColumnType::Serial ==> {
                        &&& final(self).data@ == old(self).data@.remove(index as int)
                        &&& final(self).auto_increment == old(self).auto_increment
                    }
                },
                Err(e) => e == TableError::IndexOutOfRange && *final(self) == *old(self),
            },
    {
        if index < self.data.len() {
            self.data.remove(index);
            if self.datatype == ColumnType::Serial {
                self.auto_increment = self.auto_increment - 1;
                let ghost removed: Seq<Value> = self.data@;
                let n = self.data.len();
                let mut i: usize = 0;
                while i < n
                    invariant
                        0 <= i <= n,
                        n == self.data@.len(),
                        n + 2 <= u64::MAX,
                        forall|j: int|
                            0 <= j < i ==> #[trigger] self.data@[j] == Value::Serial((j + 1) as u64),
                        forall|j: int| i <= j < n ==> #[trigger] self.data@[j] == removed[j],
                        forall|j: int|
                            0 <= j < n ==> value_matches_type(#[trigger] removed[j], ColumnType::Serial),
                        self.column_name == old(self).column_name,
                        self.datatype == old(self).datatype,
                        self.datatype == ColumnType::Serial,
                        self.primary_key == old(self).primary_key,
                        self.auto_increment == old(self).auto_increment - 1,
                    decreases n - i,
                {
                    self.data.set(i, Value::Serial((i as u64) + 1));
                    i += 1;
                }
            }
            Ok(())
        } else {
            Err(TableError::IndexOutOfRange)
        }
    }

    /// Replace the value at `index` in place.  Fails with
    /// `IndexOutOfRange` when `index` is at or beyond the current length,
    /// and otherwise with `TypeMismatch` when the supplied value's variant
    /// does not match the declared type.
    pub fn edit_data(&mut self, index: usize, new_data: Value) -> (r: Result<(), TableError>)
        requires
            old(self).wf(),
        ensures
            final(self).wf(),
            final(self).column_name == old(self).column_name,
            final(self).datatype == old(self).datatype,
            final(self).primary_key == old(self).primary_key,
            final(self).auto_increment == old(self).auto_increment,
            r is Ok <==> index < old(self).data@.len() && value_matches_type(
                new_data,
                old(self).datatype,
            ),
            match r {
                Ok(()) => final(self).data@ == old(self).data@.update(index as int, new_data),
                Err(e) => {
                    &&& *final(self) == *old(self)
                    &&& (e == TableError::IndexOutOfRange <==> index >= old(self).data@.len())
                    &&& (e == TableError::TypeMismatch <==> index < old(self).data@.len()
                        && !value_matches_type(new_data, old(self).datatype))
                },
            },
    {
        if index >= self.data.len() {
            Err(TableError::IndexOutOfRange)
        } else if !value_has_type(&new_data, self.datatype) {
            Err(TableError::TypeMismatch)
        } else {
            self.data.set(index, new_data);
            Ok(())
        }
    }
}

} // verus!
