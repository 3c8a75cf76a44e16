//! The value model: declared column types, typed cell values, and the
//! errors that table and column operations can return.

use vstd::prelude::*;

verus! {

/// The declared type of a column: the closed set of recognised type tags.
#[derive(Clone, Copy, Debug, PartialEq, Eq, Structural)]
pub enum ColumnType {
    /// Tag `"string"`: caller-supplied text.
    Text,
    /// Tag `"int"`: caller-supplied signed integers.
    Int,
    /// Tag `"serial"`: auto-incrementing integers, renumbered after removals.
    Serial,
    /// Tag `"uuid_v4"`: freshly generated version-4 UUID strings.
    UuidV4,
}

/// A single typed cell value.  A column never mixes variants: every value
/// stored in a column carries the variant matching its declared type.
#[derive(Debug, PartialEq)]
pub enum Value {
    Serial(u64),
    Integer(i64),
    Text(String),
    UuidV4(String),
}

/// Every failure a table or column operation can report.  All operations
/// are atomic: on any error the table and its columns are left unchanged.
#[derive(Clone, Copy, Debug, PartialEq, Eq, Structural)]
pub enum TableError {
    /// A column type tag outside the recognised set.
    UnsupportedType,
    /// A row or value index at or beyond the current row count.
    IndexOutOfRange,
    /// A supplied row whose value count differs from the column count.
    RowArityMismatch,
    /// A column name that no column of the table carries.
    ColumnNotFound,
    /// A second attempt to designate a primary key.
    PrimaryKeyAlreadySet,
    /// Text that does not parse as a signed integer for an `int` column.
    InvalidIntegerLiteral,
    /// A supplied value whose variant does not match the declared type.
    TypeMismatch,
    /// A column name already used by another column of the table.
    DuplicateColumnName,
    /// An attempt to add a column while the table holds rows.
    SchemaFrozenAfterFirstRow,
}

/// True of the variant of `v` matching the declared type `t`.
pub open spec fn value_matches_type(v: Value, t: ColumnType) -> bool {
    match v {
        Value::Serial(_) => t == ColumnType::Serial,
        Value::Integer(_) => t == ColumnType::Int,
        Value::Text(_) => t == ColumnType::Text,
        Value::UuidV4(_) => t == ColumnType::UuidV4,
    }
}

/// Executable check of [`value_matches_type`].
pub fn value_has_type(v: &Value, t: ColumnType) -> (r: bool)
    ensures
        r == value_matches_type(*v, t),
{
    match v {
        Value::Serial(_) => t == ColumnType::Serial,
        Value::Integer(_) => t == ColumnType::Int,
        Value::Text(_) => t == ColumnType::Text,
        Value::UuidV4(_) => t == ColumnType::UuidV4,
    }
}

/// True of a lowercase hexadecimal digit.
pub open spec fn is_lower_hex_digit(c: char) -> bool {
    (('0' as u32) <= (c as u32) && (c as u32) <= ('9' as u32)) || (('a' as u32) <= (c as u32)
        && (c as u32) <= ('f' as u32))
}

/// The four hyphen positions of the 8-4-4-4-12 hyphenated UUID form.
pub open spec fn is_uuid_hyphen_pos(i: int) -> bool {
    i == 8 || i == 13 || i == 18 || i == 23
}

/// A syntactically valid version-4 UUID in its canonical textual form:
/// 36 characters, hyphens at positions 8, 13, 18 and 23, lowercase hex
/// digits elsewhere, the version digit `4` at position 14, and a variant
/// digit among `8`, `9`, `a`, `b` at position 19.
pub open spec fn is_uuid_v4_string(s: Seq<char>) -> bool {
    &&& s.len() == 36
    &&& forall|i: int| 0 <= i < 36 && is_uuid_hyphen_pos(i) ==> #[trigger] s[i] == '-'
    &&& forall|i: int|
        0 <= i < 36 && !is_uuid_hyphen_pos(i) ==> is_lower_hex_digit(#[trigger] s[i])
    &&& s[14] == '4'
    &&& (s[19] == '8' || s[19] == '9' || s[19] == 'a' || s[19] == 'b')
}

/// Relies on `uuid::Uuid::new_v4` and the `Display` impl for `Uuid`:
/// `new_v4` draws a random UUID and masks the version nibble to `4` and the
/// variant bits to `10xx` (RFC 9562, section 5.4), and `Display` prints the
/// lowercase hyphenated 8-4-4-4-12 form.  The value itself is random, so
/// nothing beyond its shape is stated.
#[verifier::external_body]
pub(crate) fn fresh_uuid_v4() -> (r: String)
    ensures
        is_uuid_v4_string(r@),
{
    uuid::Uuid::new_v4().to_string()
}

} // verus!
