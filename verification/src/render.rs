//! A read-only, formatted tabular view of a table: one header row with a
//! `(PK)` marker on the primary-key column, a separator row, then one row
//! per record, each cell padded to its column's width and delimited by
//! pipes.  The width of a column is the larger of its header's length and
//! the length of its longest rendered value.

use vstd::prelude::*;
use crate::column::Column;
use crate::table::Table;
use crate::types::Value;

verus! {

/// The decimal digit character for `d` in `0..10`.
pub open spec fn digit_char(d: int) -> char {
    if d == 0 {
        '0'
    } else if d == 1 {
        '1'
    } else if d == 2 {
        '2'
    } else if d == 3 {
        '3'
    } else if d == 4 {
        '4'
    } else if d == 5 {
        '5'
    } else if d == 6 {
        '6'
    } else if d == 7 {
        '7'
    } else if d == 8 {
        '8'
    } else {
        '9'
    }
}

/// The decimal digits of a non-negative number, most significant first.
pub open spec fn dec_digits(n: int) -> Seq<char>
    decreases n,
{
    if n < 10 {
        seq![digit_char(n)]
    } else {
        dec_digits(n / 10).push(digit_char(n % 10))
    }
}

/// The decimal rendering of a signed number: a `-` sign before the digits
/// of the magnitude when negative.
pub open spec fn int_digits(v: int) -> Seq<char> {
    if v < 0 {
        seq!['-'] + dec_digits(-v)
    } else {
        dec_digits(v)
    }
}

/// How one stored value prints inside a cell.
pub open spec fn value_text(v: Value) -> Seq<char> {
    match v {
        Value::Serial(n) => dec_digits(n as int),
        Value::Integer(x) => int_digits(x as int),
        Value::Text(s) => s@,
        Value::UuidV4(s) => s@,
    }
}

/// `k` spaces.
pub open spec fn spaces(k: int) -> Seq<char>
    decreases k,
{
    if k <= 0 {
        Seq::empty()
    } else {
        spaces(k - 1).push(' ')
    }
}

/// `k` dashes.
pub open spec fn dashes(k: int) -> Seq<char>
    decreases k,
{
    if k <= 0 {
        Seq::empty()
    } else {
        dashes(k - 1).push('-')
    }
}

/// `s` left-aligned in a field of width `w`.
pub open spec fn pad_to(s: Seq<char>, w: int) -> Seq<char> {
    s + spaces(w - s.len())
}

fn digit_str(d: u64) -> (r: &'static str)
    requires
        d < 10,
    ensures
        r@ == seq![digit_char(d as int)],
{
    if d == 0 {
        proof {
            reveal_strlit("0");
            assert("0"@ =~= seq![digit_char(0)]);
        }
        "0"
    } else if d == 1 {
        proof {
            reveal_strlit("1");
            assert("1"@ =~= seq![digit_char(1)]);
        }
        "1"
    } else if d == 2 {
        proof {
            reveal_strlit("2");
            assert("2"@ =~= seq![digit_char(2)]);
        }
        "2"
    } else if d == 3 {
        proof {
            reveal_strlit("3");
            assert("3"@ =~= seq![digit_char(3)]);
        }
        "3"
    } else if d == 4 {
        proof {
            reveal_strlit("4");
            assert("4"@ =~= seq![digit_char(4)]);
        }
        "4"
    } else if d == 5 {
        proof {
            reveal_strlit("5");
            assert("5"@ =~= seq![digit_char(5)]);
        }
        "5"
    } else if d == 6 {
        proof {
            reveal_strlit("6");
            assert("6"@ =~= seq![digit_char(6)]);
        }
        "6"
    } else if d == 7 {
        proof {
            reveal_strlit("7");
            assert("7"@ =~= seq![digit_char(7)]);
        }
        "7"
    } else if d == 8 {
        proof {
            reveal_strlit("8");
            assert("8"@ =~= seq![digit_char(8)]);
        }
        "8"
    } else {
        proof {
            reveal_strlit("9");
            assert("9"@ =~= seq![digit_char(9)]);
        }
        "9"
    }
}

/// The decimal string of an unsigned number.
pub fn dec_string(n: u64) -> (r: String)
    ensures
        r@ == dec_digits(n as int),
    decreases n,
{
    let d: u64 = n % 10;
    let ds = digit_str(d);
    if n < 10 {
        proof {
            assert(d == n);
        }
        ds.to_owned()
    } else {
        let mut s = dec_string(n / 10);
        s.append(ds);
        proof {
            assert(s@ =~= dec_digits((n / 10) as int).push(digit_char(d as int)));
        }
        s
    }
}

/// The decimal string of a signed number.
pub fn int_string(v: i64) -> (r: String)
    ensures
        r@ == int_digits(v as int),
{
    if v >= 0 {
        dec_string(v as u64)
    } else {
        let m: u64 = if v == i64::MIN {
            9223372036854775808
        } else {
            (-v) as u64
        };
        proof {
            assert(m as int == -(v as int));
        }
        let mut s = String::new();
        proof {
            reveal_strlit("-");
        }
        s.append("-");
        let ds = dec_string(m);
        s.append(ds.as_str());
        proof {
            assert("-"@ =~= seq!['-']);
            assert(s@ =~= seq!['-'] + dec_digits(m as int));
        }
        s
    }
}

/// The cell text of one stored value.
pub fn value_string(v: &Value) -> (r: String)
    ensures
        r@ == value_text(*v),
{
    match v {
        Value::Serial(n) => dec_string(*n),
        Value::Integer(x) => int_string(*x),
        Value::Text(s) => s.clone(),
        Value::UuidV4(s) => s.clone(),
    }
}

/// The header text of one column: its name, with `(PK)` appended on the
/// primary-key column.
pub open spec fn header_text(c: Column) -> Seq<char> {
    if c.primary_key {
        c.column_name@ + "(PK)"@
    } else {
        c.column_name@
    }
}

/// The length of the longest rendered value among `vals`.
pub open spec fn max_val_width(vals: Seq<Value>) -> int
    decreases vals.len(),
{
    if vals.len() == 0 {
        0
    } else {
        let rest = max_val_width(vals.drop_last());
        let last = value_text(vals.last()).len() as int;
        if last > rest {
            last
        } else {
            rest
        }
    }
}

/// The printed width of a column: the larger of its header's length and
/// the length of its longest rendered value.
pub open spec fn col_width(c: Column) -> int {
    let h = header_text(c).len() as int;
    let m = max_val_width(c.data@);
    if h > m {
        h
    } else {
        m
    }
}

proof fn lemma_max_val_width_nonneg(vals: Seq<Value>)
    ensures
        max_val_width(vals) >= 0,
    decreases vals.len(),
{
    if vals.len() > 0 {
        lemma_max_val_width_nonneg(vals.drop_last());
    }
}

proof fn lemma_max_val_width_ge(vals: Seq<Value>, i: int)
    requires
        0 <= i < vals.len(),
    ensures
        value_text(vals[i]).len() <= max_val_width(vals),
    decreases vals.len(),
{
    if i < vals.len() - 1 {
        lemma_max_val_width_ge(vals.drop_last(), i);
    }
}

/// The title line above the table.
pub open spec fn title_line(t: Table) -> Seq<char> {
    "@---TABLE: "@ + t.table_name@ + " --\n"@
}

/// One header cell: the padded header text between pipe borders.
pub open spec fn header_cell(t: Table, j: int) -> Seq<char> {
    "| "@ + pad_to(header_text(t.columns@[j]), col_width(t.columns@[j])) + " "@
}

/// The first `j` header cells.
pub open spec fn header_cells(t: Table, j: int) -> Seq<char>
    decreases j,
{
    if j <= 0 {
        Seq::empty()
    } else {
        header_cells(t, j - 1) + header_cell(t, j - 1)
    }
}

/// The header row.
pub open spec fn header_line(t: Table) -> Seq<char> {
    header_cells(t, t.columns@.len() as int) + "|\n"@
}

/// One separator cell: dashes spanning the column's width plus the two
/// padding blanks.
pub open spec fn sep_cell(t: Table, j: int) -> Seq<char> {
    "|"@ + dashes(col_width(t.columns@[j]) + 2)
}

/// The first `j` separator cells.
pub open spec fn sep_cells(t: Table, j: int) -> Seq<char>
    decreases j,
{
    if j <= 0 {
        Seq::empty()
    } else {
        sep_cells(t, j - 1) + sep_cell(t, j - 1)
    }
}

/// The separator row.
pub open spec fn sep_line(t: Table) -> Seq<char> {
    sep_cells(t, t.columns@.len() as int) + "|\n"@
}

/// One data cell: the padded value of column `j` in row `r`.
pub open spec fn row_cell(t: Table, r: int, j: int) -> Seq<char> {
    "| "@ + pad_to(value_text(t.columns@[j].data@[r]), col_width(t.columns@[j])) + " "@
}

/// The first `j` cells of row `r`.
pub open spec fn row_cells(t: Table, r: int, j: int) -> Seq<char>
    decreases j,
{
    if j <= 0 {
        Seq::empty()
    } else {
        row_cells(t, r, j - 1) + row_cell(t, r, j - 1)
    }
}

/// Row `r` as one printed line.
pub open spec fn row_line(t: Table, r: int) -> Seq<char> {
    row_cells(t, r, t.columns@.len() as int) + "|\n"@
}

/// The first `r` printed rows.
pub open spec fn row_lines(t: Table, r: int) -> Seq<char>
    decreases r,
{
    if r <= 0 {
        Seq::empty()
    } else {
        row_lines(t, r - 1) + row_line(t, r - 1)
    }
}

/// The full rendering: title, header, separator, then every row in order.
pub open spec fn render_spec(t: Table) -> Seq<char> {
    title_line(t) + header_line(t) + sep_line(t) + row_lines(t, t.spec_row_count() as int)
}

fn append_spaces(out: &mut String, k: usize)
    ensures
        final(out)@ == old(out)@ + spaces(k as int),
{
    let mut i: usize = 0;
    proof {
        assert(out@ =~= old(out)@ + spaces(0));
    }
    while i < k
        invariant
            0 <= i <= k,
            out@ == old(out)@ + spaces(i as int),
        decreases k - i,
    {
        out.append(" ");
        proof {
            reveal_strlit(" ");
            assert(" "@ =~= seq![' ']);
            assert(out@ =~= old(out)@ + spaces(i + 1));
        }
        i += 1;
    }
}

fn append_dashes(out: &mut String, k: usize)
    ensures
        final(out)@ == old(out)@ + dashes(k as int),
{
    let mut i: usize = 0;
    proof {
        assert(out@ =~= old(out)@ + dashes(0));
    }
    while i < k
        invariant
            0 <= i <= k,
            out@ == old(out)@ + dashes(i as int),
        decreases k - i,
    {
        out.append("-");
        proof {
            reveal_strlit("-");
            assert("-"@ =~= seq!['-']);
            assert(out@ =~= old(out)@ + dashes(i + 1));
        }
        i += 1;
    }
}

impl Table {
    /// Render the table as plain text: the title line, the header row
    /// with a `(PK)` marker on the primary-key column, a separator row,
    /// then one line per record in row order, every cell left-aligned to
    /// its column's width between pipe borders.
    pub fn render(&self) -> (r: String)
        requires
            self.wf(),
            forall|j: int|
                0 <= j < self.columns@.len() ==> col_width(#[trigger] self.columns@[j]) + 2
                    <= usize::MAX,
        ensures
            r@ == render_spec(*self),
    {
        let n = self.columns.len();
        let mut widths: Vec<usize> = Vec::new();
        let mut jw: usize = 0;
        while jw < n
            invariant
                0 <= jw <= n,
                n == self.columns@.len(),
                widths@.len() == jw,
                forall|k: int| 0 <= k < jw ==> widths@[k] == col_width(self.columns@[k]),
                self.wf(),
                forall|j: int|
                    0 <= j < self.columns@.len() ==> col_width(#[trigger] self.columns@[j]) + 2
                        <= usize::MAX,
            decreases n - jw,
        {
            let c = &self.columns[jw];
            proof {
                reveal_strlit("(PK)");
                lemma_max_val_width_nonneg(c.data@);
            }
            let mut h = c.column_name.as_str().unicode_len();
            if c.primary_key {
                proof {
                    assert(col_width(self.columns@[jw as int]) + 2 <= usize::MAX);
                    assert(header_text(*c).len() == c.column_name@.len() + 4);
                    assert(col_width(*c) >= header_text(*c).len());
                }
                h = h + 4;
            }
            proof {
                assert(h == header_text(*c).len());
            }
            let mut w = h;
            let rows = c.data.len();
            let mut r: usize = 0;
            while r < rows
                invariant
                    0 <= r <= rows,
                    rows == c.data@.len(),
                    h == header_text(*c).len(),
                    w as int == {
                        let m = max_val_width(c.data@.take(r as int));
                        if h > m {
                            h as int
                        } else {
                            m
                        }
                    },
                decreases rows - r,
            {
                let vt = value_string(&c.data[r]);
                let vl = vt.as_str().unicode_len();
                if vl > w {
                    w = vl;
                }
                proof {
                    assert(c.data@.take(r + 1).drop_last() =~= c.data@.take(r as int));
                    assert(c.data@.take(r + 1).last() == c.data@[r as int]);
                }
                r += 1;
            }
            proof {
                assert(c.data@.take(rows as int) =~= c.data@);
                assert(w as int == col_width(*c));
            }
            widths.push(w);
            jw += 1;
        }
        let mut out = String::new();
        out.append("@---TABLE: ");
        out.append(self.table_name.as_str());
        out.append(" --\n");
        proof {
            assert(out@ =~= title_line(*self));
        }
        let mut j: usize = 0;
        while j < n
            invariant
                0 <= j <= n,
                n == self.columns@.len(),
                widths@.len() == n,
                forall|k: int| 0 <= k < n ==> widths@[k] == col_width(self.columns@[k]),
                self.wf(),
                forall|j2: int|
                    0 <= j2 < self.columns@.len() ==> col_width(#[trigger] self.columns@[j2]) + 2
                        <= usize::MAX,
                out@ == title_line(*self) + header_cells(*self, j as int),
            decreases n - j,
        {
            out.append("| ");
            let c = &self.columns[j];
            proof {
                reveal_strlit("(PK)");
                lemma_max_val_width_nonneg(c.data@);
                assert(col_width(self.columns@[j as int]) + 2 <= usize::MAX);
                assert(col_width(*c) >= header_text(*c).len());
            }
            out.append(c.column_name.as_str());
            let mut h = c.column_name.as_str().unicode_len();
            if c.primary_key {
                proof {
                    assert(header_text(*c).len() == c.column_name@.len() + 4);
                }
                out.append("(PK)");
                h = h + 4;
            }
            proof {
                assert(h == header_text(*c).len());
            }
            let pad: usize = widths[j] - h;
            append_spaces(&mut out, pad);
            out.append(" ");
            proof {
                assert(out@ =~= title_line(*self) + header_cells(*self, j + 1));
            }
            j += 1;
        }
        out.append("|\n");
        let ghost pre_sep = title_line(*self) + header_line(*self);
        proof {
            assert(out@ =~= pre_sep);
        }
        let mut js: usize = 0;
        while js < n
            invariant
                0 <= js <= n,
                n == self.columns@.len(),
                widths@.len() == n,
                forall|k: int| 0 <= k < n ==> widths@[k] == col_width(self.columns@[k]),
                self.wf(),
                forall|j2: int|
                    0 <= j2 < self.columns@.len() ==> col_width(#[trigger] self.columns@[j2]) + 2
                        <= usize::MAX,
                pre_sep == title_line(*self) + header_line(*self),
                out@ == pre_sep + sep_cells(*self, js as int),
            decreases n - js,
        {
            out.append("|");
            proof {
                lemma_max_val_width_nonneg(self.columns@[js as int].data@);
            }
            let k: usize = widths[js] + 2;
            append_dashes(&mut out, k);
            proof {
                assert(out@ =~= pre_sep + sep_cells(*self, js + 1));
            }
            js += 1;
        }
        out.append("|\n");
        let ghost pre_rows = pre_sep + sep_line(*self);
        proof {
            assert(out@ =~= pre_rows);
        }
        let rc = self.row_count();
        let mut r: usize = 0;
        while r < rc
            invariant
                0 <= r <= rc,
                n == self.columns@.len(),
                widths@.len() == n,
                forall|k: int| 0 <= k < n ==> widths@[k] == col_width(self.columns@[k]),
                self.wf(),
                rc == self.spec_row_count(),
                pre_rows == title_line(*self) + header_line(*self) + sep_line(*self),
                out@ == pre_rows + row_lines(*self, r as int),
            decreases rc - r,
        {
            let ghost pre_row = out@;
            let mut jr: usize = 0;
            while jr < n
                invariant
                    0 <= jr <= n,
                    n == self.columns@.len(),
                    widths@.len() == n,
                    forall|k: int| 0 <= k < n ==> widths@[k] == col_width(self.columns@[k]),
                    self.wf(),
                    rc == self.spec_row_count(),
                    r < rc,
                    out@ == pre_row + row_cells(*self, r as int, jr as int),
                decreases n - jr,
            {
                out.append("| ");
                let c = &self.columns[jr];
                let vt = value_string(&c.data[r]);
                out.append(vt.as_str());
                let vl = vt.as_str().unicode_len();
                proof {
                    lemma_max_val_width_ge(c.data@, r as int);
                    assert(vl <= col_width(*c));
                }
                let pad: usize = widths[jr] - vl;
                append_spaces(&mut out, pad);
                out.append(" ");
                proof {
                    assert(out@ =~= pre_row + row_cells(*self, r as int, jr + 1));
                }
                jr += 1;
            }
            out.append("|\n");
            proof {
                assert(out@ =~= pre_rows + row_lines(*self, r + 1));
            }
            r += 1;
        }
        proof {
            assert(out@ =~= render_spec(*self));
        }
        out
    }
}

} // verus!
