//! Text helpers: string equality over character views, and parsing of
//! signed decimal integer literals for `add_row_simple`.

use vstd::prelude::*;
use crate::types::TableError;

verus! {

/// Character-for-character string equality.
pub fn str_eq(a: &str, b: &str) -> (r: bool)
    ensures
        r == (a@ == b@),
{
    let n = a.unicode_len();
    if n != b.unicode_len() {
        proof {
            assert(a@.len() != b@.len());
        }
        return false;
    }
    let mut i: usize = 0;
    while i < n
        invariant
            0 <= i <= n,
            n == a@.len(),
            n == b@.len(),
            forall|j: int| 0 <= j < i ==> a@[j] == b@[j],
        decreases n - i,
    {
        if a.get_char(i) != b.get_char(i) {
            return false;
        }
        i += 1;
    }
    proof {
        assert(a@ =~= b@);
    }
    true
}

/// True of a decimal digit character.
pub open spec fn is_digit(c: char) -> bool {
    ('0' as u32) <= (c as u32) && (c as u32) <= ('9' as u32)
}

/// The numeric value of a digit character.
pub open spec fn digit_val(c: char) -> int {
    (c as u32) - ('0' as u32)
}

/// True when every character of `s` is a decimal digit.
pub open spec fn all_digits(s: Seq<char>) -> bool {
    forall|i: int| 0 <= i < s.len() ==> is_digit(#[trigger] s[i])
}

/// The value of a digit string read most-significant first.
pub open spec fn digits_val(s: Seq<char>) -> int
    decreases s.len(),
{
    if s.len() == 0 {
        0
    } else {
        digits_val(s.drop_last()) * 10 + digit_val(s.last())
    }
}

/// The digit part of an integer literal: what follows an optional sign.
pub open spec fn int_literal_digits(s: Seq<char>) -> Seq<char> {
    if s.len() > 0 && (s[0] == '+' || s[0] == '-') {
        s.subrange(1, s.len() as int)
    } else {
        s
    }
}

/// A signed decimal integer literal: an optional `+` or `-` sign followed
/// by one or more decimal digits.
pub open spec fn is_int_literal(s: Seq<char>) -> bool {
    int_literal_digits(s).len() > 0 && all_digits(int_literal_digits(s))
}

/// The mathematical value of an integer literal.
pub open spec fn int_literal_val(s: Seq<char>) -> int {
    if s.len() > 0 && s[0] == '-' {
        -digits_val(int_literal_digits(s))
    } else {
        digits_val(int_literal_digits(s))
    }
}

/// True when `s` is an integer literal whose value fits in `i64`.
pub open spec fn parses_to_i64(s: Seq<char>) -> bool {
    is_int_literal(s) && i64::MIN <= int_literal_val(s) <= i64::MAX
}

proof fn lemma_digits_val_nonneg(s: Seq<char>)
    requires
        all_digits(s),
    ensures
        digits_val(s) >= 0,
    decreases s.len(),
{
    if s.len() > 0 {
        lemma_digits_val_nonneg(s.drop_last());
    }
}

/// The value of a digit string is at least the value of any of its
/// prefixes: appending digits never shrinks the value.
proof fn lemma_digits_val_prefix_le(s: Seq<char>, i: int)
    requires
        0 <= i <= s.len(),
        all_digits(s),
    ensures
        digits_val(s.take(i)) <= digits_val(s),
    decreases s.len() - i,
{
    if i < s.len() {
        assert(s.take(i + 1).drop_last() =~= s.take(i));
        assert(s.take(i + 1).last() == s[i]);
        assert(all_digits(s.take(i)));
        lemma_digits_val_nonneg(s.take(i));
        assert(digits_val(s.take(i + 1)) == digits_val(s.take(i)) * 10 + digit_val(s[i]));
        lemma_digits_val_prefix_le(s, i + 1);
    } else {
        assert(s.take(i) =~= s);
    }
}

/// Parse a signed decimal integer literal.  Returns the parsed value
/// exactly when `s` is an integer literal whose value fits in `i64`, and
/// `InvalidIntegerLiteral` otherwise.
pub fn parse_i64(s: &str) -> (r: Result<i64, TableError>)
    ensures
        match r {
            Ok(v) => parses_to_i64(s@) && v == int_literal_val(s@),
            Err(e) => e == TableError::InvalidIntegerLiteral && !parses_to_i64(s@),
        },
{
    let n = s.unicode_len();
    if n == 0 {
        return Err(TableError::InvalidIntegerLiteral);
    }
    let c0 = s.get_char(0);
    let neg = c0 == '-';
    let has_sign = neg || c0 == '+';
    let start: usize = if has_sign {
        1
    } else {
        0
    };
    proof {
        assert(int_literal_digits(s@) =~= s@.subrange(start as int, n as int));
    }
    if start == n {
        return Err(TableError::InvalidIntegerLiteral);
    }
    let ghost digits: Seq<char> = s@.subrange(start as int, n as int);
    let bound: u128 = 9223372036854775808;
    let mut acc: u128 = 0;
    let mut i: usize = start;
    while i < n
        invariant
            start <= i <= n,
            n == s@.len(),
            start < n,
            digits =~= s@.subrange(start as int, n as int),
            int_literal_digits(s@) == digits,
            all_digits(s@.subrange(start as int, i as int)),
            acc == digits_val(s@.subrange(start as int, i as int)),
            acc <= 9223372036854775808,
            bound == 9223372036854775808,
        decreases n - i,
    {
        let c = s.get_char(i);
        let u = c as u32;
        if u < 48 || u > 57 {
            proof {
                assert(digits[i - start] == s@[i as int]);
                assert(!is_digit(digits[i - start]));
            }
            return Err(TableError::InvalidIntegerLiteral);
        }
        let d: u128 = (u - 48) as u128;
        acc = acc * 10 + d;
        i += 1;
        proof {
            assert(s@.subrange(start as int, i as int).drop_last() =~= s@.subrange(
                start as int,
                i - 1,
            ));
            assert(s@.subrange(start as int, i as int).last() == c);
        }
        if acc > bound {
            proof {
                if all_digits(digits) {
                    assert(s@.subrange(start as int, i as int) =~= digits.take(i - start));
                    lemma_digits_val_prefix_le(digits, i - start);
                }
            }
            return Err(TableError::InvalidIntegerLiteral);
        }
    }
    proof {
        assert(s@.subrange(start as int, n as int) =~= digits);
    }
    if neg {
        if acc == bound {
            proof {
                assert(int_literal_val(s@) == -9223372036854775808);
            }
            Ok(i64::MIN)
        } else {
            Ok(-(acc as i64))
        }
    } else {
        if acc == bound {
            proof {
                assert(s@[0] != '-');
                assert(int_literal_val(s@) > i64::MAX);
            }
            Err(TableError::InvalidIntegerLiteral)
        } else {
            Ok(acc as i64)
        }
    }
}

} // verus!
