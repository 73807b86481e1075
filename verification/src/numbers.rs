//! Base-10 integer parsing and rendering over character sequences.

use vstd::prelude::*;

verus! {

/// A decimal digit character.
pub open spec fn is_digit(c: char) -> bool {
    '0' <= c && c <= '9'
}

/// Numeric value of a digit character.
pub open spec fn digit_value(c: char) -> int {
    c as int - '0' as int
}

pub open spec fn all_digits(s: Seq<char>) -> bool {
    forall|i: int| 0 <= i < s.len() ==> is_digit(#[trigger] s[i])
}

/// Value of a digit string read in base 10 (0 for the empty string).
pub open spec fn digits_value(s: Seq<char>) -> int
    decreases s.len(),
{
    if s.len() == 0 {
        0
    } else {
        digits_value(s.drop_last()) * 10 + digit_value(s.last())
    }
}

/// Base-10 signed integer syntax: an optional leading '-', then at least one digit.
pub open spec fn is_int_syntax(s: Seq<char>) -> bool {
    if s.len() > 0 && s[0] == '-' {
        s.len() >= 2 && all_digits(s.skip(1))
    } else {
        s.len() >= 1 && all_digits(s)
    }
}

/// Value denoted by a string of integer syntax.
pub open spec fn int_value(s: Seq<char>) -> int
    recommends
        is_int_syntax(s),
{
    if s.len() > 0 && s[0] == '-' {
        -digits_value(s.skip(1))
    } else {
        digits_value(s)
    }
}

/// Whether a string of integer syntax denotes a value that fits in an `i32`.
pub open spec fn fits_i32(s: Seq<char>) -> bool {
    &&& is_int_syntax(s)
    &&& i32::MIN <= int_value(s) <= i32::MAX
}

pub proof fn lemma_digits_value_nonneg(s: Seq<char>)
    requires
        all_digits(s),
    ensures
        digits_value(s) >= 0,
    decreases s.len(),
{
    if s.len() > 0 {
        assert(all_digits(s.drop_last()));
        lemma_digits_value_nonneg(s.drop_last());
    }
}

/// A digit string is worth at least as much as any of its prefixes.
pub proof fn lemma_digits_value_prefix_le(s: Seq<char>, i: int)
    requires
        all_digits(s),
        0 <= i <= s.len(),
    ensures
        digits_value(s.take(i)) <= digits_value(s),
    decreases s.len() - i,
{
    if i < s.len() {
        lemma_digits_value_prefix_le(s, i + 1);
        assert(s.take(i + 1).drop_last() =~= s.take(i));
        assert(s.take(i + 1).last() == s[i]);
        assert(all_digits(s.take(i)));
        lemma_digits_value_nonneg(s.take(i));
        assert(digits_value(s.take(i + 1)) == digits_value(s.take(i)) * 10 + digit_value(s[i]));
        assert(digits_value(s.take(i)) * 10 >= digits_value(s.take(i))) by (nonlinear_arith)
            requires digits_value(s.take(i)) >= 0;
    } else {
        assert(s.take(i) =~= s);
    }
}

/// Parse a signed base-10 integer: an optional leading '-', then at least one
/// digit. Returns `None` exactly when the text is not of that syntax or its
/// value does not fit in an `i32`.
pub fn parse_i32(s: &[char]) -> (r: Option<i32>)
    ensures
        r is Some <==> fits_i32(s@),
        r is Some ==> r->0 as int == int_value(s@),
{
    let n = s.len();
    let neg = n > 0 && s[0] == '-';
    let start: usize = if neg { 1 } else { 0 };
    if n == start {
        return None;
    }
    let mut acc: i64 = 0;
    let mut i: usize = start;
    let ghost digits = s@.skip(start as int);
    while i < n
        invariant
            start <= i <= n,
            n == s@.len(),
            neg <==> (n > 0 && s@[0] == '-'),
            start == (if neg { 1usize } else { 0usize }),
            digits == s@.skip(start as int),
            all_digits(s@.subrange(start as int, i as int)),
            acc == digits_value(s@.subrange(start as int, i as int)),
            0 <= acc <= 2147483648,
        decreases n - i,
    {
        let c = s[i];
        if !('0' <= c && c <= '9') {
            proof {
                // The text can only be of integer syntax if every character
                // after the sign is a digit, and this one is not.
                if is_int_syntax(s@) {
                    if neg {
                        assert(s@.skip(1)[i - 1] == s@[i as int]);
                    } else {
                        assert(s@.skip(0) =~= s@);
                        assert(is_digit(s@[i as int]));
                    }
                }
            }
            return None;
        }
        let d = (c as u32 - '0' as u32) as i64;
        proof {
            assert(s@.subrange(start as int, i as int + 1).drop_last()
                =~= s@.subrange(start as int, i as int));
            assert(s@.subrange(start as int, i as int + 1).last() == s@[i as int]);
        }
        acc = acc * 10 + d;
        i = i + 1;
        if acc > 2147483648 {
            proof {
                // Every longer digit prefix is worth at least this much, so the
                // full value cannot fit in an i32 whatever follows.
                if is_int_syntax(s@) {
                    if !neg {
                        assert(s@.skip(0) =~= s@);
                    }
                    assert(all_digits(digits));
                    assert(s@.subrange(start as int, i as int) =~= digits.take(i - start));
                    lemma_digits_value_prefix_le(digits, i - start);
                    assert(digits_value(digits) >= acc);
                }
            }
            return None;
        }
    }
    proof {
        assert(s@.subrange(start as int, n as int) =~= digits);
        assert(all_digits(digits));
        if neg {
            assert(is_int_syntax(s@));
            assert(int_value(s@) == -acc);
        } else {
            assert(s@.skip(0) =~= s@);
            assert(is_int_syntax(s@));
            assert(int_value(s@) == acc);
        }
    }
    if neg {
        Some((-acc) as i32)
    } else {
        if acc > 2147483647 {
            return None;
        }
        Some(acc as i32)
    }
}

/// The digit character for a value below ten.
pub open spec fn spec_digit_char(d: int) -> char {
    if d == 0 { '0' }
    else if d == 1 { '1' }
    else if d == 2 { '2' }
    else if d == 3 { '3' }
    else if d == 4 { '4' }
    else if d == 5 { '5' }
    else if d == 6 { '6' }
    else if d == 7 { '7' }
    else if d == 8 { '8' }
    else { '9' }
}

/// Decimal digits of a non-negative number, most significant first.
pub open spec fn dec_digits(n: int) -> Seq<char>
    recommends
        n >= 0,
    decreases n,
{
    if n < 10 {
        seq![spec_digit_char(n)]
    } else {
        dec_digits(n / 10) + seq![spec_digit_char(n % 10)]
    }
}

/// Decimal rendering of a signed number, with a leading '-' when negative.
pub open spec fn int_chars(n: int) -> Seq<char> {
    if n < 0 {
        seq!['-'] + dec_digits(-n)
    } else {
        dec_digits(n)
    }
}

fn digit_char(d: u64) -> (c: char)
    requires
        d < 10,
    ensures
        c == spec_digit_char(d as int),
{
    if d == 0 { '0' }
    else if d == 1 { '1' }
    else if d == 2 { '2' }
    else if d == 3 { '3' }
    else if d == 4 { '4' }
    else if d == 5 { '5' }
    else if d == 6 { '6' }
    else if d == 7 { '7' }
    else if d == 8 { '8' }
    else { '9' }
}

/// Render a signed number in decimal.
pub fn i64_to_chars(n: i64) -> (v: Vec<char>)
    ensures
        v@ == int_chars(n as int),
{
    let neg = n < 0;
    let mut m: u64 = if neg { (-(n as i128)) as u64 } else { n as u64 };
    let ghost m0 = m;
    let mut out: Vec<char> = Vec::new();
    while m >= 10
        invariant
            m >= 1 ==> dec_digits(m0 as int) == dec_digits(m as int) + out@,
            m0 >= 1 ==> m >= 1,
            m0 == 0 ==> m == 0 && out@ =~= Seq::<char>::empty(),
            m <= m0,
        decreases m,
    {
        let d = m % 10;
        proof {
            assert(dec_digits(m as int) == dec_digits(m as int / 10) + seq![spec_digit_char(m as int % 10)]);
        }
        out.insert(0, digit_char(d));
        m = m / 10;
        proof {
            assert(dec_digits(m0 as int) =~= dec_digits(m as int) + out@);
        }
    }
    out.insert(0, digit_char(m));
    proof {
        if m0 >= 1 {
            assert(dec_digits(m as int) == seq![spec_digit_char(m as int)]);
            assert(out@ =~= dec_digits(m0 as int));
        } else {
            assert(out@ =~= dec_digits(0));
        }
        if neg {
            assert(m0 as int == -(n as int));
        } else {
            assert(m0 as int == n as int);
        }
    }
    if neg {
        out.insert(0, '-');
        proof {
            assert(out@ =~= seq!['-'] + dec_digits(m0 as int));
        }
    }
    out
}

} // verus!
