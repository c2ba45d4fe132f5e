//! Small bridges between `String`/`&str` and `Vec<char>`, plus verified
//! decimal formatting for 64-bit integers.
//!
//! All text manipulation in this crate is done on `Vec<char>`, whose
//! operations vstd specifies completely; `String` appears only at API
//! boundaries.  The three `external_body` wrappers below are the only
//! places where the conversion happens.

use vstd::prelude::*;

verus! {

/// Relies on `str::chars`: iterating a string slice yields exactly the
/// characters of the string, in order.  A verified loop over vstd's
/// `get_char` could prove the same; the wrapper is kept because
/// `get_char` decodes from the front on every call.
#[verifier::external_body]
pub fn str_to_chars(s: &str) -> (v: Vec<char>)
    ensures
        v@ == s@,
{
    s.chars().collect()
}

/// Relies on `FromIterator<char> for String`: collecting characters
/// builds the string with exactly those characters, in order.
#[verifier::external_body]
pub fn chars_to_string(v: &Vec<char>) -> (s: String)
    ensures
        s@ == v@,
{
    v.iter().collect()
}

/// Relies on `PartialEq for str`: string slices compare equal exactly
/// when their character sequences are equal.  A verified `get_char`
/// loop could prove the same; the wrapper is kept on the same cost
/// grounds as [`str_to_chars`].
#[verifier::external_body]
pub fn str_eq(a: &str, b: &str) -> (r: bool)
    ensures
        r == (a@ == b@),
{
    a == b
}

/// The decimal digit character for a value below ten.
pub open spec fn digit_char(d: int) -> char {
    if d == 0 {
        '0'
    } else if d == 1 {
        '1'
    } else if d == 2 {
        '2'
    } else if d == 3 {
        '3'
    } else if d == 4 {
        '4'
    } else if d == 5 {
        '5'
    } else if d == 6 {
        '6'
    } else if d == 7 {
        '7'
    } else if d == 8 {
        '8'
    } else {
        '9'
    }
}

/// Decimal digits of a non-negative integer, most significant first.
pub open spec fn spec_nat_digits(n: int) -> Seq<char>
    decreases n,
{
    if n <= 0 {
        seq![]
    } else {
        spec_nat_digits(n / 10).push(digit_char(n % 10))
    }
}

/// Decimal rendering of an integer, as `{}` formatting prints an `i64`.
pub open spec fn spec_i64_string(i: int) -> Seq<char> {
    if i == 0 {
        seq!['0']
    } else if i < 0 {
        seq!['-'] + spec_nat_digits(-i)
    } else {
        spec_nat_digits(i)
    }
}

/// Decimal rendering of a `usize`, as `{}` formatting prints one.
pub open spec fn spec_usize_string(n: int) -> Seq<char> {
    if n == 0 {
        seq!['0']
    } else {
        spec_nat_digits(n)
    }
}

fn push_nat_digits(out: &mut Vec<char>, n: u64)
    ensures
        final(out)@ == old(out)@ + spec_nat_digits(n as int),
    decreases n,
{
    if n > 0 {
        push_nat_digits(out, n / 10);
        let d: u64 = n % 10;
        let c: char = if d == 0 {
            '0'
        } else if d == 1 {
            '1'
        } else if d == 2 {
            '2'
        } else if d == 3 {
            '3'
        } else if d == 4 {
            '4'
        } else if d == 5 {
            '5'
        } else if d == 6 {
            '6'
        } else if d == 7 {
            '7'
        } else if d == 8 {
            '8'
        } else {
            '9'
        };
        assert(c == digit_char(n as int % 10));
        out.push(c);
        assert(out@ =~= old(out)@ + spec_nat_digits(n as int));
    }
}

/// Appends the decimal form of `i` to `out`.
pub fn push_i64_chars(out: &mut Vec<char>, i: i64)
    ensures
        final(out)@ == old(out)@ + spec_i64_string(i as int),
{
    if i == 0 {
        out.push('0');
        assert(out@ =~= old(out)@ + spec_i64_string(i as int));
    } else if i < 0 {
        out.push('-');
        let neg: i128 = -(i as i128);
        assert(0 <= neg < 0x10000000000000000);
        let m: u64 = neg as u64;
        push_nat_digits(out, m);
        assert(out@ =~= old(out)@ + spec_i64_string(i as int));
    } else {
        push_nat_digits(out, i as u64);
    }
}

/// Appends the decimal form of `n` to `out`.
pub fn push_usize_chars(out: &mut Vec<char>, n: usize)
    ensures
        final(out)@ == old(out)@ + spec_usize_string(n as int),
{
    if n == 0 {
        out.push('0');
        assert(out@ =~= old(out)@ + spec_usize_string(n as int));
    } else {
        push_nat_digits(out, n as u64);
    }
}

/// Appends every character of `s` to `out`.
pub fn push_str_chars(out: &mut Vec<char>, s: &str)
    ensures
        final(out)@ == old(out)@ + s@,
{
    let chars = str_to_chars(s);
    push_chars(out, &chars);
}

/// Appends every character of `v` to `out`.
pub fn push_chars(out: &mut Vec<char>, v: &Vec<char>)
    ensures
        final(out)@ == old(out)@ + v@,
{
    let mut j: usize = 0;
    while j < v.len()
        invariant
            j <= v.len(),
            out@ == old(out)@ + v@.subrange(0, j as int),
        decreases v.len() - j,
    {
        out.push(v[j]);
        j = j + 1;
        assert(out@ =~= old(out)@ + v@.subrange(0, j as int));
    }
    assert(v@.subrange(0, v@.len() as int) =~= v@);
}

/// Whether two character vectors hold the same characters.
pub fn chars_eq(a: &Vec<char>, b: &Vec<char>) -> (r: bool)
    ensures
        r == (a@ == b@),
{
    if a.len() != b.len() {
        return false;
    }
    let mut j: usize = 0;
    while j < a.len()
        invariant
            j <= a.len(),
            a@.len() == b@.len(),
            forall|k: int| 0 <= k < j ==> a@[k] == b@[k],
        decreases a.len() - j,
    {
        if a[j] != b[j] {
            return false;
        }
        j = j + 1;
    }
    assert(a@ =~= b@);
    true
}

/// Whether `v` holds exactly the characters of `s`.
pub fn chars_eq_str(v: &Vec<char>, s: &str) -> (r: bool)
    ensures
        r == (v@ == s@),
{
    let sv = str_to_chars(s);
    chars_eq(v, &sv)
}

} // verus!
