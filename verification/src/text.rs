//! Small string-building helpers: appending a single character and
//! rendering integers in decimal, with exact specifications.

use vstd::prelude::*;
use vstd::string::StringExecFns;

verus! {

/// Relies on String::push: appends exactly one character to the string.
#[verifier::external_body]
pub fn push_char(s: &mut String, c: char)
    ensures
        final(s)@ == old(s)@ + seq![c],
{
    s.push(c);
}

/// The character for a single decimal digit.
pub open spec fn dec_digit(d: int) -> char {
    ((('0' as u8) + d) as u8) as char
}

/// Decimal rendering of a non-negative integer, most significant digit first.
pub open spec fn dec_str(n: int) -> Seq<char>
    decreases n,
{
    if n <= 0 {
        seq![dec_digit(0)]
    } else if n < 10 {
        seq![dec_digit(n)]
    } else {
        dec_str(n / 10) + seq![dec_digit(n % 10)]
    }
}

/// Decimal rendering of an integer: a minus sign for negative values,
/// then the digits of the magnitude.
pub open spec fn dec_str_signed(n: int) -> Seq<char> {
    if n < 0 {
        seq!['-'] + dec_str(-n)
    } else {
        dec_str(n)
    }
}

/// Renders an unsigned integer in decimal.
pub fn u64_to_dec_string(n: u64) -> (r: String)
    ensures
        r@ == dec_str(n as int),
{
    let mut m = n;
    let mut r = String::new();
    if m == 0 {
        push_char(&mut r, '0');
        proof {
            assert(dec_digit(0) == '0');
        }
        return r;
    }
    while m > 0
        invariant
            n > 0,
            m > 0 ==> dec_str(n as int) == dec_str(m as int) + r@,
            m == 0 ==> dec_str(n as int) == r@,
        decreases m,
    {
        let d = (m % 10) as u8;
        m = m / 10;
        let c = ('0' as u8 + d) as char;
        let mut s = String::new();
        push_char(&mut s, c);
        s.append(r.as_str());
        r = s;
        proof {
            assert(c == dec_digit(d as int));
        }
    }
    r
}

/// Renders a signed integer in decimal.
pub fn i64_to_dec_string(n: i64) -> (r: String)
    ensures
        r@ == dec_str_signed(n as int),
{
    if n >= 0 {
        u64_to_dec_string(n as u64)
    } else {
        let magnitude = (-(n as i128)) as u64;
        let digits = u64_to_dec_string(magnitude);
        let mut r = String::new();
        push_char(&mut r, '-');
        r.append(digits.as_str());
        r
    }
}

} // verus!
