//! Base-62 codec: a reversible mapping between non-negative integer
//! identifiers and short alphanumeric codes.
//!
//! The alphabet is the 26 lowercase letters, then the 26 uppercase letters,
//! then the 10 digits; index 0 is `'a'`. Encoding is ordinary base
//! conversion, most significant digit first, and `encode_base62(0)` is the
//! empty string.

use vstd::prelude::*;
use vstd::string::StringExecFns;

use crate::text::push_char;

verus! {

/// The character standing at an index of the base-62 alphabet.
pub open spec fn alphabet_char(i: int) -> char {
    if 0 <= i < 26 {
        ((('a' as u8) + i) as u8) as char
    } else if 26 <= i < 52 {
        ((('A' as u8) + (i - 26)) as u8) as char
    } else if 52 <= i < 62 {
        ((('0' as u8) + (i - 52)) as u8) as char
    } else {
        ' '
    }
}

/// The alphabet index of a character, or -1 if the character is not in the
/// alphabet.
pub open spec fn char_value(c: char) -> int {
    if 'a' <= c && c <= 'z' {
        c as int - 'a' as int
    } else if 'A' <= c && c <= 'Z' {
        26 + c as int - 'A' as int
    } else if '0' <= c && c <= '9' {
        52 + c as int - '0' as int
    } else {
        -1
    }
}

/// Whether a character belongs to the base-62 alphabet.
pub open spec fn is_base62_char(c: char) -> bool {
    char_value(c) >= 0
}

/// The base-62 representation of a non-negative integer, most significant
/// digit first; 0 is represented by the empty sequence.
pub open spec fn encode62(n: nat) -> Seq<char>
    decreases n,
{
    if n == 0 {
        Seq::empty()
    } else {
        encode62(n / 62) + seq![alphabet_char((n % 62) as int)]
    }
}

/// The integer a sequence of alphabet characters stands for.
pub open spec fn decode62(s: Seq<char>) -> int
    decreases s.len(),
{
    if s.len() == 0 {
        0
    } else {
        decode62(s.drop_last()) * 62 + char_value(s.last())
    }
}

/// Looking a digit up in the alphabet and taking its value are inverse.
pub proof fn lemma_char_value_of_alphabet(d: int)
    requires
        0 <= d < 62,
    ensures
        char_value(alphabet_char(d)) == d,
        is_base62_char(alphabet_char(d)),
{
}

/// Every character of an encoding belongs to the alphabet.
pub proof fn lemma_encode62_chars(n: nat)
    ensures
        forall|i: int| 0 <= i < encode62(n).len() ==> is_base62_char(#[trigger] encode62(n)[i]),
    decreases n,
{
    if n != 0 {
        lemma_encode62_chars(n / 62);
        lemma_char_value_of_alphabet((n % 62) as int);
        let s = encode62(n);
        let p = encode62(n / 62);
        assert(forall|i: int| 0 <= i < p.len() ==> s[i] == p[i]);
        assert(s[s.len() - 1] == alphabet_char((n % 62) as int));
    }
}

/// Decoding inverts encoding.
pub proof fn lemma_decode62_of_encode62(n: nat)
    ensures
        decode62(encode62(n)) == n,
    decreases n,
{
    if n != 0 {
        lemma_decode62_of_encode62(n / 62);
        lemma_char_value_of_alphabet((n % 62) as int);
        let s = encode62(n);
        assert(s.drop_last() =~= encode62(n / 62));
        assert(s.last() == alphabet_char((n % 62) as int));
    }
}

/// The encoding is the shortest representation: a positive identifier's
/// code is non-empty and never starts with the zero digit.
pub proof fn lemma_encode62_shortest(n: nat)
    requires
        n > 0,
    ensures
        encode62(n).len() > 0,
        encode62(n)[0] != alphabet_char(0),
    decreases n,
{
    if n < 62 {
        assert(encode62(0) =~= Seq::<char>::empty());
        assert(encode62(n) =~= encode62(0) + seq![alphabet_char(n as int)]);
        assert(encode62(n)[0] == alphabet_char(n as int));
        lemma_char_value_of_alphabet(n as int);
        lemma_char_value_of_alphabet(0);
    } else {
        lemma_encode62_shortest(n / 62);
        assert(encode62(n)[0] == encode62(n / 62)[0]);
    }
}

/// Encoding is injective: distinct identifiers get distinct codes.
pub proof fn lemma_encode62_injective(n1: nat, n2: nat)
    requires
        n1 != n2,
    ensures
        encode62(n1) != encode62(n2),
{
    lemma_decode62_of_encode62(n1);
    lemma_decode62_of_encode62(n2);
}

/// The exec character for an alphabet index.
pub(crate) fn alphabet_char_at(i: u8) -> (c: char)
    requires
        i < 62,
    ensures
        c == alphabet_char(i as int),
{
    let b: u8 = if i < 26 {
        'a' as u8 + i
    } else if i < 52 {
        'A' as u8 + (i - 26)
    } else {
        '0' as u8 + (i - 52)
    };
    b as char
}

/// Encodes an identifier as its shortest base-62 representation; 0 encodes
/// to the empty string.
pub fn encode_base62(number: u64) -> (r: String)
    ensures
        r@ == encode62(number as nat),
{
    let mut n = number;
    let mut r = String::new();
    while n > 0
        invariant
            encode62(number as nat) == encode62(n as nat) + r@,
        decreases n,
    {
        let d = (n % 62) as u8;
        let ghost prev = n as nat;
        n = n / 62;
        let c = alphabet_char_at(d);
        let mut s = String::new();
        push_char(&mut s, c);
        s.append(r.as_str());
        proof {
            assert(encode62(prev) =~= encode62(prev / 62) + seq![alphabet_char((prev % 62) as int)]);
            assert(encode62(n as nat) + s@ =~= encode62(prev) + r@);
        }
        r = s;
    }
    proof {
        assert(encode62(number as nat) =~= encode62(0) + r@);
        assert(encode62(number as nat) =~= r@);
    }
    r
}

/// The exec alphabet index of a character, or 255 for one outside the
/// alphabet.
fn char_value_at(c: char) -> (v: u8)
    ensures
        is_base62_char(c) ==> v == char_value(c),
        !is_base62_char(c) ==> v == 255,
{
    if 'a' <= c && c <= 'z' {
        c as u8 - 'a' as u8
    } else if 'A' <= c && c <= 'Z' {
        26 + (c as u8 - 'A' as u8)
    } else if '0' <= c && c <= '9' {
        52 + (c as u8 - '0' as u8)
    } else {
        255
    }
}

/// A longer prefix of a valid code never stands for a smaller integer.
proof fn lemma_decode62_prefix_le(s: Seq<char>, i: int)
    requires
        0 <= i <= s.len(),
        forall|j: int| 0 <= j < s.len() ==> is_base62_char(#[trigger] s[j]),
    ensures
        decode62(s.take(i)) <= decode62(s),
        decode62(s) >= 0,
    decreases s.len() - i,
{
    if i == s.len() {
        assert(s.take(i) =~= s);
        lemma_decode62_nonneg(s);
    } else {
        lemma_decode62_prefix_le(s, i + 1);
        let t = s.take(i + 1);
        assert(t.drop_last() =~= s.take(i));
        assert(t.last() == s[i]);
        lemma_decode62_nonneg(s.take(i));
    }
}

/// A sequence of alphabet characters stands for a non-negative integer.
proof fn lemma_decode62_nonneg(s: Seq<char>)
    requires
        forall|j: int| 0 <= j < s.len() ==> is_base62_char(#[trigger] s[j]),
    ensures
        decode62(s) >= 0,
    decreases s.len(),
{
    if s.len() > 0 {
        assert(forall|j: int| 0 <= j < s.drop_last().len() ==> is_base62_char(
            #[trigger] s.drop_last()[j],
        ));
        lemma_decode62_nonneg(s.drop_last());
    }
}

/// Decodes a base-62 code back to the integer it stands for: `None` when
/// some character is outside the alphabet or the value does not fit in
/// `u64`. The empty string decodes to 0.
pub fn decode_base62(code: &str) -> (r: Option<u64>)
    ensures
        match r {
            Some(n) => {
                &&& forall|j: int| 0 <= j < code@.len() ==> is_base62_char(#[trigger] code@[j])
                &&& n == decode62(code@)
            },
            None => {
                (exists|j: int| 0 <= j < code@.len() && !is_base62_char(#[trigger] code@[j]))
                    || decode62(code@) > u64::MAX
            },
        },
{
    let len = code.unicode_len();
    let mut acc: u64 = 0;
    let mut i: usize = 0;
    while i < len
        invariant
            0 <= i <= len,
            len == code@.len(),
            forall|j: int| 0 <= j < i ==> is_base62_char(#[trigger] code@[j]),
            acc == decode62(code@.take(i as int)),
        decreases len - i,
    {
        let c = code.get_char(i);
        let v = char_value_at(c);
        if v == 255 {
            return None;
        }
        let next = match acc.checked_mul(62) {
            Some(m) => m.checked_add(v as u64),
            None => None,
        };
        match next {
            Some(m) => {
                proof {
                    let t = code@.take(i + 1);
                    assert(t.drop_last() =~= code@.take(i as int));
                    assert(t.last() == code@[i as int]);
                }
                acc = m;
            },
            None => {
                proof {
                    let t = code@.take(i + 1);
                    assert(t.drop_last() =~= code@.take(i as int));
                    assert(t.last() == code@[i as int]);
                    assert(decode62(t) > u64::MAX);
                    if forall|j: int| 0 <= j < code@.len() ==> is_base62_char(
                        #[trigger] code@[j],
                    ) {
                        lemma_decode62_prefix_le(code@, i + 1);
                    }
                }
                return None;
            },
        }
        i = i + 1;
    }
    proof {
        assert(code@.take(len as int) =~= code@);
    }
    Some(acc)
}

} // verus!
