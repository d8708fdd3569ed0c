//! Privacy hasher: salts and one-way hashes a client address so that clicks
//! can be tracked without storing the raw address.

use sha2::Digest;
use vstd::prelude::*;

verus! {

/// The lowercase hexadecimal SHA-256 digest of the salt followed by the
/// data. The digest is a function of the two strings alone: equal inputs
/// give equal output.
pub uninterp spec fn sha256_hex(salt: Seq<char>, data: Seq<char>) -> Seq<char>;

/// Whether a character is a lowercase hexadecimal digit.
pub open spec fn is_hex_char(c: char) -> bool {
    ('0' <= c && c <= '9') || ('a' <= c && c <= 'f')
}

/// The process-wide salt mixed into every tracking hash.
pub open spec fn process_salt() -> Seq<char> {
    "TT_HASH_SALT"@
}

/// Relies on sha2::Sha256 (new, update, finalize) and hex::encode: the
/// SHA-256 digest of the salt's bytes followed by the data's bytes is 32
/// bytes, determined by those bytes alone, and hex::encode renders each
/// byte as two lowercase hexadecimal digits.
#[verifier::external_body]
pub fn hash_with_salt(salt: &str, data: &str) -> (r: String)
    ensures
        r@ == sha256_hex(salt@, data@),
        r@.len() == 64,
        forall|i: int| 0 <= i < r@.len() ==> is_hex_char(#[trigger] r@[i]),
{
    let mut hasher = sha2::Sha256::new();
    hasher.update(salt);
    hasher.update(data);
    let digest = hasher.finalize();
    hex::encode(digest)
}

/// The hash is deterministic: equal salt and data give an equal digest,
/// whatever the inputs' lengths.
pub proof fn lemma_hash_deterministic(
    salt1: Seq<char>,
    data1: Seq<char>,
    salt2: Seq<char>,
    data2: Seq<char>,
)
    requires
        salt1 == salt2,
        data1 == data2,
    ensures
        sha256_hex(salt1, data1) == sha256_hex(salt2, data2),
{
}

/// Hashes the given data with the process-wide salt.
pub fn hash_with_env_salt(data: &str) -> (r: String)
    ensures
        r@ == sha256_hex(process_salt(), data@),
        r@.len() == 64,
        forall|i: int| 0 <= i < r@.len() ==> is_hex_char(#[trigger] r@[i]),
{
    hash_with_salt("TT_HASH_SALT", data)
}

} // verus!
