//! Short-code derivation: a SHA-256 digest of the long URL's UTF-8 bytes is
//! encoded with the Bitcoin base-58 alphabet, and the first eight characters
//! of the encoding become the short code.

use vstd::prelude::*;
use vstd::string::StrSliceExecFns;
use vstd::string::StringExecFns;
use vstd::utf8::encode_utf8;

use sha2::{Digest, Sha256};

verus! {

/// Number of characters in a short code.
pub const CODE_LEN: usize = 8;

/// The Bitcoin base-58 alphabet: the digits `1`-`9`, the upper-case letters
/// without `I` and `O`, and the lower-case letters without `l`.
pub open spec fn is_base58_char(c: char) -> bool {
    ||| ('1' as u32) <= (c as u32) <= ('9' as u32)
    ||| ('A' as u32) <= (c as u32) <= ('Z' as u32) && c != 'I' && c != 'O'
    ||| ('a' as u32) <= (c as u32) <= ('z' as u32) && c != 'l'
}

/// The SHA-256 digest of a byte string.
pub uninterp spec fn sha256_of(data: Seq<u8>) -> Seq<u8>;

/// The base-58 rendering of a byte string under the Bitcoin alphabet.
pub uninterp spec fn base58_of(data: Seq<u8>) -> Seq<char>;

/// Relies on `sha2::Sha256`: the digest is a function of the input bytes
/// alone, and SHA-256 output is always 32 bytes.
#[verifier::external_body]
fn sha256_digest(data: &[u8]) -> (r: Vec<u8>)
    ensures
        r@ == sha256_of(data@),
        r@.len() == 32,
{
    Sha256::digest(data).to_vec()
}

/// Relies on `bs58::encode` with its default (Bitcoin) alphabet: the
/// encoding is a function of the input bytes alone, and every character of
/// it comes from that alphabet. It is never shorter than the input (each
/// base-58 digit carries less information than a byte: a value occupying
/// `n` bytes needs at least `n` digits, and each leading zero byte becomes
/// exactly one `1` character), and never longer than the buffer the crate
/// itself sizes for it, `n + (n + 1) / 2` characters.
#[verifier::external_body]
fn base58_encode(data: &[u8]) -> (r: String)
    ensures
        r@ == base58_of(data@),
        r@.len() >= data@.len(),
        r@.len() <= data@.len() + (data@.len() + 1) / 2,
        forall|i: int| 0 <= i < r@.len() ==> is_base58_char(#[trigger] r@[i]),
{
    bs58::encode(data).into_string()
}

/// The full base-58 encoding of the SHA-256 digest of a URL's UTF-8 bytes.
pub open spec fn full_encoding_of(url: Seq<char>) -> Seq<char> {
    base58_of(sha256_of(encode_utf8(url)))
}

/// The short code derived from a long URL: the first eight characters of
/// the full encoding.
pub open spec fn code_of(url: Seq<char>) -> Seq<char> {
    full_encoding_of(url).take(CODE_LEN as int)
}

/// The shape every short code this system mints has: exactly eight
/// characters, all from the base-58 alphabet.
pub open spec fn valid_code(s: Seq<char>) -> bool {
    &&& s.len() == CODE_LEN
    &&& forall|i: int| 0 <= i < s.len() ==> is_base58_char(#[trigger] s[i])
}

/// Base-58 encoding of the SHA-256 digest of the URL, untruncated: between
/// 32 and 48 characters, all from the alphabet.
pub fn encode_long_url(url: &String) -> (r: String)
    ensures
        r@ == full_encoding_of(url@),
        32 <= r@.len() <= 48,
        forall|i: int| 0 <= i < r@.len() ==> is_base58_char(#[trigger] r@[i]),
{
    let digest = sha256_digest(url.as_str().as_bytes());
    base58_encode(digest.as_slice())
}

/// Derive the short code for a long URL. Deterministic and pure: the result
/// is a function of the URL alone, is always eight characters long, and
/// uses only the base-58 alphabet.
pub fn generate(long_url: &String) -> (code: String)
    ensures
        code@ == code_of(long_url@),
        valid_code(code@),
{
    let full = encode_long_url(long_url);
    let prefix = full.as_str().substring_char(0, CODE_LEN);
    assert(prefix@ == code_of(long_url@));
    assert(valid_code(prefix@)) by {
        assert(forall|i: int| 0 <= i < prefix@.len() ==> is_base58_char(#[trigger] prefix@[i]))
            by {
            assert(forall|i: int| 0 <= i < prefix@.len() ==> prefix@[i] == full@[i]);
        }
    }
    String::from_str(prefix)
}

} // verus!
