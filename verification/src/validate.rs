//! Validation of externally supplied input: long URLs must parse as
//! absolute URLs, and short codes must have exactly the shape the code
//! generator mints. Both checks are pure and run before anything touches
//! storage.

use vstd::prelude::*;
use vstd::string::StrSliceExecFns;

use crate::codec::{is_base58_char, valid_code, CODE_LEN};

verus! {

/// Whether a string parses as a syntactically valid absolute URL that has
/// an authority component. Scheme and authority are both required: a
/// path-only or cannot-be-a-base URL (`unix:/run/foo.socket`,
/// `data:text/plain,Stuff`, `mailto:user@example.com`) is not a long URL
/// this service shortens.
pub uninterp spec fn url_ok(s: Seq<char>) -> bool;

/// Relies on `url::Url::parse` and `url::Url::has_authority`: parsing
/// accepts exactly the syntactically valid absolute URLs of the URL
/// standard's grammar, and `has_authority` tells the ones with an authority
/// component from the path-only and cannot-be-a-base forms. Both are pure
/// functions of the input, with no network access.
#[verifier::external_body]
pub fn valid_url(url: &str) -> (r: bool)
    ensures
        r == url_ok(url@),
{
    match url::Url::parse(url) {
        Ok(parsed) => parsed.has_authority(),
        Err(_) => false,
    }
}

/// Relies on `bs58::decode` with its default (Bitcoin) alphabet: decoding
/// succeeds exactly when every character of the input is one of the 58
/// alphabet characters (any other ASCII character and any byte of a
/// multi-byte character is rejected).
#[verifier::external_body]
fn base58_decodes(s: &str) -> (r: bool)
    ensures
        r == forall|i: int| 0 <= i < s@.len() ==> is_base58_char(#[trigger] s@[i]),
{
    bs58::decode(s).into_vec().is_ok()
}

/// Whether an externally supplied path segment can possibly be a short code
/// this system minted: exactly eight characters, all from the base-58
/// alphabet.
pub fn valid_short_code(short_code: &str) -> (r: bool)
    ensures
        r == valid_code(short_code@),
{
    if short_code.unicode_len() != CODE_LEN {
        return false;
    }
    base58_decodes(short_code)
}

} // verus!
