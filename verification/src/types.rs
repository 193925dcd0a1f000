//! The request and response shapes of the external interface, the service
//! configuration, and the functions that build responses from verified
//! results.

use vstd::prelude::*;
use vstd::string::StringExecFns;

verus! {

/// Body of a shorten request.
pub struct ShortenRequest {
    pub long_url: String,
}

/// Body of a successful shorten response.
pub struct ShortenResponse {
    pub short_code: String,
    pub short_url: String,
    pub long_url: String,
}

/// One record of the listing and detail responses.
pub struct UrlDetailResponse {
    pub short_code: String,
    pub short_url: String,
    pub long_url: String,
    pub created_at: String,
}

/// Service configuration, loaded from the environment at startup.
pub struct Config {
    pub base_url: String,
    pub database_url: String,
    pub redis_url: String,
    pub server_addr: String,
}

/// The absolute short link for a code: the public base URL, a slash, and
/// the code.
pub fn short_url_of(base_url: &str, code: &str) -> (r: String)
    ensures
        r@ == base_url@ + "/"@ + code@,
{
    let mut s = String::from_str(base_url);
    s.append("/");
    s.append(code);
    s
}

/// Build the response of a successful create.
pub fn shorten_response(base_url: &str, short_code: String, long_url: String) -> (r:
    ShortenResponse)
    ensures
        r.short_code@ == short_code@,
        r.short_url@ == base_url@ + "/"@ + short_code@,
        r.long_url@ == long_url@,
{
    let short_url = short_url_of(base_url, short_code.as_str());
    ShortenResponse { short_code, short_url, long_url }
}

/// Build one listing or detail record. The creation time arrives already
/// rendered as text by the caller.
pub fn detail_response(
    base_url: &str,
    short_code: String,
    long_url: String,
    created_at: String,
) -> (r: UrlDetailResponse)
    ensures
        r.short_code@ == short_code@,
        r.short_url@ == base_url@ + "/"@ + short_code@,
        r.long_url@ == long_url@,
        r.created_at@ == created_at@,
{
    let short_url = short_url_of(base_url, short_code.as_str());
    UrlDetailResponse { short_code, short_url, long_url, created_at }
}

/// The health probe's answer: a status and the service version.
pub fn health_check() -> (r: (String, String))
    ensures
        r.0@ == "ok"@,
        r.1@ == "1.0.0"@,
{
    (String::from_str("ok"), String::from_str("1.0.0"))
}

} // verus!
