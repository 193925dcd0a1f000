use tlong::validate::{valid_short_code, valid_url};

#[test]
fn short_code_accepts_eight_alphabet_chars() {
    assert!(valid_short_code("abcdefgh"));
    assert!(valid_short_code("11111111"));
    assert!(valid_short_code("2NEpo7Tp"));
    assert!(valid_short_code("ZYXWVUTS"));
}

#[test]
fn short_code_rejects_wrong_length() {
    assert!(!valid_short_code(""));
    assert!(!valid_short_code("abcde"));
    assert!(!valid_short_code("abcdefg"));
    assert!(!valid_short_code("abcdefghi"));
}

#[test]
fn short_code_rejects_chars_outside_alphabet() {
    // 0, O, I and l are not in the base-58 alphabet
    assert!(!valid_short_code("abcdefg0"));
    assert!(!valid_short_code("abcdefgO"));
    assert!(!valid_short_code("abcdefgI"));
    assert!(!valid_short_code("abcdefgl"));
    assert!(!valid_short_code("abcdefg!"));
    assert!(!valid_short_code("abcdefg "));
    assert!(!valid_short_code("abcdef\u{e9}h"));
}

#[test]
fn long_url_accepts_absolute_urls() {
    assert!(valid_url("https://example.com/a"));
    assert!(valid_url("http://0.0.0.0:8080"));
    assert!(valid_url("https://example.com/a/b?q=1#frag"));
}

#[test]
fn long_url_rejects_missing_scheme_or_authority() {
    // no scheme
    assert!(!valid_url(""));
    assert!(!valid_url("example.com"));
    assert!(!valid_url("/relative/path"));
    assert!(!valid_url("www.example.com/a"));
    // a scheme, but no authority: path-only and cannot-be-a-base URLs
    assert!(!valid_url("unix:/run/foo.socket"));
    assert!(!valid_url("data:text/plain,Stuff"));
    assert!(!valid_url("mailto:user@example.com"));
}
