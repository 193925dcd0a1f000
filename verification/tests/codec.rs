use sha2::{Digest, Sha256};

use tlong::codec::{encode_long_url, generate};
use tlong::validate::valid_short_code;

const ALPHABET: &str = "123456789ABCDEFGHJKLMNPQRSTUVWXYZabcdefghijkmnopqrstuvwxyz";

#[test]
fn generate_is_deterministic() {
    let u = String::from("https://example.com/a");
    let c1 = generate(&u);
    let c2 = generate(&u);
    assert_eq!(c1, c2);
    assert_eq!(c1.len(), 8);
}

#[test]
fn generate_takes_prefix_of_digest_encoding() {
    let u = String::from("https://example.com/a");
    let digest = Sha256::digest(u.as_bytes());
    let full = bs58::encode(digest).into_string();
    assert_eq!(encode_long_url(&u), full);
    assert_eq!(generate(&u), full[0..8]);
}

#[test]
fn generate_differs_for_different_urls() {
    let a = generate(&String::from("https://example.com/a"));
    let b = generate(&String::from("https://example.com/b"));
    assert_ne!(a, b);
}

#[test]
fn generated_code_is_a_valid_short_code() {
    let code = generate(&String::from("https://example.com/a"));
    assert!(valid_short_code(&code));
}

#[test]
fn generated_code_uses_the_alphabet() {
    let code = generate(&String::from("https://example.com/very/long/path?with=query"));
    assert_eq!(code.chars().count(), 8);
    for c in code.chars() {
        assert!(ALPHABET.contains(c));
    }
}

#[test]
fn encode_long_url_of_empty_digest_input() {
    // SHA-256 is defined on the empty string too; its encoding is still
    // at least 32 characters, so a code can always be taken
    let full = encode_long_url(&String::new());
    assert!(full.len() >= 32);
    let digest = Sha256::digest("".as_bytes());
    assert_eq!(full, bs58::encode(digest).into_string());
}
