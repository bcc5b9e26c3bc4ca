use roxy::decimal::{decimal_text, parse_u32};
use roxy::digest::{generate_token, hash_password};
use roxy::text::text_eq;

#[test]
fn decimal_text_writes_plain_digits() {
    assert_eq!(decimal_text(0), "0");
    assert_eq!(decimal_text(7), "7");
    assert_eq!(decimal_text(10), "10");
    assert_eq!(decimal_text(10_000_001), "10000001");
    assert_eq!(decimal_text(u32::MAX as u128), "4294967295");
    assert_eq!(decimal_text(u128::MAX), u128::MAX.to_string());
}

#[test]
fn parse_u32_accepts_what_std_accepts() {
    assert_eq!(parse_u32("123"), Some(123));
    assert_eq!(parse_u32("0"), Some(0));
    assert_eq!(parse_u32("007"), Some(7));
    assert_eq!(parse_u32("+42"), Some(42));
    assert_eq!(parse_u32("4294967295"), Some(u32::MAX));
    assert_eq!(parse_u32("10000001"), Some(10_000_001));
}

#[test]
fn parse_u32_rejects_what_std_rejects() {
    for text in ["", "+", "-1", "-0", "4294967296", "99999999999", "12a", "a12", " 1", "1 ", "++1", "1.0", "\u{663}", "\u{ff11}"] {
        assert_eq!(parse_u32(text), None, "{text:?}");
        assert!(text.parse::<u32>().is_err(), "{text:?}");
    }
}

#[test]
fn parse_u32_agrees_with_std_on_samples() {
    for text in ["1", "+0", "00000000000000000004294967295", "4294967295", "4294967296", "+4294967296", "18446744073709551616"] {
        assert_eq!(parse_u32(text), text.parse::<u32>().ok(), "{text:?}");
    }
}

#[test]
fn decimal_text_reads_back() {
    for n in [0u32, 1, 9, 10, 99, 100, 10_000_001, 4_000_000_000, u32::MAX] {
        assert_eq!(parse_u32(&decimal_text(n as u128)), Some(n));
    }
}

#[test]
fn text_eq_compares_characters() {
    assert!(text_eq("POST", "POST"));
    assert!(!text_eq("POST", "post"));
    assert!(!text_eq("POST", "POS"));
    assert!(text_eq("", ""));
    assert!(text_eq("пароль", "пароль"));
    assert!(!text_eq("пароль", "пароль!"));
}

#[test]
fn hash_password_is_hex_sha256() {
    assert_eq!(hash_password("password"), "5e884898da28047151d0e56f8dc6292773603d0d6aabbdd62a11ef721d1542d8");
    assert_eq!(hash_password(""), "e3b0c44298fc1c149afbf4c8996fb92427ae41e4649b934ca495991b7852b855");
    assert_eq!(hash_password("пароль"), "2dbc574daca52689a24fb60e835f8c19a36400830df7350859dd32d1abaaec5d");
}

#[test]
fn token_hashes_uid_username_and_time() {
    let token = generate_token(10_000_001, "alice", 1_700_000_000_000_000_000);
    assert_eq!(token, "a293950057f79d6e75a844e619c2f58c376d88a85755d516adbafc34c7116089");
    assert_eq!(token.len(), 64);
    assert_ne!(token, generate_token(10_000_001, "alice", 1_700_000_000_000_000_001));
    assert_ne!(token, generate_token(10_000_002, "alice", 1_700_000_000_000_000_000));
}

#[test]
fn digests_are_64_lowercase_hex_digits() {
    for text in ["", "password", "пароль", "a much longer password than usual, with spaces"] {
        let hash = hash_password(text);
        assert_eq!(hash.len(), 64);
        assert!(hash.chars().all(|c| c.is_ascii_digit() || ('a'..='f').contains(&c)));
    }
    let token = generate_token(u32::MAX, "пользователь", u128::MAX);
    assert_eq!(token.len(), 64);
    assert!(token.chars().all(|c| c.is_ascii_digit() || ('a'..='f').contains(&c)));
}
