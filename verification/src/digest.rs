//! Password and session-token digests: SHA-256 written as lowercase hex.
use sha2::{Digest, Sha256};
use vstd::prelude::*;
use vstd::string::*;
use vstd::utf8::*;
use crate::decimal::{decimal, decimal_text, digit_char};

verus! {

/// The SHA-256 digest of a byte string.
pub uninterp spec fn sha256(data: Seq<u8>) -> Seq<u8>;

/// `sha2::Sha256::digest`: the digest of `data`, which is 32 bytes long.
#[verifier::external_body]
fn sha256_digest(data: &[u8]) -> (d: Vec<u8>)
    ensures
        d@ == sha256(data@),
        d@.len() == 32,
{
    Sha256::digest(data).to_vec()
}

/// The lowercase hex digit of a value below sixteen.
pub open spec fn hex_digit(v: nat) -> char {
    if v < 10 {
        digit_char(v)
    } else if v == 10 {
        'a'
    } else if v == 11 {
        'b'
    } else if v == 12 {
        'c'
    } else if v == 13 {
        'd'
    } else if v == 14 {
        'e'
    } else {
        'f'
    }
}

/// Each byte as two lowercase hex digits, high nibble first.
pub open spec fn hex_lower(bytes: Seq<u8>) -> Seq<char>
    decreases bytes.len(),
{
    if bytes.len() == 0 {
        Seq::empty()
    } else {
        hex_lower(bytes.drop_last()) + seq![
            hex_digit((bytes.last() / 16) as nat),
            hex_digit((bytes.last() % 16) as nat),
        ]
    }
}

/// A lowercase hex digit: `0`-`9` or `a`-`f`.
pub open spec fn is_lower_hex_digit(c: char) -> bool {
    ('0' <= c && c <= '9') || ('a' <= c && c <= 'f')
}

/// Text of `len` lowercase hex digits.
pub open spec fn is_lower_hex_text(t: Seq<char>, len: nat) -> bool {
    t.len() == len && forall|i: int| 0 <= i < t.len() ==> is_lower_hex_digit(#[trigger] t[i])
}

/// The hex text of `n` bytes is `2 * n` lowercase hex digits.
pub proof fn lemma_hex_lower_shape(bytes: Seq<u8>)
    ensures
        is_lower_hex_text(hex_lower(bytes), 2 * bytes.len()),
    decreases bytes.len(),
{
    if bytes.len() > 0 {
        let rest = bytes.drop_last();
        lemma_hex_lower_shape(rest);
        let hi = (bytes.last() / 16) as nat;
        let lo = (bytes.last() % 16) as nat;
        let t = hex_lower(bytes);
        let r = hex_lower(rest);
        assert(t == r + seq![hex_digit(hi), hex_digit(lo)]);
        assert(is_lower_hex_digit(hex_digit(hi)) && is_lower_hex_digit(hex_digit(lo)));
        assert forall|i: int| 0 <= i < t.len() implies is_lower_hex_digit(#[trigger] t[i]) by {
            if i < r.len() {
                assert(t[i] == r[i]);
            }
        }
    }
}

/// The value of a lowercase hex digit.
pub open spec fn hex_value(c: char) -> int {
    if '0' <= c && c <= '9' {
        c as int - '0' as int
    } else {
        c as int - 'a' as int + 10
    }
}

proof fn lemma_hex_digit_value(v: nat)
    requires
        v < 16,
    ensures
        hex_value(hex_digit(v)) == v,
{
}

/// The hex text reads back as the bytes it was made from: digits `2i` and `2i + 1` are
/// the high and low nibble of byte `i`.
pub proof fn lemma_hex_lower_decodes(bytes: Seq<u8>)
    ensures
        hex_lower(bytes).len() == 2 * bytes.len(),
        forall|i: int|
            0 <= i < bytes.len() ==> hex_value(#[trigger] hex_lower(bytes)[2 * i]) * 16 + hex_value(
                hex_lower(bytes)[2 * i + 1],
            ) == bytes[i] as int,
    decreases bytes.len(),
{
    lemma_hex_lower_shape(bytes);
    if bytes.len() > 0 {
        let rest = bytes.drop_last();
        lemma_hex_lower_decodes(rest);
        let b = bytes.last();
        let hi = (b / 16) as nat;
        let lo = (b % 16) as nat;
        lemma_hex_digit_value(hi);
        lemma_hex_digit_value(lo);
        let t = hex_lower(bytes);
        let r = hex_lower(rest);
        assert(t == r + seq![hex_digit(hi), hex_digit(lo)]);
        assert(hi * 16 + lo == b as int);
        assert forall|i: int| 0 <= i < bytes.len() implies hex_value(#[trigger] t[2 * i]) * 16
            + hex_value(t[2 * i + 1]) == bytes[i] as int by {
            if i < rest.len() {
                assert(t[2 * i] == r[2 * i]);
                assert(t[2 * i + 1] == r[2 * i + 1]);
                assert(rest[i] == bytes[i]);
                assert(hex_value(r[2 * i]) * 16 + hex_value(r[2 * i + 1]) == rest[i] as int);
            } else {
                assert(t[2 * i] == hex_digit(hi));
                assert(t[2 * i + 1] == hex_digit(lo));
            }
        }
    }
}

/// `hex::encode`: each byte as two lowercase hex digits, high nibble first.
#[verifier::external_body]
fn hex_encode(bytes: &[u8]) -> (s: String)
    ensures
        s@ == hex_lower(bytes@),
{
    hex::encode(bytes)
}

/// The stored form of a password: SHA-256 of its UTF-8 bytes, in lowercase hex.
pub open spec fn password_digest(password: Seq<char>) -> Seq<char> {
    hex_lower(sha256(encode_utf8(password)))
}

/// A session token: SHA-256 of the decimal uid, the username and the decimal
/// timestamp (nanoseconds since the Unix epoch), one after the other, in lowercase hex.
pub open spec fn token_digest(uid: u32, username: Seq<char>, timestamp_nanos: u128) -> Seq<char> {
    hex_lower(
        sha256(
            encode_utf8(decimal(uid as nat) + username + decimal(timestamp_nanos as nat)),
        ),
    )
}

/// Hashes a password for storage.
pub fn hash_password(password: &str) -> (h: String)
    ensures
        h@ == password_digest(password@),
        is_lower_hex_text(h@, 64),
{
    let digest = sha256_digest(password.as_bytes());
    proof { lemma_hex_lower_shape(digest@); }
    hex_encode(digest.as_slice())
}

/// The session token of an account created at `timestamp_nanos`.
pub fn generate_token(uid: u32, username: &str, timestamp_nanos: u128) -> (t: String)
    ensures
        t@ == token_digest(uid, username@, timestamp_nanos),
        is_lower_hex_text(t@, 64),
{
    let mut text = decimal_text(uid as u128);
    text.append(username);
    let stamp = decimal_text(timestamp_nanos);
    text.append(stamp.as_str());
    let digest = sha256_digest(text.as_str().as_bytes());
    proof { lemma_hex_lower_shape(digest@); }
    hex_encode(digest.as_slice())
}

} // verus!
