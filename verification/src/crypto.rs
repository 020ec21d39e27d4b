//! Hex text, SHA-256 digests and HMAC-SHA256 tags.

use vstd::prelude::*;
use hmac::Mac;
use sha2::Digest as _;

verus! {

/// The lowercase hex digit of a nibble `0..16`.
pub open spec fn hex_digit(n: int) -> char {
    if n < 10 {
        (48 + n) as char
    } else {
        (87 + n) as char
    }
}

/// The lowercase hex text of `bytes`: two digits per byte, high nibble first.
pub open spec fn hex_text(bytes: Seq<u8>) -> Seq<char> {
    Seq::new(
        2 * bytes.len(),
        |i: int|
            if i % 2 == 0 {
                hex_digit(bytes[i / 2] as int / 16)
            } else {
                hex_digit(bytes[i / 2] as int % 16)
            },
    )
}

/// Whether `c` is an ASCII hex digit in either case.
pub open spec fn is_hex_byte(c: u8) -> bool {
    (48 <= c <= 57) || (97 <= c <= 102) || (65 <= c <= 70)
}

/// The value of an ASCII hex digit.
pub open spec fn hex_byte_value(c: u8) -> int {
    if 48 <= c <= 57 {
        c - 48
    } else if 97 <= c <= 102 {
        c - 87
    } else {
        c - 55
    }
}

/// What hex decoding yields for the bytes of a text: `None` for an odd length or a byte
/// that is not a hex digit, else one byte per digit pair.
pub open spec fn hex_decoded(text: Seq<u8>) -> Option<Seq<u8>> {
    if text.len() % 2 == 0 && forall|i: int| 0 <= i < text.len() ==> is_hex_byte(#[trigger] text[i]) {
        Some(
            Seq::new(
                text.len() / 2,
                |i: int| (hex_byte_value(text[2 * i]) * 16 + hex_byte_value(text[2 * i + 1])) as u8,
            ),
        )
    } else {
        None
    }
}

/// The HMAC-SHA256 tag of `message` under `key`.
pub uninterp spec fn hmac_sha256_tag(key: Seq<u8>, message: Seq<u8>) -> Seq<u8>;

/// The SHA-256 hash of `bytes`.
pub uninterp spec fn sha256_hash(bytes: Seq<u8>) -> Seq<u8>;

/// Lowercase hex text of `bytes` (`hex::encode`).
#[verifier::external_body]
pub(crate) fn hex_encode(bytes: &[u8]) -> (r: String)
    ensures
        r@ == hex_text(bytes@),
{
    hex::encode(bytes)
}

/// Decode hex text given as bytes (`hex::decode`); both cases are accepted, an odd
/// length or any non-hex byte is refused.
#[verifier::external_body]
pub(crate) fn hex_decode(text: &[u8]) -> (r: Option<Vec<u8>>)
    ensures
        match r {
            Some(v) => hex_decoded(text@) == Some(v@),
            None => hex_decoded(text@) is None,
        },
{
    match hex::decode(text) {
        Ok(bytes) => Some(bytes),
        Err(_) => None,
    }
}

/// The HMAC-SHA256 tag of `message` under `key` (`Hmac::<Sha256>::new_from_slice`,
/// `update`, `finalize`). HMAC accepts a key of any length, so the key is never
/// refused; the tag is 32 bytes.
#[verifier::external_body]
pub(crate) fn hmac_sha256(key: &[u8], message: &[u8]) -> (tag: Vec<u8>)
    ensures
        tag@ == hmac_sha256_tag(key@, message@),
        tag@.len() == 32,
{
    match <hmac::Hmac<sha2::Sha256> as Mac>::new_from_slice(key) {
        Ok(mut mac) => {
            mac.update(message);
            mac.finalize().into_bytes().to_vec()
        },
        Err(_) => Vec::new(),
    }
}

/// Whether `expected` is the HMAC-SHA256 tag of `message` under `key`, compared in
/// constant time (`Mac::verify_slice`); a tag of another length never verifies.
#[verifier::external_body]
pub(crate) fn hmac_sha256_verify(key: &[u8], message: &[u8], expected: &[u8]) -> (ok: bool)
    ensures
        ok == (expected@ == hmac_sha256_tag(key@, message@)),
{
    match <hmac::Hmac<sha2::Sha256> as Mac>::new_from_slice(key) {
        Ok(mut mac) => {
            mac.update(message);
            mac.verify_slice(expected).is_ok()
        },
        Err(_) => false,
    }
}

/// The SHA-256 hash of `bytes` (`sha2::Sha256::digest`); 32 bytes.
#[verifier::external_body]
pub(crate) fn sha256(bytes: &[u8]) -> (r: Vec<u8>)
    ensures
        r@ == sha256_hash(bytes@),
        r@.len() == 32,
{
    sha2::Sha256::digest(bytes).to_vec()
}

/// A content digest: the lowercase hex SHA-256 of some bytes, or a stored digest text.
#[derive(Debug, Clone, PartialEq, Eq, Hash)]
pub struct Digest(String);

impl View for Digest {
    type V = Seq<char>;

    closed spec fn view(&self) -> Seq<char> {
        self.0@
    }
}

impl Digest {
    /// The digest of `bytes`.
    pub fn of(bytes: &[u8]) -> (r: Digest)
        ensures
            r@ == hex_text(sha256_hash(bytes@)),
    {
        let hash = sha256(bytes);
        Digest(hex_encode(hash.as_slice()))
    }

    /// A digest read back from storage.
    pub fn new(value: String) -> (r: Digest)
        ensures
            r@ == value@,
    {
        Digest(value)
    }

    /// The digest text.
    pub fn as_str(&self) -> (s: &str)
        ensures
            s@ == self@,
    {
        self.0.as_str()
    }

    /// Whether two digests are the same text.
    pub fn same(&self, other: &Digest) -> (r: bool)
        ensures
            r == (self@ == other@),
    {
        self.0 == other.0
    }
}

/// Hex decoding the UTF-8 bytes of the lowercase hex text of `bytes` gives `bytes` back.
pub proof fn lemma_hex_round_trip(bytes: Seq<u8>)
    ensures
        hex_decoded(vstd::utf8::encode_utf8(hex_text(bytes))) == Some(bytes),
{
    let chars = hex_text(bytes);
    assert forall|i: int| 0 <= i < chars.len() implies '\0' <= #[trigger] chars[i] <= '\u{7f}' by {
        lemma_hex_digit_byte(if i % 2 == 0 { bytes[i / 2] as int / 16 } else { bytes[i / 2] as int % 16 });
    }
    assert(vstd::utf8::is_ascii_chars(chars));
    vstd::utf8::is_ascii_chars_encode_utf8(chars);
    assert(vstd::utf8::encode_utf8(chars) =~= hex_ascii_bytes(bytes));
    let text = hex_ascii_bytes(bytes);
    assert forall|i: int| 0 <= i < text.len() implies is_hex_byte(#[trigger] text[i]) by {
        lemma_hex_digit_byte(if i % 2 == 0 { bytes[i / 2] as int / 16 } else { bytes[i / 2] as int % 16 });
    }
    let decoded = Seq::new(
        text.len() / 2,
        |i: int| (hex_byte_value(text[2 * i]) * 16 + hex_byte_value(text[2 * i + 1])) as u8,
    );
    assert forall|i: int| 0 <= i < bytes.len() implies decoded[i] == bytes[i] by {
        let b = bytes[i] as int;
        lemma_hex_digit_byte(b / 16);
        lemma_hex_digit_byte(b % 16);
        assert((2 * i) / 2 == i);
        assert((2 * i + 1) / 2 == i);
        assert((2 * i) % 2 == 0);
        assert((2 * i + 1) % 2 == 1);
        assert(b == (b / 16) * 16 + b % 16);
    }
    assert(decoded =~= bytes);
}

/// The ASCII bytes of the lowercase hex text of `bytes`.
pub open spec fn hex_ascii_bytes(bytes: Seq<u8>) -> Seq<u8> {
    Seq::new(hex_text(bytes).len(), |i: int| hex_text(bytes)[i] as u8)
}

/// A hex digit of a nibble is an ASCII hex byte of that value.
proof fn lemma_hex_digit_byte(n: int)
    requires
        0 <= n < 16,
    ensures
        is_hex_byte(hex_digit(n) as u8),
        hex_byte_value(hex_digit(n) as u8) == n,
        (hex_digit(n) as int) < 128,
{
}

} // verus!
