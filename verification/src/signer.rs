//! The keyed digest of a message, as lower-case hexadecimal text.

use crate::mailbox::MailboxError;
use hmac::Mac;
use vstd::prelude::*;
use vstd::string::StringSliceAdditionalSpecFns;

verus! {

/// The HMAC-SHA256 tag of `message` under `key`.
pub uninterp spec fn hmac_sha256(key: Seq<u8>, message: Seq<u8>) -> Seq<u8>;

/// The sixteen lower-case hexadecimal digits, by value.
pub open spec fn hex_digits() -> Seq<char> {
    seq!['0', '1', '2', '3', '4', '5', '6', '7', '8', '9', 'a', 'b', 'c', 'd', 'e', 'f']
}

/// Whether `c` is one of `0-9` or `a-f`.
pub open spec fn is_lower_hex(c: char) -> bool {
    ('0' <= c && c <= '9') || ('a' <= c && c <= 'f')
}

/// Two lower-case hexadecimal digits for each byte, the high half first.
pub open spec fn hex_text(bytes: Seq<u8>) -> Seq<char> {
    Seq::new(
        2 * bytes.len(),
        |i: int|
            if i % 2 == 0 {
                hex_digits()[bytes[i / 2] as int / 16]
            } else {
                hex_digits()[bytes[i / 2] as int % 16]
            },
    )
}

/// The signature of `message` under `key`: the hexadecimal text of the
/// HMAC-SHA256 tag of the message's UTF-8 bytes.
pub open spec fn signature_text(key: Seq<u8>, message: Seq<char>) -> Seq<char> {
    hex_text(hmac_sha256(key, vstd::utf8::encode_utf8(message)))
}

/// Calls `Hmac::<Sha256>::new_from_slice`, `update` and `finalize` of the hmac
/// crate. Trusted: the tag is the one function of key and message that the
/// contracts call `hmac_sha256`, it has 32 bytes, and a key of any length is
/// accepted, so the result is never `None`.
#[verifier::external_body]
fn hmac_sha256_tag(key: &[u8], message: &[u8]) -> (tag: Option<Vec<u8>>)
    ensures
        tag is Some,
        tag.unwrap()@ == hmac_sha256(key@, message@),
        tag.unwrap()@.len() == 32,
{
    match hmac::Hmac::<sha2::Sha256>::new_from_slice(key) {
        Ok(mut mac) => {
            mac.update(message);
            Some(mac.finalize().into_bytes().to_vec())
        },
        Err(_) => None,
    }
}

/// Calls `hex::encode`. Trusted: each byte becomes two lower-case hexadecimal
/// digits, the high half first.
#[verifier::external_body]
fn hex_encode(bytes: &[u8]) -> (text: String)
    ensures
        text@ == hex_text(bytes@),
{
    hex::encode(bytes)
}

/// Hexadecimal text has two characters for each byte, each of them a
/// lower-case hexadecimal digit.
pub proof fn lemma_hex_text_shape(bytes: Seq<u8>)
    ensures
        hex_text(bytes).len() == 2 * bytes.len(),
        forall|i: int| 0 <= i < hex_text(bytes).len() ==> is_lower_hex(#[trigger] hex_text(bytes)[i]),
{
    assert forall|i: int| 0 <= i < hex_text(bytes).len() implies is_lower_hex(
        #[trigger] hex_text(bytes)[i],
    ) by {
        let b = bytes[i / 2] as int;
        assert(0 <= b / 16 < 16);
        assert(0 <= b % 16 < 16);
        assert forall|d: int| 0 <= d < 16 implies is_lower_hex(#[trigger] hex_digits()[d]) by {
            if d == 0 {
            } else if d == 1 {
            } else if d == 2 {
            } else if d == 3 {
            } else if d == 4 {
            } else if d == 5 {
            } else if d == 6 {
            } else if d == 7 {
            } else if d == 8 {
            } else if d == 9 {
            } else if d == 10 {
            } else if d == 11 {
            } else if d == 12 {
            } else if d == 13 {
            } else if d == 14 {
            } else {
            }
        }
    }
}

/// Signs `message` under `secret_key`.
///
/// The result is always `Ok`: a key of any length is accepted. It is 64
/// lower-case hexadecimal digits.
pub fn sign(secret_key: &[u8], message: &str) -> (r: Result<String, MailboxError>)
    ensures
        r is Ok,
        r.unwrap()@ == signature_text(secret_key@, message@),
        r.unwrap()@.len() == 64,
        forall|i: int| 0 <= i < 64 ==> is_lower_hex(#[trigger] r.unwrap()@[i]),
{
    match hmac_sha256_tag(secret_key, message.as_bytes()) {
        Some(tag) => {
            proof {
                lemma_hex_text_shape(tag@);
            }
            Ok(hex_encode(tag.as_slice()))
        },
        None => Err(MailboxError::KeyError),
    }
}

/// Equal keys and equal messages have equal signatures.
pub proof fn lemma_sign_deterministic(
    key_a: Seq<u8>,
    message_a: Seq<char>,
    key_b: Seq<u8>,
    message_b: Seq<char>,
)
    requires
        key_a == key_b,
        message_a == message_b,
    ensures
        signature_text(key_a, message_a) == signature_text(key_b, message_b),
{
}

} // verus!
