//! Digests and encodings: SHA-256, base64 and hexadecimal text.

use crate::ident::{big_endian, hex_digit, lemma_hex_digit, uuid_bytes, Uuid};
use base64::Engine;
use sha2::Digest;
use subtle::ConstantTimeEq;
use vstd::prelude::*;
use vstd::utf8::{encode_utf8, is_ascii_chars, is_ascii_chars_encode_utf8};

verus! {

/// The SHA-256 digest of a message, as the `sha2` crate computes it.
pub uninterp spec fn sha256(message: Seq<u8>) -> Seq<u8>;

/// `Sha256::digest`: 32 bytes that depend on the message alone.
#[verifier::external_body]
pub(crate) fn sha256_of(message: &[u8]) -> (digest: Vec<u8>)
    ensures
        digest@ == sha256(message@),
        digest@.len() == 32,
{
    sha2::Sha256::digest(message).to_vec()
}

/// `ConstantTimeEq::ct_eq` on slices of bytes: whether they are equal.
#[verifier::external_body]
pub(crate) fn equal_in_constant_time(a: &[u8], b: &[u8]) -> (r: bool)
    ensures
        r == (a@ == b@),
{
    a.ct_eq(b).into()
}

/// What the `base64` crate decodes from URL-safe text without padding.
pub uninterp spec fn base64url_decoded(text: Seq<char>) -> Option<Seq<u8>>;

/// The URL-safe base64 text without padding that the `base64` crate writes for bytes.
pub uninterp spec fn base64url_encoded(bytes: Seq<u8>) -> Seq<char>;

/// Whether the base64 text of so many bytes, four characters for three bytes, rounded up, can be
/// allocated.
pub open spec fn base64_fits(n: nat) -> bool {
    (4 * n + 2) / 3 <= isize::MAX
}

/// Whether the base64 text of so many bytes can be allocated.
pub fn fits_base64(n: usize) -> (r: bool)
    ensures
        r == base64_fits(n as nat),
{
    (4 * (n as u128) + 2) / 3 <= isize::MAX as u128
}

/// `URL_SAFE_NO_PAD.decode`: the result is a function of the text, and what the same engine encoded
/// decodes to the bytes that went in.
#[verifier::external_body]
pub(crate) fn base64url_decode(text: &str) -> (bytes: Option<Vec<u8>>)
    ensures
        bytes is Some == base64url_decoded(text@) is Some,
        bytes matches Some(b) ==> base64url_decoded(text@) == Some(b@),
        forall|known: Seq<u8>|
            base64_fits(known.len()) && text@ == #[trigger] base64url_encoded(known) ==> bytes is Some
                && bytes->0@ == known,
{
    base64::engine::general_purpose::URL_SAFE_NO_PAD.decode(text).ok()
}

/// `URL_SAFE_NO_PAD.encode`: the result is a function of the bytes, and takes four characters of ASCII
/// for three bytes, rounded up. It panics where such a text cannot be allocated.
#[verifier::external_body]
pub(crate) fn base64url_encode(bytes: &[u8]) -> (text: String)
    requires
        base64_fits(bytes@.len()),
    ensures
        text@ == base64url_encoded(bytes@),
        text@.len() == (4 * bytes@.len() + 2) / 3,
        is_ascii_chars(text@),
{
    base64::engine::general_purpose::URL_SAFE_NO_PAD.encode(bytes)
}

/// A secret text, made from two random identifiers.
pub fn random_text(first: Uuid, second: Uuid) -> (r: String)
    ensures
        r@ == base64url_encoded(big_endian(first) + big_endian(second)),
        r@.len() == 43,
        is_ascii_chars(r@),
{
    let mut bytes: Vec<u8> = uuid_bytes(first);
    let mut rest: Vec<u8> = uuid_bytes(second);
    bytes.append(&mut rest);
    base64url_encode(bytes.as_slice())
}

/// The two lower-case hexadecimal digits of each byte, in order.
pub open spec fn hex(bytes: Seq<u8>) -> Seq<char> {
    Seq::new(
        2 * bytes.len(),
        |i: int|
            if i % 2 == 0 {
                hex_digit(bytes[i / 2] as int / 16)
            } else {
                hex_digit(bytes[i / 2] as int % 16)
            },
    )
}

/// The lower-case hexadecimal digit of a value below sixteen.
pub fn hex_digit_of(value: u8) -> (c: char)
    requires
        value < 16,
    ensures
        c == hex_digit(value as int),
{
    if value < 10 {
        (48 + value) as char
    } else {
        (87 + value) as char
    }
}

/// The bytes in lower-case hexadecimal.
pub fn hex_of(bytes: &[u8]) -> (text: String)
    ensures
        text@ == hex(bytes@),
{
    let mut text = String::new();
    let mut i: usize = 0;
    while i < bytes.len()
        invariant
            i <= bytes@.len(),
            text@ == hex(bytes@.take(i as int)),
        decreases bytes@.len() - i,
    {
        let ghost before = text@;
        text.push(hex_digit_of(bytes[i] / 16));
        text.push(hex_digit_of(bytes[i] % 16));
        assert(text@ == hex(bytes@.take(i + 1))) by {
            assert forall|k: int| 0 <= k < 2 * (i + 1) implies text@[k] == hex(
                bytes@.take(i + 1),
            )[k] by {
                if k < 2 * i {
                    assert(text@[k] == before[k]);
                    assert(bytes@.take(i + 1)[k / 2] == bytes@.take(i as int)[k / 2]);
                }
            }
        }
        i += 1;
    }
    assert(bytes@.take(i as int) == bytes@);
    text
}

/// The value of a hexadecimal digit, in either case.
pub open spec fn digit_value(digit: u8) -> Option<int> {
    if 48 <= digit <= 57 {
        Some(digit - 48)
    } else if 97 <= digit <= 102 {
        Some(digit - 87)
    } else if 65 <= digit <= 70 {
        Some(digit - 55)
    } else {
        None
    }
}

/// The byte that two digits write; in place of the first there may be a plus sign.
pub open spec fn pair_value(first: u8, second: u8) -> Option<int> {
    match (digit_value(first), digit_value(second)) {
        (Some(high), Some(low)) => Some(16 * high + low),
        (None, Some(low)) => if first == 43 {
            Some(low)
        } else {
            None
        },
        _ => None,
    }
}

/// The value of a hexadecimal digit, in either case.
fn value_of_digit(digit: u8) -> (r: Option<u8>)
    ensures
        r is Some == digit_value(digit) is Some,
        r matches Some(v) ==> digit_value(digit) == Some(v as int) && v < 16,
{
    if 48 <= digit && digit <= 57 {
        Some(digit - 48)
    } else if 97 <= digit && digit <= 102 {
        Some(digit - 87)
    } else if 65 <= digit && digit <= 70 {
        Some(digit - 55)
    } else {
        None
    }
}

/// Whether a text writes a SHA-256 digest: 64 bytes, each pair of which is one of the digest's bytes.
pub open spec fn writes_sha256(text: Seq<char>) -> bool {
    let bytes = encode_utf8(text);
    &&& bytes.len() == 64
    &&& forall|i: int|
        0 <= i < 32 ==> (#[trigger] pair_value(bytes[2 * i], bytes[2 * i + 1])) is Some
}

/// The digest that a text writes, in hexadecimal.
pub fn decode_sha256(value: &str) -> (r: Option<[u8; 32]>)
    ensures
        r is Some == writes_sha256(value@),
        r matches Some(digest) ==> forall|i: int|
            0 <= i < 32 ==> pair_value(
                encode_utf8(value@)[2 * i],
                encode_utf8(value@)[2 * i + 1],
            ) == Some((#[trigger] digest@[i]) as int),
{
    let bytes = value.as_bytes();
    if bytes.len() != 64 {
        return None;
    }
    let mut output: [u8; 32] = [0; 32];
    let mut i: usize = 0;
    while i < 32
        invariant
            i <= 32,
            bytes@ == encode_utf8(value@),
            bytes@.len() == 64,
            forall|j: int|
                0 <= j < i ==> (#[trigger] pair_value(bytes@[2 * j], bytes@[2 * j + 1])) == Some(
                    output@[j] as int,
                ),
        decreases 32 - i,
    {
        let first: u8 = bytes[2 * i];
        let second: u8 = bytes[2 * i + 1];
        let ghost pair = pair_value(bytes@[2 * i as int], bytes@[2 * i as int + 1]);
        let low: u8 = match value_of_digit(second) {
            Some(low) => low,
            None => return None,
        };
        let byte: u8 = match value_of_digit(first) {
            Some(high) => 16 * high + low,
            None => {
                if first != 43 {
                    return None;
                }
                low
            },
        };
        assert(pair == Some(byte as int));
        output[i] = byte;
        i += 1;
    }
    Some(output)
}

/// The upper-case hexadecimal digit of a value below sixteen.
pub open spec fn upper_hex_digit(value: int) -> char {
    if value < 10 {
        (48 + value) as char
    } else {
        (55 + value) as char
    }
}

/// The value that the `i`-th hexadecimal digit of bytes has.
pub open spec fn digit_at(bytes: Seq<u8>, i: int) -> int {
    if i % 2 == 0 {
        bytes[i / 2] as int / 16
    } else {
        bytes[i / 2] as int % 16
    }
}

/// Whether a text is bytes in hexadecimal, each digit in either case.
pub open spec fn in_either_case(text: Seq<char>, bytes: Seq<u8>) -> bool {
    &&& text.len() == 2 * bytes.len()
    &&& forall|i: int|
        0 <= i < text.len() ==> (#[trigger] text[i] == hex_digit(digit_at(bytes, i)) || text[i]
            == upper_hex_digit(digit_at(bytes, i)))
}

/// A digest that was written in hexadecimal, in lower or in upper case, reads back as it was.
pub proof fn law_a_written_digest_reads_back(digest: Seq<u8>, text: Seq<char>)
    requires
        digest.len() == 32,
        in_either_case(text, digest),
    ensures
        writes_sha256(text),
        forall|i: int|
            0 <= i < 32 ==> pair_value(encode_utf8(text)[2 * i], encode_utf8(text)[2 * i + 1])
                == Some((#[trigger] digest[i]) as int),
{
    assert forall|i: int| 0 <= i < text.len() implies 0 <= (#[trigger] text[i]) as int <= 127 by {
        lemma_hex_digit(digit_at(digest, i));
    }
    is_ascii_chars_encode_utf8(text);
    let bytes = encode_utf8(text);
    assert forall|i: int| 0 <= i < 32 implies pair_value(bytes[2 * i], bytes[2 * i + 1]) == Some(
        (#[trigger] digest[i]) as int,
    ) by {
        assert(bytes[2 * i] == text[2 * i] as u8);
        assert(bytes[2 * i + 1] == text[2 * i + 1] as u8);
        assert((2 * i) / 2 == i && (2 * i) % 2 == 0);
        assert((2 * i + 1) / 2 == i && (2 * i + 1) % 2 == 1);
    }
    assert forall|i: int| 0 <= i < 32 implies (#[trigger] pair_value(
        bytes[2 * i],
        bytes[2 * i + 1],
    )) is Some by {
        assert(pair_value(bytes[2 * i], bytes[2 * i + 1]) == Some(digest[i] as int));
    }
}

} // verus!
