//! Identifiers: 128-bit UUIDs, held as the number that their 16 bytes spell in big-endian order.

use vstd::arithmetic::power2::pow2;
use vstd::prelude::*;

verus! {

/// A UUID as a number.
pub type Uuid = u128;

/// The lower-case hexadecimal digit of a value below sixteen.
pub open spec fn hex_digit(value: int) -> char {
    if value < 10 {
        (48 + value) as char
    } else {
        (87 + value) as char
    }
}

/// The hexadecimal digit of `id` at place `k`, counted from the most significant of the 32.
pub open spec fn uuid_digit(id: Uuid, k: int) -> char {
    hex_digit((id as int) / (pow2((4 * (31 - k)) as nat) as int) % 16)
}

/// Whether a hyphen stands at place `i` of the hyphenated form.
pub open spec fn hyphen_at(i: int) -> bool {
    i == 8 || i == 13 || i == 18 || i == 23
}

/// How many hyphens stand before place `i`.
pub open spec fn hyphens_before(i: int) -> int {
    if i <= 8 {
        0
    } else if i <= 13 {
        1
    } else if i <= 18 {
        2
    } else if i <= 23 {
        3
    } else {
        4
    }
}

/// The hyphenated form of a UUID: 8, 4, 4, 4 and 12 lower-case hexadecimal digits.
pub open spec fn hyphenated(id: Uuid) -> Seq<char> {
    Seq::new(
        36,
        |i: int|
            if hyphen_at(i) {
                '-'
            } else {
                uuid_digit(id, i - hyphens_before(i))
            },
    )
}

/// What `Uuid::parse_str` reads in a string: the UUID in one of the forms that the crate accepts.
pub uninterp spec fn parsed_uuid(text: Seq<char>) -> Option<u128>;

/// `Display` of the crate's `Uuid`: the hyphenated form in lower case.
#[verifier::external_body]
pub(crate) fn format_uuid(id: Uuid) -> (text: String)
    ensures
        text@ == hyphenated(id),
{
    uuid::Uuid::from_u128(id).to_string()
}

/// `Uuid::parse_str`: the result is a function of the text, and the hyphenated form of a UUID reads
/// back as that UUID.
#[verifier::external_body]
pub(crate) fn parse_uuid(text: &str) -> (id: Option<Uuid>)
    ensures
        id == parsed_uuid(text@),
        forall|known: Uuid| text@ == #[trigger] hyphenated(known) ==> id == Some(known),
{
    uuid::Uuid::parse_str(text).ok().map(|id| id.as_u128())
}

/// `Uuid::as_bytes`: the sixteen bytes, the most significant first.
#[verifier::external_body]
pub(crate) fn uuid_bytes(id: Uuid) -> (bytes: Vec<u8>)
    ensures
        bytes@ == big_endian(id),
{
    uuid::Uuid::from_u128(id).as_bytes().to_vec()
}

/// `Uuid::from_slice`: the UUID whose sixteen bytes these are, the most significant first. Any other
/// number of bytes is refused.
#[verifier::external_body]
pub(crate) fn uuid_from_slice(bytes: &[u8]) -> (id: Option<Uuid>)
    ensures
        id is Some == (bytes@.len() == 16),
        id matches Some(id) ==> big_endian(id) == bytes@,
{
    uuid::Uuid::from_slice(bytes).ok().map(|id| id.as_u128())
}

/// The sixteen bytes of a UUID, the most significant first.
pub open spec fn big_endian(id: Uuid) -> Seq<u8> {
    Seq::new(16, |i: int| ((id as int) / (pow2((8 * (15 - i)) as nat) as int) % 256) as u8)
}

/// A digit is one of the ten figures or one of the six letters.
pub proof fn lemma_hex_digit(value: int)
    requires
        0 <= value < 16,
    ensures
        '0' <= hex_digit(value) <= '9' || 'a' <= hex_digit(value) <= 'f',
{
}

/// The hyphenated form is 36 characters long and holds figures, the letters a to f and hyphens.
pub proof fn lemma_hyphenated(id: Uuid)
    ensures
        hyphenated(id).len() == 36,
        forall|i: int|
            0 <= i < 36 ==> {
                let c = #[trigger] hyphenated(id)[i];
                '0' <= c <= '9' || 'a' <= c <= 'f' || c == '-'
            },
{
    assert forall|i: int| 0 <= i < 36 implies {
        let c = #[trigger] hyphenated(id)[i];
        '0' <= c <= '9' || 'a' <= c <= 'f' || c == '-'
    } by {
        if !hyphen_at(i) {
            let k = i - hyphens_before(i);
            lemma_hex_digit((id as int) / (pow2((4 * (31 - k)) as nat) as int) % 16);
        }
    }
}

proof fn lemma_leading_digits(a: Uuid, b: Uuid, k: int)
    requires
        hyphenated(a) == hyphenated(b),
        -1 <= k <= 31,
    ensures
        (a as int) / (pow2((4 * (31 - k)) as nat) as int) == (b as int) / (pow2(
            (4 * (31 - k)) as nat,
        ) as int),
    decreases k + 1,
{
    if k == -1 {
        vstd::arithmetic::power2::lemma2_to64();
        vstd::arithmetic::power2::lemma_pow2_adds(64, 64);
        assert(pow2(128) == 0x1_0000_0000_0000_0000 * 0x1_0000_0000_0000_0000);
        vstd::arithmetic::div_mod::lemma_basic_div(a as int, pow2(128) as int);
        vstd::arithmetic::div_mod::lemma_basic_div(b as int, pow2(128) as int);
    } else {
        lemma_leading_digits(a, b, k - 1);
        let p = pow2((4 * (31 - k)) as nat) as int;
        vstd::arithmetic::power2::lemma_pow2_pos((4 * (31 - k)) as nat);
        vstd::arithmetic::power2::lemma_pow2_adds((4 * (31 - k)) as nat, 4);
        vstd::arithmetic::power2::lemma2_to64();
        assert(pow2((4 * (31 - (k - 1))) as nat) == p * 16);
        vstd::arithmetic::div_mod::lemma_div_denominator(a as int, p, 16);
        vstd::arithmetic::div_mod::lemma_div_denominator(b as int, p, 16);
        let i = k + (if k < 8 {
            0int
        } else if k < 12 {
            1
        } else if k < 16 {
            2
        } else if k < 20 {
            3
        } else {
            4
        });
        assert(!hyphen_at(i) && i - hyphens_before(i) == k);
        assert(hyphenated(a)[i] == uuid_digit(a, k));
        assert(hyphenated(b)[i] == uuid_digit(b, k));
        let x = (a as int) / p;
        let y = (b as int) / p;
        assert(hex_digit(x % 16) == hex_digit(y % 16));
        assert(x % 16 == y % 16);
        assert(x / 16 == y / 16);
    }
}

/// Two UUIDs are written alike only where they are equal.
pub proof fn law_hyphenated_is_injective(a: Uuid, b: Uuid)
    requires
        hyphenated(a) == hyphenated(b),
    ensures
        a == b,
{
    lemma_leading_digits(a, b, 31);
    vstd::arithmetic::power2::lemma2_to64();
    assert((a as int) / 1 == a);
    assert((b as int) / 1 == b);
}

proof fn lemma_leading_bytes(a: Uuid, b: Uuid, k: int)
    requires
        big_endian(a) == big_endian(b),
        -1 <= k <= 15,
    ensures
        (a as int) / (pow2((8 * (15 - k)) as nat) as int) == (b as int) / (pow2(
            (8 * (15 - k)) as nat,
        ) as int),
    decreases k + 1,
{
    if k == -1 {
        vstd::arithmetic::power2::lemma2_to64();
        vstd::arithmetic::power2::lemma_pow2_adds(64, 64);
        assert(pow2(128) == 0x1_0000_0000_0000_0000 * 0x1_0000_0000_0000_0000);
        vstd::arithmetic::div_mod::lemma_basic_div(a as int, pow2(128) as int);
        vstd::arithmetic::div_mod::lemma_basic_div(b as int, pow2(128) as int);
    } else {
        lemma_leading_bytes(a, b, k - 1);
        let p = pow2((8 * (15 - k)) as nat) as int;
        vstd::arithmetic::power2::lemma_pow2_pos((8 * (15 - k)) as nat);
        vstd::arithmetic::power2::lemma_pow2_adds((8 * (15 - k)) as nat, 8);
        vstd::arithmetic::power2::lemma2_to64();
        assert(pow2((8 * (15 - (k - 1))) as nat) == p * 256);
        vstd::arithmetic::div_mod::lemma_div_denominator(a as int, p, 256);
        vstd::arithmetic::div_mod::lemma_div_denominator(b as int, p, 256);
        let x = (a as int) / p;
        let y = (b as int) / p;
        assert(big_endian(a)[k] == (x % 256) as u8);
        assert(big_endian(b)[k] == (y % 256) as u8);
        assert(x % 256 == y % 256);
        assert(x / 256 == y / 256);
    }
}

/// Two UUIDs have the same bytes only where they are equal.
pub proof fn lemma_big_endian_is_injective(a: Uuid, b: Uuid)
    requires
        big_endian(a) == big_endian(b),
    ensures
        a == b,
{
    lemma_leading_bytes(a, b, 15);
    vstd::arithmetic::power2::lemma2_to64();
    assert((a as int) / 1 == a);
    assert((b as int) / 1 == b);
}

/// A UUID that stands behind the same text can be told, and so can what follows it.
pub proof fn lemma_hyphenated_behind(
    head: Seq<char>,
    a: Uuid,
    rest: Seq<char>,
    b: Uuid,
    other_rest: Seq<char>,
)
    requires
        head + hyphenated(a) + rest == head + hyphenated(b) + other_rest,
    ensures
        a == b,
        rest == other_rest,
{
    let n = head.len() as int;
    let x = head + hyphenated(a) + rest;
    let y = head + hyphenated(b) + other_rest;
    lemma_hyphenated(a);
    lemma_hyphenated(b);
    assert(x.subrange(n, n + 36) =~= hyphenated(a));
    assert(y.subrange(n, n + 36) =~= hyphenated(b));
    law_hyphenated_is_injective(a, b);
    assert(x.skip(n + 36) =~= rest);
    assert(y.skip(n + 36) =~= other_rest);
}

} // verus!
