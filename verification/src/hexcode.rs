//! Hex text encoding and decoding, with exact specifications. The calls go
//! to the `hex` crate through trusted wrappers whose contracts state the
//! full digit-by-digit behaviour.

use vstd::prelude::*;

verus! {

/// Is `b` the ASCII code of a hex digit (either case)?
pub open spec fn is_hex_digit(b: u8) -> bool {
    (0x30 <= b <= 0x39) || (0x61 <= b <= 0x66) || (0x41 <= b <= 0x46)
}

/// The value of the hex digit with ASCII code `b`.
pub open spec fn hex_digit_val(b: u8) -> u8
    recommends
        is_hex_digit(b),
{
    if 0x30 <= b <= 0x39 {
        (b - 0x30) as u8
    } else if 0x61 <= b <= 0x66 {
        (b - 0x61 + 10) as u8
    } else {
        (b - 0x41 + 10) as u8
    }
}

/// Does `s` decode as hex text: even length, hex digits throughout?
pub open spec fn hex_decodable(s: Seq<u8>) -> bool {
    s.len() % 2 == 0 && (forall|i: int| 0 <= i < s.len() ==> is_hex_digit(#[trigger] s[i]))
}

/// The bytes that the hex text `s` stands for, one byte per digit pair.
pub open spec fn hex_decoded(s: Seq<u8>) -> Seq<u8>
    recommends
        hex_decodable(s),
{
    Seq::new(s.len() / 2, |i: int| (hex_digit_val(s[2 * i]) * 16 + hex_digit_val(s[2 * i + 1])) as u8)
}

/// The lowercase hex character for the nibble `n`.
pub open spec fn hex_char(n: u8) -> char
    recommends
        n < 16,
{
    if n < 10 {
        ((n + 0x30) as u8) as char
    } else {
        ((n + 0x57) as u8) as char
    }
}

/// The lowercase hex text of a byte sequence, two characters per byte.
pub open spec fn hex_chars_of(b: Seq<u8>) -> Seq<char> {
    Seq::new(b.len() * 2, |i: int|
        if i % 2 == 0 {
            hex_char(b[i / 2] >> 4)
        } else {
            hex_char(b[i / 2] & 0x0f)
        })
}

proof fn lemma_hex_char_injective(x: u8, y: u8)
    requires
        x < 16,
        y < 16,
        hex_char(x) == hex_char(y),
    ensures
        x == y,
{
}

/// Two byte sequences with the same hex text are the same bytes: the
/// rendering is information-preserving.
pub proof fn lemma_hex_chars_injective(a: Seq<u8>, b: Seq<u8>)
    requires
        hex_chars_of(a) == hex_chars_of(b),
    ensures
        a == b,
{
    assert(hex_chars_of(a).len() == a.len() * 2);
    assert(hex_chars_of(b).len() == b.len() * 2);
    assert(a.len() == b.len());
    assert forall|i: int| 0 <= i < a.len() implies a[i] == b[i] by {
        assert((2 * i) % 2 == 0 && (2 * i) / 2 == i && (2 * i + 1) % 2 == 1 && (2 * i + 1) / 2
            == i);
        assert(hex_chars_of(a)[2 * i] == hex_chars_of(b)[2 * i]);
        assert(hex_chars_of(a)[2 * i + 1] == hex_chars_of(b)[2 * i + 1]);
        let x = a[i];
        let y = b[i];
        assert(hex_chars_of(a)[2 * i] == hex_char(x >> 4));
        assert(hex_chars_of(b)[2 * i] == hex_char(y >> 4));
        assert(hex_chars_of(a)[2 * i + 1] == hex_char(x & 0x0f));
        assert(hex_chars_of(b)[2 * i + 1] == hex_char(y & 0x0f));
        assert(x >> 4 < 16 && y >> 4 < 16 && (x & 0x0f) < 16 && (y & 0x0f) < 16) by (bit_vector);
        lemma_hex_char_injective(x >> 4, y >> 4);
        lemma_hex_char_injective(x & 0x0f, y & 0x0f);
        assert(x == y) by (bit_vector)
            requires
                x >> 4 == y >> 4,
                x & 0x0f == y & 0x0f,
        ;
    }
    assert(a =~= b);
}

/// Relies on `hex::decode`: it succeeds exactly on even-length sequences of
/// hex digits of either case, and maps each digit pair to one byte, high
/// nibble first.
#[verifier::external_body]
pub(crate) fn hex_decode_bytes(data: &[u8]) -> (r: Option<Vec<u8>>)
    ensures
        r is Some <==> hex_decodable(data@),
        r matches Some(v) ==> v@ == hex_decoded(data@),
{
    hex::decode(data).ok()
}

/// Relies on `hex::encode`: it writes two lowercase hex digits per input
/// byte, high nibble first.
#[verifier::external_body]
pub(crate) fn hex_encode_bytes(data: &[u8]) -> (r: String)
    ensures
        r@ == hex_chars_of(data@),
{
    hex::encode(data)
}

} // verus!
