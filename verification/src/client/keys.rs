//! Master keys as text: 64 hexadecimal digits for 32 bytes.

use vstd::prelude::*;

verus! {

/// The error that the `hex` crate reports for text that is not hexadecimal.
#[verifier::external_type_specification]
#[verifier::external_body]
pub struct ExFromHexError(hex::FromHexError);

/// The value of the hexadecimal digit with byte `b` (either case), if it is one.
pub open spec fn hex_digit_value(b: u8) -> Option<int> {
    if 0x30 <= b <= 0x39 {
        Some(b - 0x30)
    } else if 0x61 <= b <= 0x66 {
        Some(b - 0x61 + 10)
    } else if 0x41 <= b <= 0x46 {
        Some(b - 0x41 + 10)
    } else {
        None
    }
}

/// Whether `text` is an even number of hexadecimal digits.
pub open spec fn is_hex_text(text: Seq<u8>) -> bool {
    &&& text.len() % 2 == 0
    &&& forall|i: int| 0 <= i < text.len() ==> (#[trigger] hex_digit_value(text[i])) is Some
}

/// The bytes that hexadecimal `text` spells, two digits per byte, high digit
/// first.
pub open spec fn hex_decoded(text: Seq<u8>) -> Seq<u8> {
    Seq::new(
        text.len() / 2,
        |i: int|
            (hex_digit_value(text[2 * i])->0 * 16 + hex_digit_value(text[2 * i + 1])->0) as u8,
    )
}

/// The lower-case hexadecimal digit for `n` (below 16).
pub open spec fn hex_char(n: int) -> char {
    if n < 10 {
        (0x30 + n) as char
    } else {
        (0x61 + n - 10) as char
    }
}

/// The lower-case hexadecimal text for `data`, two digits per byte, high
/// digit first.
pub open spec fn hex_encoded(data: Seq<u8>) -> Seq<char> {
    Seq::new(
        2 * data.len(),
        |i: int|
            if i % 2 == 0 {
                hex_char((data[i / 2] / 16) as int)
            } else {
                hex_char((data[i / 2] % 16) as int)
            },
    )
}

/// Decodes with `hex::decode`: it succeeds exactly on an even number of
/// hexadecimal digits (either case) and then gives the bytes they spell.
#[verifier::external_body]
fn hex_decode(text: &[u8]) -> (res: Result<Vec<u8>, hex::FromHexError>)
    ensures
        res is Ok <==> is_hex_text(text@),
        res matches Ok(bytes) ==> bytes@ == hex_decoded(text@),
{
    hex::decode(text)
}

/// Encodes with `hex::encode`: lower-case digits, two per byte.
#[verifier::external_body]
fn hex_encode(data: &[u8]) -> (text: String)
    ensures
        text@ == hex_encoded(data@),
{
    hex::encode(data)
}

/// The text under which a master key is shown.
pub fn key_to_hex(key: &[u8; 32]) -> (text: String)
    ensures
        text@ == hex_encoded(key@),
{
    hex_encode(key.as_slice())
}

/// Whether `text` (its UTF-8 bytes) spells a master key: 64 hexadecimal digits.
pub open spec fn is_key_text(text: Seq<u8>) -> bool {
    text.len() == 64 && is_hex_text(text)
}

/// Reads a master key from 64 hexadecimal digits.
pub fn key_from_hex(text: &str) -> (key: Option<[u8; 32]>)
    ensures
        key is Some <==> is_key_text(vstd::utf8::encode_utf8(text@)),
        key matches Some(k) ==> k@ == hex_decoded(vstd::utf8::encode_utf8(text@)),
{
    let bytes = text.as_bytes();
    if bytes.len() != 64 {
        return None;
    }
    match hex_decode(bytes) {
        Ok(decoded) => {
            let mut key = [0u8; 32];
            let mut i: usize = 0;
            while i < 32
                invariant
                    decoded@.len() == 32,
                    i <= 32,
                    forall|j: int| 0 <= j < i ==> key@[j] == decoded@[j],
                decreases 32 - i,
            {
                key[i] = decoded[i];
                i = i + 1;
            }
            assert(key@ =~= decoded@);
            Some(key)
        },
        Err(_) => None,
    }
}

/// The text that shows a key reads back as that key: what `genkey` prints is
/// what `setkey` accepts, and it sets the key that was printed.
pub proof fn hex_text_reads_back(key: Seq<u8>)
    ensures
        is_hex_text(vstd::utf8::encode_utf8(hex_encoded(key))),
        key.len() == 32 ==> is_key_text(vstd::utf8::encode_utf8(hex_encoded(key))),
        hex_decoded(vstd::utf8::encode_utf8(hex_encoded(key))) == key,
        vstd::utf8::encode_utf8(hex_encoded(key)).len() == 2 * key.len(),
{
    let chars = hex_encoded(key);
    assert forall|i: int| 0 <= i < chars.len() implies '\0' <= #[trigger] chars[i] <= '\u{7f}' by {
        let b: u8 = key[i / 2];
        assert(0 <= b / 16 < 16 && 0 <= b % 16 < 16);
    }
    vstd::utf8::is_ascii_chars_encode_utf8(chars);
    let text = vstd::utf8::encode_utf8(chars);
    assert forall|i: int| 0 <= i < text.len() implies (#[trigger] hex_digit_value(text[i])) is Some by {
        assert(chars[i] as u8 == text[i]);
        let b: u8 = key[i / 2];
        assert(0 <= b / 16 < 16 && 0 <= b % 16 < 16);
    }
    assert forall|i: int| 0 <= i < key.len() implies #[trigger] hex_decoded(text)[i] == key[i] by {
        assert(chars[2 * i] as u8 == text[2 * i]);
        assert(chars[2 * i + 1] as u8 == text[2 * i + 1]);
        assert((2 * i) / 2 == i);
        assert((2 * i + 1) / 2 == i);
        assert((2 * i) % 2 == 0);
        assert((2 * i + 1) % 2 == 1);
        let b: u8 = key[i];
        assert(b == (b / 16) * 16 + b % 16);
    }
    assert(hex_decoded(text) =~= key);
}

} // verus!
