//! Bytes as hexadecimal text, the form in which a signature travels.

use vstd::prelude::*;
use vstd::string::is_ascii_spec_bytes;
use vstd::utf8::is_ascii_chars;

verus! {

/// The hexadecimal digit, in lower case, of a value below sixteen.
pub open spec fn hex_digit(value: u8) -> char {
    if value < 10 {
        (48 + value) as char
    } else {
        (87 + value) as char
    }
}

/// The value of a hexadecimal digit, in either case.
pub open spec fn hex_value(c: char) -> Option<u8> {
    if '0' <= c <= '9' {
        Some((c as u32 - 48) as u8)
    } else if 'a' <= c <= 'f' {
        Some((c as u32 - 87) as u8)
    } else if 'A' <= c <= 'F' {
        Some((c as u32 - 55) as u8)
    } else {
        None
    }
}

/// Whether every character is a hexadecimal digit.
pub open spec fn all_hex(text: Seq<char>) -> bool {
    forall|i: int| 0 <= i < text.len() ==> (#[trigger] hex_value(text[i])) is Some
}

/// The byte that two hexadecimal digits stand for.
pub open spec fn byte_of(high: char, low: char) -> u8 {
    (hex_value(high).unwrap() * 16 + hex_value(low).unwrap()) as u8
}

/// The bytes that a hexadecimal text stands for: two digits a byte, and
/// nothing else in the text.
pub open spec fn hex_bytes(text: Seq<char>) -> Option<Seq<u8>> {
    if text.len() % 2 == 0 && all_hex(text) {
        Some(Seq::new(text.len() / 2, |k: int| byte_of(text[2 * k], text[2 * k + 1])))
    } else {
        None
    }
}

/// The hexadecimal text of bytes: two lower-case digits a byte.
pub open spec fn hex_text(bytes: Seq<u8>) -> Seq<char> {
    Seq::new(
        2 * bytes.len(),
        |i: int|
            if i % 2 == 0 {
                hex_digit(bytes[i / 2] / 16)
            } else {
                hex_digit(bytes[i / 2] % 16)
            },
    )
}

/// Reading the hexadecimal text of bytes gives the bytes back.
pub proof fn lemma_hex_round_trip(bytes: Seq<u8>)
    ensures
        hex_bytes(hex_text(bytes)) == Some(bytes),
{
    let text = hex_text(bytes);
    assert forall|i: int| 0 <= i < text.len() implies (#[trigger] hex_value(text[i])) is Some by {
        lemma_hex_digit_value((bytes[i / 2] / 16) as u8);
        lemma_hex_digit_value((bytes[i / 2] % 16) as u8);
    }
    let read = hex_bytes(text).unwrap();
    assert forall|k: int| 0 <= k < bytes.len() implies read[k] == bytes[k] by {
        lemma_hex_digit_value((bytes[k] / 16) as u8);
        lemma_hex_digit_value((bytes[k] % 16) as u8);
        assert(text[2 * k] == hex_digit(bytes[(2 * k) / 2] / 16));
        assert(text[2 * k + 1] == hex_digit(bytes[(2 * k + 1) / 2] % 16));
    }
    assert(read =~= bytes);
}

/// A hexadecimal digit has the value it was made from.
pub proof fn lemma_hex_digit_value(value: u8)
    requires
        value < 16,
    ensures
        hex_value(hex_digit(value)) == Some(value),
{
    let c = hex_digit(value);
    if value < 10 {
        assert(c as u32 == 48 + value);
    } else {
        assert(c as u32 == 87 + value);
    }
}

/// Calls `String::push`, which appends one character to the text.
#[verifier::external_body]
fn push_char(text: &mut String, c: char)
    ensures
        final(text)@ == old(text)@.push(c),
{
    text.push(c);
}

/// The lower-case hexadecimal digit of a value below sixteen.
fn digit_of(value: u8) -> (c: char)
    requires
        value < 16,
    ensures
        c == hex_digit(value),
{
    if value < 10 {
        (48 + value) as char
    } else {
        (87 + value) as char
    }
}

/// The value of the hexadecimal digit that an ASCII byte stands for.
fn value_of(byte: u8) -> (value: Option<u8>)
    requires
        byte < 128,
    ensures
        value == hex_value(byte as char),
        value matches Some(v) ==> v < 16,
{
    if 48 <= byte && byte <= 57 {
        Some(byte - 48)
    } else if 97 <= byte && byte <= 102 {
        Some(byte - 87)
    } else if 65 <= byte && byte <= 70 {
        Some(byte - 55)
    } else {
        None
    }
}

/// Writes bytes as hexadecimal text.
pub fn encode_hex(bytes: &[u8]) -> (text: String)
    ensures
        text@ == hex_text(bytes@),
{
    let mut text = String::new();
    let mut k: usize = 0;
    while k < bytes.len()
        invariant
            k <= bytes.len(),
            text@ =~= hex_text(bytes@.take(k as int)),
        decreases bytes.len() - k,
    {
        let byte: u8 = bytes[k];
        push_char(&mut text, digit_of(byte / 16));
        push_char(&mut text, digit_of(byte % 16));
        k += 1;
        assert(text@ =~= hex_text(bytes@.take(k as int)));
    }
    assert(bytes@.take(k as int) =~= bytes@);
    text
}

/// Reads hexadecimal text. Text of odd length, or with anything but
/// hexadecimal digits in it, stands for no bytes.
pub fn decode_hex(text: &str) -> (res: Option<Vec<u8>>)
    ensures
        match res {
            Some(bytes) => hex_bytes(text@) == Some(bytes@),
            None => hex_bytes(text@) is None,
        },
{
    if !text.is_ascii() {
        proof {
            if all_hex(text@) {
                assert forall|i: int| 0 <= i < text@.len() implies '\0' <= #[trigger] text@[i]
                    <= '\u{7f}' by {
                    assert(hex_value(text@[i]) is Some);
                }
            }
        }
        return None;
    }
    proof {
        is_ascii_spec_bytes(text);
    }
    let raw = text.as_bytes();
    if raw.len() % 2 != 0 {
        return None;
    }
    let mut bytes: Vec<u8> = Vec::new();
    let mut i: usize = 0;
    while i < raw.len()
        invariant
            raw@.len() == text@.len(),
            raw@.len() % 2 == 0,
            i % 2 == 0,
            i <= raw@.len(),
            is_ascii_chars(text@),
            forall|j: int| 0 <= j < raw@.len() ==> raw@[j] == text@[j] as u8,
            forall|j: int| 0 <= j < i ==> (#[trigger] hex_value(text@[j])) is Some,
            bytes@.len() == i / 2,
            forall|k: int|
                0 <= k < i / 2 ==> #[trigger] bytes@[k] == byte_of(text@[2 * k], text@[2 * k + 1]),
        decreases raw@.len() - i,
    {
        let high_byte: u8 = raw[i];
        let low_byte: u8 = raw[i + 1];
        proof {
            assert('\0' <= text@[i as int] <= '\u{7f}');
            assert('\0' <= text@[i + 1] <= '\u{7f}');
            assert(high_byte as char == text@[i as int]);
            assert(low_byte as char == text@[i + 1]);
        }
        let high = match value_of(high_byte) {
            Some(v) => v,
            None => {
                return None;
            },
        };
        let low = match value_of(low_byte) {
            Some(v) => v,
            None => {
                return None;
            },
        };
        bytes.push(high * 16 + low);
        i += 2;
    }
    proof {
        assert(all_hex(text@));
        assert(bytes@ =~= hex_bytes(text@).unwrap());
    }
    Some(bytes)
}

} // verus!
