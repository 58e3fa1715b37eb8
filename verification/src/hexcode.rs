//! Hexadecimal text: bytes written as pairs of digits, with or without the
//! prefix `0x`.
use vstd::prelude::*;
use vstd::string::*;
use crate::abi::gives_bytes;
use crate::errors::{fails_with, DeployerError, ErrorView};

verus! {

/// The value of a hexadecimal digit, in either case; `None` for any other
/// character.
pub open spec fn hex_digit_value(c: char) -> Option<int> {
    if '0' <= c <= '9' {
        Some(c as int - '0' as int)
    } else if 'a' <= c <= 'f' {
        Some(c as int - 'a' as int + 10)
    } else if 'A' <= c <= 'F' {
        Some(c as int - 'A' as int + 10)
    } else {
        None
    }
}

/// The text is an even number of hexadecimal digits.
pub open spec fn is_hex_text(text: Seq<char>) -> bool {
    &&& text.len() % 2 == 0
    &&& forall|i: int| 0 <= i < text.len() ==> hex_digit_value(#[trigger] text[i]) is Some
}

/// The bytes that a hexadecimal text stands for: one for each pair of digits.
pub open spec fn hex_bytes(text: Seq<char>) -> Seq<u8> {
    Seq::new(
        text.len() / 2,
        |i: int| (16 * hex_digit_value(text[2 * i])->0 + hex_digit_value(text[2 * i + 1])->0) as u8,
    )
}

/// The text without any `0x` at its start, however often it is repeated.
pub open spec fn without_hex_prefix(text: Seq<char>) -> Seq<char>
    decreases text.len(),
{
    if text.len() >= 2 && text[0] == '0' && text[1] == 'x' {
        without_hex_prefix(text.subrange(2, text.len() as int))
    } else {
        text
    }
}

/// The lower-case hexadecimal digit of a value below sixteen.
pub open spec fn hex_digit_char(d: int) -> char {
    if d == 0 {
        '0'
    } else if d == 1 {
        '1'
    } else if d == 2 {
        '2'
    } else if d == 3 {
        '3'
    } else if d == 4 {
        '4'
    } else if d == 5 {
        '5'
    } else if d == 6 {
        '6'
    } else if d == 7 {
        '7'
    } else if d == 8 {
        '8'
    } else if d == 9 {
        '9'
    } else if d == 10 {
        'a'
    } else if d == 11 {
        'b'
    } else if d == 12 {
        'c'
    } else if d == 13 {
        'd'
    } else if d == 14 {
        'e'
    } else {
        'f'
    }
}

/// The bytes written as lower-case hexadecimal digits, two for each byte.
pub open spec fn hex_text(bytes: Seq<u8>) -> Seq<char> {
    Seq::new(
        2 * bytes.len(),
        |i: int|
            if i % 2 == 0 {
                hex_digit_char(bytes[i / 2] as int / 16)
            } else {
                hex_digit_char(bytes[i / 2] as int % 16)
            },
    )
}

/// The bytes written as `0x` and their lower-case hexadecimal digits.
pub open spec fn prefixed_hex_text(bytes: Seq<u8>) -> Seq<char> {
    seq!['0', 'x'] + hex_text(bytes)
}

/// Decodes hexadecimal digits by `hex::decode`, which takes upper and lower
/// case, two digits for each byte, and refuses an odd number of digits and
/// any other character.
#[verifier::external_body]
fn hex_decode(text: &str) -> (out: Option<Vec<u8>>)
    ensures
        match out {
            Some(bytes) => is_hex_text(text@) && bytes@ == hex_bytes(text@),
            None => !is_hex_text(text@),
        },
{
    hex::decode(text).ok()
}

/// Takes every `0x` off the start of the text.
pub fn strip_hex_prefix(text: &str) -> (rest: String)
    ensures
        rest@ == without_hex_prefix(text@),
{
    let n = text.unicode_len();
    let mut i: usize = 0;
    assert(text@.subrange(0, n as int) =~= text@);
    while n - i >= 2 && text.get_char(i) == '0' && text.get_char(i + 1) == 'x'
        invariant
            i <= n,
            n == text@.len(),
            without_hex_prefix(text@) == without_hex_prefix(text@.subrange(i as int, n as int)),
        decreases n - i,
    {
        proof {
            let here = text@.subrange(i as int, n as int);
            assert(here.subrange(2, here.len() as int) =~= text@.subrange(i + 2, n as int));
        }
        i += 2;
    }
    String::from_str(text.substring_char(i, n))
}

/// Decodes a hexadecimal text, with or without `0x` at its start. Fails with
/// `TypeConversion`, expecting `bytes` and naming the text, where what
/// follows the prefix is not an even number of hexadecimal digits.
pub fn decode_hex(text: &str) -> (result: Result<Vec<u8>, DeployerError>)
    ensures
        match is_hex_text(without_hex_prefix(text@)) {
            true => gives_bytes(result, hex_bytes(without_hex_prefix(text@))),
            false => fails_with(
                result,
                ErrorView::TypeConversion { expected: "bytes"@, actual: text@ },
            ),
        },
{
    let digits = strip_hex_prefix(text);
    match hex_decode(digits.as_str()) {
        Some(bytes) => Ok(bytes),
        None => Err(
            DeployerError::TypeConversion {
                expected: String::from_str("bytes"),
                actual: String::from_str(text),
            },
        ),
    }
}

fn hex_digit_text(d: u8) -> (text: &'static str)
    requires
        d < 16,
    ensures
        text@ == seq![hex_digit_char(d as int)],
{
    proof {
        reveal_strlit("0");
        reveal_strlit("1");
        reveal_strlit("2");
        reveal_strlit("3");
        reveal_strlit("4");
        reveal_strlit("5");
        reveal_strlit("6");
        reveal_strlit("7");
        reveal_strlit("8");
        reveal_strlit("9");
        reveal_strlit("a");
        reveal_strlit("b");
        reveal_strlit("c");
        reveal_strlit("d");
        reveal_strlit("e");
        reveal_strlit("f");
    }
    let text = if d == 0 {
        "0"
    } else if d == 1 {
        "1"
    } else if d == 2 {
        "2"
    } else if d == 3 {
        "3"
    } else if d == 4 {
        "4"
    } else if d == 5 {
        "5"
    } else if d == 6 {
        "6"
    } else if d == 7 {
        "7"
    } else if d == 8 {
        "8"
    } else if d == 9 {
        "9"
    } else if d == 10 {
        "a"
    } else if d == 11 {
        "b"
    } else if d == 12 {
        "c"
    } else if d == 13 {
        "d"
    } else if d == 14 {
        "e"
    } else {
        "f"
    };
    assert(text@ =~= seq![hex_digit_char(d as int)]);
    text
}

/// Writes the bytes as `0x` and their lower-case hexadecimal digits.
pub fn encode_hex(bytes: &Vec<u8>) -> (text: String)
    ensures
        text@ == prefixed_hex_text(bytes@),
{
    proof {
        reveal_strlit("0x");
    }
    let mut text = String::from_str("0x");
    let mut i: usize = 0;
    assert(text@ =~= seq!['0', 'x'] + hex_text(bytes@.subrange(0, 0)));
    while i < bytes.len()
        invariant
            i <= bytes@.len(),
            text@ == seq!['0', 'x'] + hex_text(bytes@.subrange(0, i as int)),
        decreases bytes@.len() - i,
    {
        let byte = bytes[i];
        let ghost before = text@;
        text = text.concat(hex_digit_text(byte / 16)).concat(hex_digit_text(byte % 16));
        proof {
            let shorter = bytes@.subrange(0, i as int);
            let longer = bytes@.subrange(0, i + 1);
            assert(hex_text(longer) =~= hex_text(shorter) + seq![
                hex_digit_char(byte as int / 16),
                hex_digit_char(byte as int % 16),
            ]) by {
                assert forall|k: int| 0 <= k < 2 * shorter.len() implies hex_text(longer)[k]
                    == hex_text(shorter)[k] by {
                    assert(longer[k / 2] == shorter[k / 2]);
                }
                assert(longer[i as int] == byte);
            }
            assert(text@ =~= seq!['0', 'x'] + hex_text(longer));
        }
        i += 1;
    }
    assert(bytes@.subrange(0, i as int) =~= bytes@);
    text
}

} // verus!
