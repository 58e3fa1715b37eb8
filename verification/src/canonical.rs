//! The text of a value: how a recorded value is written where it takes the
//! place of a template.
use vstd::prelude::*;
use vstd::string::*;
use crate::comparison::{byte_limit, signed_value, unsigned_value};
use crate::hexcode::{encode_hex, prefixed_hex_text};
use crate::text::{decimal, digit_text};
use crate::types::{value_models, TypedValue, ValueModel};

verus! {

/// Every byte is zero.
pub open spec fn all_zero(bytes: Seq<u8>) -> bool {
    forall|i: int| 0 <= i < bytes.len() ==> bytes[i] == 0
}

proof fn lemma_zero_bytes_are_zero(bytes: Seq<u8>)
    ensures
        all_zero(bytes) <==> unsigned_value(bytes) == 0,
    decreases bytes.len(),
{
    if bytes.len() > 0 {
        let shorter = bytes.drop_last();
        lemma_zero_bytes_are_zero(shorter);
        if all_zero(bytes) {
            assert forall|i: int| 0 <= i < shorter.len() implies shorter[i] == 0 by {
                assert(shorter[i] == bytes[i]);
            }
            assert(bytes.last() == bytes[bytes.len() - 1]);
        }
        if unsigned_value(bytes) == 0 {
            assert(unsigned_value(shorter) == 0 && bytes.last() == 0) by (nonlinear_arith)
                requires
                    unsigned_value(shorter) * 256 + bytes.last() as nat == 0,
            ;
            assert forall|i: int| 0 <= i < bytes.len() implies bytes[i] == 0 by {
                if i < shorter.len() {
                    assert(shorter[i] == bytes[i]);
                }
            }
        }
    }
}

/// Tells whether every byte is zero.
fn is_zero(bytes: &Vec<u8>) -> (zero: bool)
    ensures
        zero == (unsigned_value(bytes@) == 0),
{
    proof {
        lemma_zero_bytes_are_zero(bytes@);
    }
    let mut i: usize = 0;
    while i < bytes.len()
        invariant
            i <= bytes@.len(),
            forall|j: int| 0 <= j < i ==> bytes@[j] == 0,
            all_zero(bytes@) <==> unsigned_value(bytes@) == 0,
        decreases bytes@.len() - i,
    {
        if bytes[i] != 0 {
            assert(bytes@[i as int] != 0);
            return false;
        }
        i += 1;
    }
    true
}

/// Divides the number that big-endian bytes stand for by ten.
fn divide_by_ten(bytes: &Vec<u8>) -> (parts: (Vec<u8>, usize))
    ensures
        parts.0@.len() == bytes@.len(),
        parts.1 < 10,
        unsigned_value(bytes@) == 10 * unsigned_value(parts.0@) + parts.1,
{
    let mut quotient: Vec<u8> = Vec::new();
    let mut carry: usize = 0;
    let mut i: usize = 0;
    assert(bytes@.subrange(0, 0) =~= Seq::<u8>::empty());
    while i < bytes.len()
        invariant
            i <= bytes@.len(),
            quotient@.len() == i,
            carry < 10,
            unsigned_value(bytes@.subrange(0, i as int)) == 10 * unsigned_value(quotient@) + carry,
        decreases bytes@.len() - i,
    {
        let ghost before = quotient@;
        let ghost old_carry = carry;
        let byte = bytes[i];
        let current: usize = carry * 256 + byte as usize;
        let digit: usize = current / 10;
        assert(digit < 256);
        quotient.push(digit as u8);
        carry = current % 10;
        proof {
            let longer = bytes@.subrange(0, i + 1);
            assert(longer.drop_last() =~= bytes@.subrange(0, i as int));
            assert(longer.last() == byte);
            assert(quotient@.drop_last() =~= before);
            assert(quotient@.last() == digit as u8);
            let v = unsigned_value(bytes@.subrange(0, i as int));
            let q = unsigned_value(before);
            assert(unsigned_value(longer) == v * 256 + byte as nat);
            assert(unsigned_value(quotient@) == q * 256 + digit as nat);
            assert(v * 256 + byte as nat == 10 * (q * 256 + digit as nat) + carry as nat)
                by (nonlinear_arith)
                requires
                    v == 10 * q + old_carry as nat,
                    current == old_carry * 256 + byte as nat,
                    digit == current / 10,
                    carry == current % 10,
            ;
        }
        i += 1;
    }
    assert(bytes@.subrange(0, i as int) =~= bytes@);
    (quotient, carry)
}

/// Writes the number that big-endian bytes stand for in decimal.
pub fn decimal_of_bytes(bytes: &Vec<u8>) -> (text: String)
    ensures
        text@ == decimal(unsigned_value(bytes@)),
    decreases unsigned_value(bytes@),
{
    let (quotient, digit) = divide_by_ten(bytes);
    if is_zero(&quotient) {
        String::from_str(digit_text(digit))
    } else {
        let text = decimal_of_bytes(&quotient).concat(digit_text(digit));
        proof {
            let n = unsigned_value(bytes@);
            let q = unsigned_value(quotient@);
            assert(n / 10 == q && n % 10 == digit as nat) by (nonlinear_arith)
                requires
                    n == 10 * q + digit as nat,
                    digit < 10,
            ;
            assert(text@ =~= decimal(n));
        }
        text
    }
}

/// Writes in decimal the number after the one that big-endian bytes stand
/// for.
fn decimal_of_successor(bytes: &Vec<u8>) -> (text: String)
    ensures
        text@ == decimal(unsigned_value(bytes@) + 1),
    decreases unsigned_value(bytes@),
{
    let (quotient, digit) = divide_by_ten(bytes);
    let ghost n = unsigned_value(bytes@);
    let ghost q = unsigned_value(quotient@);
    if digit < 9 {
        proof {
            assert((n + 1) / 10 == q && (n + 1) % 10 == digit + 1) by (nonlinear_arith)
                requires
                    n == 10 * q + digit as nat,
                    digit < 9,
            ;
        }
        if is_zero(&quotient) {
            String::from_str(digit_text(digit + 1))
        } else {
            let text = decimal_of_bytes(&quotient).concat(digit_text(digit + 1));
            assert(text@ =~= decimal(n + 1));
            text
        }
    } else {
        let text = decimal_of_successor(&quotient).concat(digit_text(0));
        proof {
            assert((n + 1) / 10 == q + 1 && (n + 1) % 10 == 0) by (nonlinear_arith)
                requires
                    n == 10 * q + 9,
            ;
            assert(text@ =~= decimal(n + 1));
        }
        text
    }
}

/// Turns every bit of the bytes over.
fn complement(bytes: &Vec<u8>) -> (turned: Vec<u8>)
    ensures
        turned@.len() == bytes@.len(),
        unsigned_value(turned@) + 1 + unsigned_value(bytes@) == byte_limit(bytes@.len()),
{
    let mut turned: Vec<u8> = Vec::new();
    let mut i: usize = 0;
    assert(bytes@.subrange(0, 0) =~= Seq::<u8>::empty());
    while i < bytes.len()
        invariant
            i <= bytes@.len(),
            turned@.len() == i,
            unsigned_value(turned@) + 1 + unsigned_value(bytes@.subrange(0, i as int))
                == byte_limit(i as nat),
        decreases bytes@.len() - i,
    {
        let ghost before = turned@;
        let byte = bytes[i];
        turned.push(255 - byte);
        proof {
            let longer = bytes@.subrange(0, i + 1);
            assert(longer.drop_last() =~= bytes@.subrange(0, i as int));
            assert(longer.last() == byte);
            assert(turned@.drop_last() =~= before);
            let v = unsigned_value(bytes@.subrange(0, i as int));
            let t = unsigned_value(before);
            let limit = byte_limit(i as nat);
            assert(unsigned_value(longer) == v * 256 + byte as nat);
            assert(unsigned_value(turned@) == t * 256 + (255 - byte) as nat);
            assert(byte_limit((i + 1) as nat) == limit * 256);
            assert(t * 256 + (255 - byte) + 1 + v * 256 + byte == limit * 256)
                by (nonlinear_arith)
                requires
                    t + 1 + v == limit,
            ;
        }
        i += 1;
    }
    assert(bytes@.subrange(0, i as int) =~= bytes@);
    turned
}

/// A whole number written in decimal, with `-` before a negative one.
pub open spec fn signed_decimal(n: int) -> Seq<char> {
    if n < 0 {
        seq!['-'] + decimal((-n) as nat)
    } else {
        decimal(n as nat)
    }
}

/// Writes in decimal the number that big-endian bytes stand for in two's
/// complement.
pub fn signed_decimal_of_bytes(bytes: &Vec<u8>) -> (text: String)
    ensures
        text@ == signed_decimal(signed_value(bytes@)),
{
    if bytes.len() > 0 && bytes[0] >= 128 {
        let turned = complement(bytes);
        let text = String::from_str("-").concat(decimal_of_successor(&turned).as_str());
        proof {
            reveal_strlit("-");
            assert(text@ =~= seq!['-'] + decimal(unsigned_value(turned@) + 1));
            assert(-signed_value(bytes@) == unsigned_value(turned@) + 1);
        }
        text
    } else {
        decimal_of_bytes(bytes)
    }
}

/// The first `size` bytes of a word, and the whole word where it is
/// shorter.
pub open spec fn leading_bytes(word: Seq<u8>, size: usize) -> Seq<u8> {
    if size <= word.len() {
        word.subrange(0, size as int)
    } else {
        word
    }
}

/// The texts of the first `k` of `items`, with commas between them.
pub open spec fn joined_value_texts(items: Seq<ValueModel>, k: nat) -> Seq<char>
    decreases items, k,
{
    if k == 0 || k > items.len() {
        Seq::empty()
    } else if k == 1 {
        value_text(items[0])
    } else {
        joined_value_texts(items, (k - 1) as nat) + seq![','] + value_text(items[k - 1])
    }
}

/// The text of a value: an integer in decimal, bytes of every kind as `0x`
/// and lower-case hexadecimal digits (of fixed bytes as many as their
/// length says), a truth value as `true` or `false`, a string as it is, and
/// a list of values as the texts of its items with commas between them, in
/// square brackets for an array and in round ones for a tuple.
pub open spec fn value_text(value: ValueModel) -> Seq<char>
    decreases value, 0nat,
{
    match value {
        ValueModel::Address(bytes) => prefixed_hex_text(bytes),
        ValueModel::Bool(truth) => if truth {
            "true"@
        } else {
            "false"@
        },
        ValueModel::Uint(word, _) => decimal(unsigned_value(word)),
        ValueModel::Int(word, _) => signed_decimal(signed_value(word)),
        ValueModel::FixedBytes(word, size) => prefixed_hex_text(leading_bytes(word, size)),
        ValueModel::Bytes(bytes) => prefixed_hex_text(bytes),
        ValueModel::String(text) => text,
        ValueModel::Function(bytes) => prefixed_hex_text(bytes),
        ValueModel::Array(items) => seq!['['] + joined_value_texts(items, items.len()) + seq![']'],
        ValueModel::FixedArray(items) => seq!['['] + joined_value_texts(items, items.len())
            + seq![']'],
        ValueModel::Tuple(items) => seq!['('] + joined_value_texts(items, items.len()) + seq![')'],
    }
}

/// Copies the first `size` bytes of a word, and the whole word where it is
/// shorter.
fn copy_leading_bytes(word: &Vec<u8>, size: usize) -> (copy: Vec<u8>)
    ensures
        copy@ == leading_bytes(word@, size),
{
    let end: usize = if size <= word.len() {
        size
    } else {
        word.len()
    };
    let mut copy: Vec<u8> = Vec::new();
    let mut i: usize = 0;
    while i < end
        invariant
            i <= end <= word@.len(),
            copy@ == word@.subrange(0, i as int),
        decreases end - i,
    {
        copy.push(word[i]);
        assert(copy@ =~= word@.subrange(0, i + 1));
        i += 1;
    }
    assert(word@.subrange(0, word@.len() as int) =~= word@);
    copy
}

/// Writes the texts of the items with commas between them, after `open`
/// and before `close`.
fn write_items(items: &Vec<TypedValue>, open: &str, close: &str) -> (text: String)
    ensures
        text@ == open@ + joined_value_texts(value_models(items@), items@.len()) + close@,
    decreases items, 0nat,
{
    let ghost parts = value_models(items@);
    let mut text = String::from_str(open);
    let mut k: usize = 0;
    while k < items.len()
        invariant
            k <= items@.len(),
            parts == value_models(items@),
            text@ == open@ + joined_value_texts(parts, k as nat),
        decreases items@.len() - k,
    {
        assert(parts[k as int] == items@[k as int]@);
        let ghost before = text@;
        let part = write_value(&items[k]);
        if k > 0 {
            text = text.concat(",");
        }
        text = text.concat(part.as_str());
        proof {
            reveal_strlit(",");
            let joined = joined_value_texts(parts, k as nat);
            if k == 0 {
                assert(joined =~= Seq::<char>::empty());
                assert(text@ =~= open@ + part@);
            } else {
                assert(text@ =~= open@ + (joined + seq![','] + part@));
            }
        }
        k += 1;
    }
    text.concat(close)
}

/// Writes the text of a value.
pub fn write_value(value: &TypedValue) -> (text: String)
    ensures
        text@ == value_text(value@),
    decreases value, 1nat,
{
    proof {
        value.lemma_parts();
        reveal_strlit("[");
        reveal_strlit("]");
        reveal_strlit("(");
        reveal_strlit(")");
    }
    match value {
        TypedValue::Address(bytes) => encode_hex(bytes),
        TypedValue::Bool(truth) => if *truth {
            String::from_str("true")
        } else {
            String::from_str("false")
        },
        TypedValue::Uint(word, _) => decimal_of_bytes(word),
        TypedValue::Int(word, _) => signed_decimal_of_bytes(word),
        TypedValue::FixedBytes(word, size) => encode_hex(&copy_leading_bytes(word, *size)),
        TypedValue::Bytes(bytes) => encode_hex(bytes),
        TypedValue::String(text) => text.clone(),
        TypedValue::Function(bytes) => encode_hex(bytes),
        TypedValue::Array(items) => write_items(items, "[", "]"),
        TypedValue::FixedArray(items) => write_items(items, "[", "]"),
        TypedValue::Tuple(items) => write_items(items, "(", ")"),
    }
}

} // verus!
