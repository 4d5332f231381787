//! The textual form of byte values at the boundary of the client: lowercase
//! hexadecimal digits behind a `0x` prefix.

use crate::types::{Address, Error};
use vstd::prelude::*;
use vstd::slice::slice_subrange;
use vstd::utf8::{encode_utf8, is_ascii_chars, is_ascii_chars_encode_utf8};

verus! {

#[verifier::external_type_specification]
#[verifier::external_body]
pub struct ExFromHexError(hex::FromHexError);

/// The lowercase hexadecimal digit of a value below 16.
pub open spec fn hex_digit(value: int) -> char {
    seq!['0', '1', '2', '3', '4', '5', '6', '7', '8', '9', 'a', 'b', 'c', 'd', 'e', 'f'][value]
}

/// The hexadecimal text of `data`: two lowercase digits for each byte, the
/// high half first.
pub open spec fn hex_text(data: Seq<u8>) -> Seq<char> {
    Seq::new(
        2 * data.len(),
        |i: int|
            if i % 2 == 0 {
                hex_digit(data[i / 2] as int / 16)
            } else {
                hex_digit(data[i / 2] as int % 16)
            },
    )
}

/// The value of a hexadecimal digit, in either case, given as a byte of text.
pub open spec fn hex_value(digit: u8) -> Option<int> {
    if 0x30 <= digit <= 0x39 {
        Some(digit - 0x30)
    } else if 0x61 <= digit <= 0x66 {
        Some(digit - 0x61 + 10)
    } else if 0x41 <= digit <= 0x46 {
        Some(digit - 0x41 + 10)
    } else {
        None
    }
}

/// An even number of hexadecimal digits.
pub open spec fn is_hex_text(text: Seq<u8>) -> bool {
    text.len() % 2 == 0 && forall|i: int| 0 <= i < text.len() ==> hex_value(#[trigger] text[i]) is Some
}

/// The bytes that hexadecimal text stands for: one for each pair of digits.
pub open spec fn hex_bytes(text: Seq<u8>) -> Seq<u8> {
    Seq::new(
        text.len() / 2,
        |i: int| (hex_value(text[2 * i]).unwrap() * 16 + hex_value(text[2 * i + 1]).unwrap()) as u8,
    )
}

/// The two characters that introduce hexadecimal text.
pub open spec fn prefix() -> Seq<char> {
    seq!['0', 'x']
}

/// The text without the `0x` it may begin with.
pub open spec fn without_prefix(text: Seq<u8>) -> Seq<u8> {
    if text.len() >= 2 && text[0] == 0x30 && text[1] == 0x78 {
        text.skip(2)
    } else {
        text
    }
}

/// The bytes that a text with or without prefix stands for, given the bytes
/// of the text.
pub open spec fn decoded_hex(text: Seq<u8>) -> Result<Seq<u8>, Error> {
    if is_hex_text(without_prefix(text)) {
        Ok(hex_bytes(without_prefix(text)))
    } else {
        Err(Error::InvalidHex)
    }
}

/// The bytes that a text with or without prefix stands for: those that its
/// UTF-8 encoding, which for digits is one byte for each character, decodes to.
pub open spec fn decoded_text(text: Seq<char>) -> Result<Seq<u8>, Error> {
    decoded_hex(encode_utf8(text))
}

/// Calls `hex::encode`.
///
/// Trusted: the text it returns holds, for each byte in turn, the lowercase
/// digit of its high half and the one of its low half.
#[verifier::external_body]
pub(crate) fn hex_encode(data: &[u8]) -> (res: String)
    ensures
        res@ == hex_text(data@),
{
    hex::encode(data)
}

/// Calls `hex::decode` on the bytes of a text.
///
/// Trusted: it succeeds on an even number of digits `0-9`, `a-f`, `A-F` and
/// on nothing else, and then returns one byte for each pair of digits, the
/// first digit being the high half.
#[verifier::external_body]
pub(crate) fn hex_decode(text: &[u8]) -> (res: Result<Vec<u8>, hex::FromHexError>)
    ensures
        res is Ok <==> is_hex_text(text@),
        res matches Ok(bytes) ==> bytes@ == hex_bytes(text@),
{
    hex::decode(text)
}

/// Decodes hexadecimal text, with or without a leading `0x`, into the bytes
/// it stands for.
pub fn hex_str_to_bytes(s: &str) -> (res: Result<Vec<u8>, Error>)
    ensures
        match res {
            Ok(bytes) => decoded_text(s@) == Ok::<Seq<u8>, Error>(bytes@),
            Err(e) => decoded_text(s@) == Err::<Seq<u8>, Error>(e),
        },
{
    let text = s.as_bytes();
    let digits = if text.len() >= 2 && text[0] == 0x30 && text[1] == 0x78 {
        slice_subrange(text, 2, text.len())
    } else {
        text
    };
    assert(digits@ =~= without_prefix(text@));
    match hex_decode(digits) {
        Ok(bytes) => Ok(bytes),
        Err(_) => Err(Error::InvalidHex),
    }
}

/// A digit is a character of one byte, which has the value it is the digit
/// of and is not the `x` of the prefix.
proof fn lemma_digit_value(value: int)
    requires
        0 <= value < 16,
    ensures
        '\0' <= hex_digit(value) <= '\u{7f}',
        hex_value(hex_digit(value) as u8) == Some(value),
        hex_digit(value) as u8 != 0x78,
{
}

/// The bytes of the hexadecimal text of `data` are digits that stand for
/// `data`.
proof fn lemma_text_decodes(data: Seq<u8>, text: Seq<u8>)
    requires
        text.len() == 2 * data.len(),
        forall|i: int| 0 <= i < text.len() ==> #[trigger] text[i] == hex_text(data)[i] as u8,
    ensures
        is_hex_text(text),
        hex_bytes(text) == data,
        without_prefix(text) == text,
{
    assert forall|i: int| 0 <= i < text.len() implies hex_value(#[trigger] text[i]) is Some by {
        lemma_digit_value(data[i / 2] as int / 16);
        lemma_digit_value(data[i / 2] as int % 16);
    }
    assert forall|i: int| 0 <= i < data.len() implies #[trigger] hex_bytes(text)[i] == data[i] by {
        lemma_digit_value(data[i] as int / 16);
        lemma_digit_value(data[i] as int % 16);
        assert(text[2 * i] == hex_text(data)[2 * i] as u8);
        assert(text[2 * i + 1] == hex_text(data)[2 * i + 1] as u8);
    }
    assert(hex_bytes(text) =~= data);
    if text.len() >= 2 {
        lemma_digit_value(data[0] as int % 16);
        assert(text[1] == hex_text(data)[1] as u8);
    }
}

/// Decoding the hexadecimal text of any bytes gives the bytes back, whether
/// the text carries the prefix or not.
pub proof fn hex_round_trip(data: Seq<u8>)
    ensures
        decoded_text(hex_text(data)) == Ok::<Seq<u8>, Error>(data),
        decoded_text(prefix() + hex_text(data)) == Ok::<Seq<u8>, Error>(data),
{
    let bare = hex_text(data);
    assert(is_ascii_chars(bare)) by {
        assert forall|i: int| 0 <= i < bare.len() implies '\0' <= #[trigger] bare[i] <= '\u{7f}' by {
            lemma_digit_value(data[i / 2] as int / 16);
            lemma_digit_value(data[i / 2] as int % 16);
        }
    }
    is_ascii_chars_encode_utf8(bare);
    lemma_text_decodes(data, encode_utf8(bare));

    let full = prefix() + bare;
    assert(is_ascii_chars(full)) by {
        assert forall|i: int| 0 <= i < full.len() implies '\0' <= #[trigger] full[i] <= '\u{7f}' by {
            if i >= 2 {
                assert(full[i] == bare[i - 2]);
            }
        }
    }
    is_ascii_chars_encode_utf8(full);
    let text = encode_utf8(full);
    assert(text[0] == full[0] as u8);
    assert(text[1] == full[1] as u8);
    let digits = text.skip(2);
    assert(without_prefix(text) == digits);
    assert forall|i: int| 0 <= i < digits.len() implies #[trigger] digits[i] == bare[i] as u8 by {
        assert(digits[i] == text[i + 2]);
        assert(text[i + 2] == full[i + 2] as u8);
        assert(full[i + 2] == bare[i]);
    }
    lemma_text_decodes(data, digits);
}

/// A new text that holds the prefix only.
fn prefix_text() -> (text: String)
    ensures
        text@ == prefix(),
{
    proof {
        reveal_strlit("0x");
    }
    let text = String::from_str("0x");
    assert(text@ =~= prefix());
    text
}

/// Encodes bytes as their hexadecimal text behind the prefix.
fn prefixed_hex(data: &[u8]) -> (text: String)
    ensures
        text@ == prefix() + hex_text(data@),
{
    let mut text = prefix_text();
    let digits = hex_encode(data);
    text.append(digits.as_str());
    text
}

/// The text of an address: the prefix and the 40 digits of its 20 bytes.
pub fn address_to_hex_string(address: &Address) -> (text: String)
    ensures
        text@ == prefix() + hex_text(address@),
{
    prefixed_hex(address.bytes.as_slice())
}

/// The text that stands for `bytes` when they are written out: the prefix
/// and two digits for each byte.
pub fn bytes_serialize(bytes: &Vec<u8>) -> (text: String)
    ensures
        text@ == prefix() + hex_text(bytes@),
{
    prefixed_hex(bytes.as_slice())
}

/// The bytes that a text read in stands for. The text must be hexadecimal,
/// with or without prefix.
pub fn bytes_deserialize(text: &str) -> (bytes: Vec<u8>)
    requires
        decoded_text(text@) is Ok,
    ensures
        decoded_text(text@) == Ok::<Seq<u8>, Error>(bytes@),
{
    match hex_str_to_bytes(text) {
        Ok(bytes) => bytes,
        Err(_) => Vec::new(),
    }
}

/// The bytes that an optional text read in stands for, where there is one.
/// A text that is there must be hexadecimal, with or without prefix.
pub fn bytes_opt_deserialize(text: Option<String>) -> (bytes: Option<Vec<u8>>)
    requires
        text matches Some(t) ==> decoded_text(t@) is Ok,
    ensures
        match text {
            Some(t) => bytes matches Some(b) && decoded_text(t@) == Ok::<
                Seq<u8>,
                Error,
            >(b@),
            None => bytes is None,
        },
{
    match text {
        Some(t) => Some(bytes_deserialize(t.as_str())),
        None => None,
    }
}

/// The hexadecimal digits of a number, without leading zeros.
pub open spec fn hex_digits(value: nat) -> Seq<char>
    decreases value,
{
    if value < 16 {
        seq![hex_digit(value as int)]
    } else {
        hex_digits(value / 16).push(hex_digit((value % 16) as int))
    }
}

/// The text of one hexadecimal digit.
fn digit_text(value: u64) -> (text: &'static str)
    requires
        value < 16,
    ensures
        text@ == seq![hex_digit(value as int)],
{
    proof {
        reveal_strlit("0");
        reveal_strlit("1");
        reveal_strlit("2");
        reveal_strlit("3");
        reveal_strlit("4");
        reveal_strlit("5");
        reveal_strlit("6");
        reveal_strlit("7");
        reveal_strlit("8");
        reveal_strlit("9");
        reveal_strlit("a");
        reveal_strlit("b");
        reveal_strlit("c");
        reveal_strlit("d");
        reveal_strlit("e");
        reveal_strlit("f");
    }
    let text = match value {
        0 => "0",
        1 => "1",
        2 => "2",
        3 => "3",
        4 => "4",
        5 => "5",
        6 => "6",
        7 => "7",
        8 => "8",
        9 => "9",
        10 => "a",
        11 => "b",
        12 => "c",
        13 => "d",
        14 => "e",
        _ => "f",
    };
    assert(text@ =~= seq![hex_digit(value as int)]);
    text
}

/// Appends the hexadecimal digits of `value` to `text`.
fn append_hex_digits(text: &mut String, value: u64)
    ensures
        final(text)@ == old(text)@ + hex_digits(value as nat),
    decreases value,
{
    if value < 16 {
        text.append(digit_text(value));
    } else {
        append_hex_digits(text, value / 16);
        text.append(digit_text(value % 16));
        assert(text@ =~= old(text)@ + hex_digits(value as nat));
    }
}

/// The text of a number: the prefix and its hexadecimal digits, without
/// leading zeros.
pub fn u64_to_hex_string(val: u64) -> (text: String)
    ensures
        text@ == prefix() + hex_digits(val as nat),
{
    let mut text = prefix_text();
    append_hex_digits(&mut text, val);
    text
}

} // verus!
