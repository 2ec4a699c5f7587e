//! Base 16 in upper case, the form in which keys are written to key files.

use crate::text::{decimal, decimal_text};
use vstd::prelude::*;
use vstd::string::StringExecFns;
use vstd::string::StringSliceAdditionalSpecFns;
use vstd::utf8::{encode_utf8, is_ascii_chars, is_ascii_chars_encode_utf8};

verus! {

/// The symbol for the digit `v`: `0` to `9`, then `A` to `F`.
pub open spec fn hex_symbol(v: int) -> u8 {
    if v < 10 {
        (48 + v) as u8
    } else {
        (55 + v) as u8
    }
}

/// Whether `sym` is one of `0` to `9` or `A` to `F`.
pub open spec fn is_hex_symbol(sym: u8) -> bool {
    (48 <= sym <= 57) || (65 <= sym <= 70)
}

/// The digit that the symbol `sym` stands for.
pub open spec fn hex_value(sym: u8) -> int {
    if sym <= 57 {
        sym - 48
    } else {
        sym - 55
    }
}

/// Whether `text` is made of base 16 symbols alone.
pub open spec fn is_hex(text: Seq<u8>) -> bool {
    forall|i: int| 0 <= i < text.len() ==> is_hex_symbol(#[trigger] text[i])
}

/// The base 16 form of `data`: two symbols for each byte, the high digit
/// first.
pub open spec fn hex_text(data: Seq<u8>) -> Seq<u8> {
    Seq::new(
        2 * data.len(),
        |i: int|
            if i % 2 == 0 {
                hex_symbol(data[i / 2] as int / 16)
            } else {
                hex_symbol(data[i / 2] as int % 16)
            },
    )
}

/// The bytes that `text` is the base 16 form of.
pub open spec fn hex_data(text: Seq<u8>) -> Seq<u8> {
    Seq::new(
        text.len() / 2,
        |i: int| (16 * hex_value(text[2 * i]) + hex_value(text[2 * i + 1])) as u8,
    )
}

/// The symbols `text` as characters.
pub open spec fn as_chars(text: Seq<u8>) -> Seq<char> {
    Seq::new(text.len(), |i: int| text[i] as char)
}

/// Why a text is not the base 16 form of anything.
#[derive(Clone, Copy, Debug, PartialEq, Eq, Structural)]
pub enum HexError {
    /// The text has an odd number of symbols.
    BadLength,
    /// The symbol at this place is none of base 16.
    BadCharacter(usize),
    /// The text ends in padding that hides set bits. Base 16 has no
    /// padding: this never comes up.
    BadPadding,
}

/// The place of the first symbol of `text` that is none of base 16.
pub open spec fn first_bad(text: Seq<u8>) -> int {
    choose|at: int| 0 <= at < text.len() && !is_hex_symbol(text[at]) && is_hex(text.take(at))
}

impl HexError {
    /// The text that describes the error.
    pub open spec fn spec_to_string(&self) -> Seq<char> {
        match *self {
            HexError::BadLength => "Unexpected length"@,
            HexError::BadCharacter(at) => "Unexpected character at offset "@ + decimal(at as nat),
            HexError::BadPadding => "Non-zero padding"@,
        }
    }

    /// The text that describes the error.
    pub fn to_string(&self) -> (text: String)
        ensures
            text@ == self.spec_to_string(),
    {
        match *self {
            HexError::BadLength => String::from_str("Unexpected length"),
            HexError::BadCharacter(at) => {
                let place = decimal_text(at as u64);
                String::from_str("Unexpected character at offset ").concat(place.as_str())
            },
            HexError::BadPadding => String::from_str("Non-zero padding"),
        }
    }
}

/// What reading `text` as base 16 gives. A text of odd length is refused
/// for its length, whatever it holds; a text of even length for the first
/// symbol that is none of base 16.
pub open spec fn hex_decoded(text: Seq<u8>, result: Result<Seq<u8>, HexError>) -> bool {
    match result {
        Ok(data) => text.len() % 2 == 0 && is_hex(text) && data == hex_data(text),
        Err(HexError::BadLength) => text.len() % 2 == 1,
        Err(HexError::BadCharacter(at)) => {
            &&& text.len() % 2 == 0
            &&& at < text.len()
            &&& !is_hex_symbol(text[at as int])
            &&& is_hex(text.take(at as int))
        },
        Err(HexError::BadPadding) => false,
    }
}

/// `data_encoding::base16::encode`: the text has two symbols of `0-9A-F`
/// for each byte of `data`, the high four bits first. The contract states
/// the whole result. The function allocates the text at once, which fails
/// for a length that no allocation can have.
#[verifier::external_body]
fn base16_encode(data: &[u8]) -> (text: String)
    requires
        2 * data@.len() <= isize::MAX,
    ensures
        text@ == as_chars(hex_text(data@)),
{
    data_encoding::base16::encode(data)
}

/// `data_encoding::base16::decode`: the bytes that `text` spells, or why it
/// spells none. The function looks at the length first and then at the
/// symbols from the front, two for each byte, and reports the first one
/// outside `0-9A-F`; lower-case digits are outside. The contract states
/// the whole result. The function never panics.
#[verifier::external_body]
fn base16_decode(text: &[u8]) -> (result: Result<Vec<u8>, HexError>)
    ensures
        hex_decoded(
            text@,
            match result {
                Ok(data) => Ok(data@),
                Err(e) => Err(e),
            },
        ),
{
    match data_encoding::base16::decode(text) {
        Ok(data) => Ok(data),
        Err(data_encoding::decode::Error::BadLength) => Err(HexError::BadLength),
        Err(data_encoding::decode::Error::BadCharacter(at)) => Err(HexError::BadCharacter(at)),
        Err(data_encoding::decode::Error::BadPadding) => Err(HexError::BadPadding),
    }
}

/// The base 16 form of `data`, in upper case and without separators. The
/// text must not be longer than anything in memory can be.
pub fn u8vec_as_hex(data: &[u8]) -> (text: String)
    requires
        2 * data@.len() <= isize::MAX,
    ensures
        text@ == as_chars(hex_text(data@)),
        is_ascii_chars(text@),
        encode_utf8(text@) == hex_text(data@),
{
    let text = base16_encode(data);
    proof {
        lemma_hex_text_is_hex(data@);
        lemma_symbols_as_text(hex_text(data@));
    }
    text
}

/// Reads `text` as base 16: the bytes it spells, or the reason why it
/// spells none.
pub fn hex_as_u8vec(text: &str) -> (result: Result<Vec<u8>, HexError>)
    ensures
        hex_decoded(
            text.spec_bytes(),
            match result {
                Ok(data) => Ok(data@),
                Err(e) => Err(e),
            },
        ),
{
    base16_decode(text.as_bytes())
}

/// Symbols below 128, taken as characters, are stored as themselves.
pub proof fn lemma_symbols_as_text(symbols: Seq<u8>)
    requires
        forall|i: int| 0 <= i < symbols.len() ==> (#[trigger] symbols[i]) < 128,
    ensures
        is_ascii_chars(as_chars(symbols)),
        encode_utf8(as_chars(symbols)) == symbols,
{
    let chars = as_chars(symbols);
    assert forall|i: int| 0 <= i < chars.len() implies '\0' <= #[trigger] chars[i] <= '\u{7f}' by {
        assert(chars[i] == symbols[i] as char);
    }
    is_ascii_chars_encode_utf8(chars);
    assert forall|i: int| 0 <= i < symbols.len() implies encode_utf8(chars)[i] == symbols[i] by {
        assert(chars[i] == symbols[i] as char);
    }
    assert(encode_utf8(chars) =~= symbols);
}

/// The base 16 form of any bytes is made of base 16 symbols, two for each
/// byte.
pub proof fn lemma_hex_text_is_hex(data: Seq<u8>)
    ensures
        is_hex(hex_text(data)),
        hex_text(data).len() == 2 * data.len(),
        forall|i: int| 0 <= i < hex_text(data).len() ==> (#[trigger] hex_text(data)[i]) < 128,
{
}

/// Each digit has a symbol of base 16, and the symbol stands for the digit.
proof fn lemma_digit_symbol(v: int)
    requires
        0 <= v < 16,
    ensures
        is_hex_symbol(hex_symbol(v)),
        hex_value(hex_symbol(v)) == v,
{
}

/// Reading back the base 16 form of any bytes gives these bytes.
pub proof fn lemma_hex_round_trip(data: Seq<u8>)
    ensures
        hex_decoded(hex_text(data), Ok(data)),
{
    lemma_hex_text_is_hex(data);
    let text = hex_text(data);
    assert forall|i: int| 0 <= i < data.len() implies #[trigger] hex_data(text)[i] == data[i] by {
        let b = data[i] as int;
        assert(text[2 * i] == hex_symbol(b / 16));
        assert(text[2 * i + 1] == hex_symbol(b % 16));
        lemma_digit_symbol(b / 16);
        lemma_digit_symbol(b % 16);
    }
    assert(hex_data(text) =~= data);
}

/// A symbol outside base 16 with none before it is the first such symbol
/// of its text, and the text is no base 16 text.
pub proof fn lemma_first_bad(text: Seq<u8>, at: int)
    requires
        0 <= at < text.len(),
        !is_hex_symbol(text[at]),
        is_hex(text.take(at)),
    ensures
        first_bad(text) == at,
        !is_hex(text),
{
    let found = first_bad(text);
    if found < at {
        assert(text.take(at)[found] == text[found]);
    }
    if at < found {
        assert(text.take(found)[at] == text[at]);
    }
}

} // verus!
