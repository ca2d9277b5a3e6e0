//! Bytes written as hexadecimal text.

use vstd::prelude::*;

verus! {

/// Why a text is no hexadecimal text.
#[derive(Clone, Copy, Debug, PartialEq, Eq)]
pub enum HexError {
    /// The text has an odd number of bytes.
    OddLength,
    /// The byte at `index` is `c`, which is no hexadecimal digit.
    InvalidHexCharacter { c: char, index: usize },
    /// The text has the wrong length for an output of fixed size.
    InvalidStringLength,
}

/// The lower case hexadecimal digit of value `v`.
pub open spec fn lower_digit(v: int) -> char {
    if v < 10 {
        (48 + v) as char
    } else {
        (87 + v) as char
    }
}

/// The upper case hexadecimal digit of value `v`.
pub open spec fn upper_digit(v: int) -> char {
    if v < 10 {
        (48 + v) as char
    } else {
        (55 + v) as char
    }
}

/// The value of the half byte that digit `i` of the text of `data` stands for.
pub open spec fn half_byte(data: Seq<u8>, i: int) -> int {
    if i % 2 == 0 {
        data[i / 2] as int / 16
    } else {
        data[i / 2] as int % 16
    }
}

/// `data` in lower case hexadecimal, two digits for each byte.
pub open spec fn hex_text(data: Seq<u8>) -> Seq<char> {
    Seq::new(2 * data.len(), |i: int| lower_digit(half_byte(data, i)))
}

/// `data` in upper case hexadecimal, two digits for each byte.
pub open spec fn hex_upper_text(data: Seq<u8>) -> Seq<char> {
    Seq::new(2 * data.len(), |i: int| upper_digit(half_byte(data, i)))
}

/// Whether `text` is made of lower case hexadecimal digits.
pub open spec fn is_lower_hex(text: Seq<char>) -> bool {
    forall|i: int|
        0 <= i < text.len() ==> ('0' <= #[trigger] text[i] <= '9' || 'a' <= text[i] <= 'f')
}

/// Bytes in lower case hexadecimal are two such digits for each byte.
pub proof fn lemma_hex_text_digits(data: Seq<u8>)
    ensures
        hex_text(data).len() == 2 * data.len(),
        is_lower_hex(hex_text(data)),
{
    let text = hex_text(data);
    assert forall|i: int| 0 <= i < text.len() implies ('0' <= #[trigger] text[i] <= '9' || 'a'
        <= text[i] <= 'f') by {
        assert(0 <= half_byte(data, i) < 16);
    }
}

/// The value of a hexadecimal digit of either case, or -1 for any other byte.
pub open spec fn digit_value(c: u8) -> int {
    if 48 <= c <= 57 {
        c - 48
    } else if 65 <= c <= 70 {
        c - 55
    } else if 97 <= c <= 102 {
        c - 87
    } else {
        -1
    }
}

/// The number of hexadecimal digits before the first other byte.
pub open spec fn leading_digits(bytes: Seq<u8>) -> nat
    decreases bytes.len(),
{
    if bytes.len() == 0 || digit_value(bytes.first()) < 0 {
        0
    } else {
        1 + leading_digits(bytes.drop_first())
    }
}

/// What the bytes of a hexadecimal text stand for, or why they are none.
pub open spec fn hex_octets(bytes: Seq<u8>) -> Result<Seq<u8>, HexError> {
    let digits = leading_digits(bytes);
    if bytes.len() % 2 != 0 {
        Err(HexError::OddLength)
    } else if digits < bytes.len() {
        Err(
            HexError::InvalidHexCharacter {
                c: bytes[digits as int] as char,
                index: digits as usize,
            },
        )
    } else {
        Ok(
            Seq::new(
                bytes.len() / 2,
                |i: int| (16 * digit_value(bytes[2 * i]) + digit_value(bytes[2 * i + 1])) as u8,
            ),
        )
    }
}

/// What the hexadecimal text `text` stands for, or why it is none.
pub open spec fn hex_bytes(text: Seq<char>) -> Result<Seq<u8>, HexError> {
    hex_octets(vstd::utf8::encode_utf8(text))
}

/// What `hex::FromHexError` says of itself.
pub uninterp spec fn hex_error_text(e: HexError) -> Seq<char>;

/// Trusted: `hex::encode` writes each byte as two lower case digits, the high half first.
#[verifier::external_body]
pub(crate) fn hex_encode(data: &[u8]) -> (r: String)
    ensures
        r@ == hex_text(data@),
{
    hex::encode(data)
}

/// Trusted: `hex::encode_upper` writes each byte as two upper case digits, the high half first.
#[verifier::external_body]
pub(crate) fn hex_encode_upper(data: &[u8]) -> (r: String)
    ensures
        r@ == hex_upper_text(data@),
{
    hex::encode_upper(data)
}

/// Trusted: `hex::decode` takes digits of either case. It refuses a text of odd length in bytes,
/// and else names the first byte that is no digit.
#[verifier::external_body]
pub(crate) fn hex_decode(text: &[u8]) -> (r: Result<Vec<u8>, HexError>)
    ensures
        match r {
            Ok(bytes) => hex_octets(text@) == Ok::<Seq<u8>, HexError>(bytes@),
            Err(e) => hex_octets(text@) == Err::<Seq<u8>, HexError>(e),
        },
{
    hex::decode(text).map_err(|e| match e {
        hex::FromHexError::OddLength => HexError::OddLength,
        hex::FromHexError::InvalidHexCharacter { c, index } => HexError::InvalidHexCharacter { c, index },
        hex::FromHexError::InvalidStringLength => HexError::InvalidStringLength,
    })
}

/// Trusted: the text that `hex::FromHexError` is displayed as. It is fixed for an odd length and
/// for a wrong length; a byte that is no digit is named in it as a debug text, which is not spelled
/// out here.
#[verifier::external_body]
pub(crate) fn hex_error_message(e: HexError) -> (r: String)
    ensures
        r@ == hex_error_text(e),
        e is OddLength ==> r@ == "Odd number of digits"@,
        e is InvalidStringLength ==> r@ == "Invalid string length"@,
{
    let outside = match e {
        HexError::OddLength => hex::FromHexError::OddLength,
        HexError::InvalidHexCharacter { c, index } => hex::FromHexError::InvalidHexCharacter { c, index },
        HexError::InvalidStringLength => hex::FromHexError::InvalidStringLength,
    };
    outside.to_string()
}

proof fn lemma_all_digits(bytes: Seq<u8>)
    requires
        forall|i: int| 0 <= i < bytes.len() ==> digit_value(#[trigger] bytes[i]) >= 0,
    ensures
        leading_digits(bytes) == bytes.len(),
    decreases bytes.len(),
{
    if bytes.len() > 0 {
        assert(digit_value(bytes[0]) >= 0);
        assert forall|i: int| 0 <= i < bytes.drop_first().len() implies digit_value(
            #[trigger] bytes.drop_first()[i],
        ) >= 0 by {
            assert(bytes.drop_first()[i] == bytes[i + 1]);
        }
        lemma_all_digits(bytes.drop_first());
    }
}

/// Bytes read back from their hexadecimal text are the bytes that were written.
pub proof fn lemma_hex_round_trip(data: Seq<u8>)
    ensures
        hex_bytes(hex_text(data)) == Ok::<Seq<u8>, HexError>(data),
{
    let text = hex_text(data);
    assert(vstd::utf8::is_ascii_chars(text));
    vstd::utf8::is_ascii_chars_encode_utf8(text);
    let bytes = vstd::utf8::encode_utf8(text);
    assert(bytes.len() == 2 * data.len());
    assert forall|i: int| 0 <= i < bytes.len() implies digit_value(#[trigger] bytes[i])
        == half_byte(data, i) by {
        assert(bytes[i] == text[i] as u8);
        assert(0 <= half_byte(data, i) < 16);
    }
    assert forall|i: int| 0 <= i < bytes.len() implies digit_value(#[trigger] bytes[i]) >= 0 by {
        assert(digit_value(bytes[i]) == half_byte(data, i));
    }
    lemma_all_digits(bytes);
    let back = Seq::new(
        bytes.len() / 2,
        |i: int| (16 * digit_value(bytes[2 * i]) + digit_value(bytes[2 * i + 1])) as u8,
    );
    assert forall|i: int| 0 <= i < data.len() implies back[i] == data[i] by {
        assert(digit_value(bytes[2 * i]) == half_byte(data, 2 * i));
        assert(digit_value(bytes[2 * i + 1]) == half_byte(data, 2 * i + 1));
        assert((2 * i) / 2 == i);
        assert((2 * i + 1) / 2 == i);
    }
    assert(back =~= data);
}

/// Different bytes have different hexadecimal texts.
pub proof fn lemma_hex_injective(a: Seq<u8>, b: Seq<u8>)
    requires
        hex_text(a) == hex_text(b),
    ensures
        a == b,
{
    lemma_hex_round_trip(a);
    lemma_hex_round_trip(b);
}

} // verus!
