//! Hexadecimal text and byte order.
//!
//! Text is modelled by its UTF-8 bytes (`spec_bytes` of a `str`), since the
//! hex coder reads bytes and reports positions in bytes.

use vstd::prelude::*;
use vstd::string::StringSliceAdditionalSpecFns;

verus! {

/// Why a text is not the hexadecimal form of a byte sequence.
#[derive(Debug, Clone, Copy, PartialEq, Eq, Structural)]
pub enum HexError {
    /// The byte at `index` is no hexadecimal digit; `c` is the character with
    /// that byte's value as its code point.
    InvalidHexCharacter { c: char, index: usize },
    /// The text has an odd number of bytes.
    OddLength,
    /// The text does not fit a container of fixed size.
    InvalidStringLength,
}

/// The lower-case digit that stands for `n`, for `0 <= n < 16`.
pub open spec fn hex_digit(n: int) -> char {
    if n < 10 {
        ((0x30 + n) as u8) as char
    } else {
        ((0x61 + n - 10) as u8) as char
    }
}

/// The value of the digit `c`, in either case, or `None` where `c` is no
/// hexadecimal digit.
pub open spec fn hex_value(c: u8) -> Option<int> {
    if 0x30 <= c <= 0x39 {
        Some(c - 0x30)
    } else if 0x61 <= c <= 0x66 {
        Some(c - 0x61 + 10)
    } else if 0x41 <= c <= 0x46 {
        Some(c - 0x41 + 10)
    } else {
        None
    }
}

/// The hexadecimal form of `bytes`: two lower-case digits for each byte,
/// the high half first.
pub open spec fn encoded(bytes: Seq<u8>) -> Seq<char> {
    Seq::new(
        2 * bytes.len(),
        |i: int|
            if i % 2 == 0 {
                hex_digit(bytes[i / 2] as int / 16)
            } else {
                hex_digit(bytes[i / 2] as int % 16)
            },
    )
}

/// The number of hexadecimal digits that `text` begins with.
pub open spec fn digit_run(text: Seq<u8>) -> nat
    decreases text.len(),
{
    if text.len() == 0 || hex_value(text[0]) is None {
        0
    } else {
        1 + digit_run(text.drop_first())
    }
}

/// The bytes that a text of hexadecimal digits stands for, one for each
/// pair of digits.
pub open spec fn paired(text: Seq<u8>) -> Seq<u8> {
    Seq::new(
        text.len() / 2,
        |i: int| (hex_value(text[2 * i]).unwrap() * 16 + hex_value(text[2 * i + 1]).unwrap()) as u8,
    )
}

/// What decoding `text` gives: an odd length is refused before any digit is
/// looked at; otherwise the first byte that is no digit is reported, and a
/// text of digits alone yields its bytes.
pub open spec fn decoded(text: Seq<u8>) -> Result<Seq<u8>, HexError> {
    if text.len() % 2 != 0 {
        Err(HexError::OddLength)
    } else if digit_run(text) < text.len() {
        Err(
            HexError::InvalidHexCharacter {
                c: text[digit_run(text) as int] as char,
                index: digit_run(text) as usize,
            },
        )
    } else {
        Ok(paired(text))
    }
}

/// The model of an executable decoding result.
pub open spec fn decoding_view(r: Result<Vec<u8>, HexError>) -> Result<Seq<u8>, HexError> {
    match r {
        Ok(v) => Ok(v@),
        Err(e) => Err(e),
    }
}

/// `hex::encode` on a byte slice. Trusted: the string holds two lower-case
/// digits per byte, taken from the high and the low four bits in that order.
#[verifier::external_body]
fn hex_encode(bytes: &[u8]) -> (s: String)
    ensures
        s@ == encoded(bytes@),
{
    hex::encode(bytes)
}

/// `hex::decode` on the bytes of a text. Trusted: an odd length gives
/// `OddLength`; else the pairs are read in order, each byte through the
/// crate's digit table, and the first byte that is no digit is reported with
/// its position; else each pair gives the byte `16 * high + low`.
#[verifier::external_body]
fn hex_decode(text: &[u8]) -> (r: Result<Vec<u8>, HexError>)
    ensures
        decoding_view(r) == decoded(text@),
{
    match hex::decode(text) {
        Ok(bytes) => Ok(bytes),
        Err(hex::FromHexError::InvalidHexCharacter { c, index }) => Err(
            HexError::InvalidHexCharacter { c, index },
        ),
        Err(hex::FromHexError::OddLength) => Err(HexError::OddLength),
        Err(hex::FromHexError::InvalidStringLength) => Err(HexError::InvalidStringLength),
    }
}

/// A character in its debug form, as `{:?}` writes it: between single
/// quotes, and escaped where it would not show.
pub uninterp spec fn char_debug_text(c: char) -> Seq<char>;

/// A number in decimal, without leading zeros.
pub open spec fn decimal_text(n: nat) -> Seq<char>
    decreases n,
{
    if n < 10 {
        seq![((0x30 + n) as u8) as char]
    } else {
        decimal_text(n / 10).push(((0x30 + n % 10) as u8) as char)
    }
}

/// The message that describes a decoding error.
pub open spec fn error_text(e: HexError) -> Seq<char> {
    match e {
        HexError::InvalidHexCharacter { c, index } => "Invalid character "@ + char_debug_text(c)
            + " at position "@ + decimal_text(index as nat),
        HexError::OddLength => "Odd number of digits"@,
        HexError::InvalidStringLength => "Invalid string length"@,
    }
}

/// The `Display` text of `hex::FromHexError`. Trusted: the two errors of
/// length have fixed messages; the message for a character is a fixed
/// sentence around the character's debug form and its position in decimal.
#[verifier::external_body]
fn hex_error_text(e: HexError) -> (s: String)
    ensures
        s@ == match e {
            HexError::InvalidHexCharacter { c, index } => "Invalid character "@ + char_debug_text(c)
                + " at position "@ + decimal_text(index as nat),
            HexError::OddLength => "Odd number of digits"@,
            HexError::InvalidStringLength => "Invalid string length"@,
        },
{
    let outside = match e {
        HexError::InvalidHexCharacter { c, index } => hex::FromHexError::InvalidHexCharacter {
            c,
            index,
        },
        HexError::OddLength => hex::FromHexError::OddLength,
        HexError::InvalidStringLength => hex::FromHexError::InvalidStringLength,
    };
    outside.to_string()
}

/// The model of a decoding result whose error is a message.
pub open spec fn message_view(r: Result<Vec<u8>, String>) -> Result<Seq<u8>, Seq<char>> {
    match r {
        Ok(v) => Ok(v@),
        Err(msg) => Err(msg@),
    }
}

/// A decoding result with its error replaced by the error's message.
pub open spec fn described(d: Result<Seq<u8>, HexError>) -> Result<Seq<u8>, Seq<char>> {
    match d {
        Ok(bytes) => Ok(bytes),
        Err(e) => Err(error_text(e)),
    }
}

/// Decodes hexadecimal text, in either case, and reports a failure as a
/// message. It decodes as `hex_to_bytes` does; the two differ in the form of
/// the error alone.
pub fn decode_hex(hex_str: &str) -> (r: Result<Vec<u8>, String>)
    ensures
        message_view(r) == described(decoded(hex_str.spec_bytes())),
{
    match hex_decode(hex_str.as_bytes()) {
        Ok(bytes) => Ok(bytes),
        Err(e) => Err(hex_error_text(e)),
    }
}

/// The four bytes of `num`, the least significant first.
pub open spec fn little_endian(num: u32) -> Seq<u8> {
    seq![
        (num % 0x100) as u8,
        (num / 0x100 % 0x100) as u8,
        (num / 0x1_0000 % 0x100) as u8,
        (num / 0x100_0000) as u8,
    ]
}

/// The little-endian bytes of a 32-bit value, whatever the byte order of the
/// machine.
pub fn swap_endian_u32(num: u32) -> (out: [u8; 4])
    ensures
        out@ == little_endian(num),
{
    let out: [u8; 4] = [
        (num % 0x100) as u8,
        (num / 0x100 % 0x100) as u8,
        (num / 0x1_0000 % 0x100) as u8,
        (num / 0x100_0000) as u8,
    ];
    assert(out@ =~= little_endian(num));
    out
}

/// The bytes in reverse order, in a new vector.
pub fn to_big_endian(bytes: &[u8]) -> (out: Vec<u8>)
    ensures
        out@ == bytes@.reverse(),
{
    let n: usize = bytes.len();
    let mut out: Vec<u8> = Vec::with_capacity(n);
    let mut i: usize = n;
    while i > 0
        invariant
            i <= n,
            n == bytes@.len(),
            out@.len() == n - i,
            forall|k: int| 0 <= k < out@.len() ==> out@[k] == bytes@[n - 1 - k],
        decreases i,
    {
        i -= 1;
        out.push(bytes[i]);
    }
    assert(out@ =~= bytes@.reverse());
    out
}

/// Reversing twice gives the sequence back.
pub proof fn lemma_reverse_involution(bytes: Seq<u8>)
    ensures
        bytes.reverse().reverse() == bytes,
{
    assert(bytes.reverse().reverse() =~= bytes);
}

/// Encodes bytes as lower-case hexadecimal text.
pub fn bytes_to_hex(bytes: &[u8]) -> (s: String)
    ensures
        s@ == encoded(bytes@),
{
    hex_encode(bytes)
}

/// Decodes hexadecimal text, in either case, and reports a failure as a
/// structured error. It decodes as `decode_hex` does; the two differ in the
/// form of the error alone.
pub fn hex_to_bytes(hex: &str) -> (r: Result<Vec<u8>, HexError>)
    ensures
        decoding_view(r) == decoded(hex.spec_bytes()),
{
    hex_decode(hex.as_bytes())
}

/// What `digit_run` counts: every byte before it is a digit, and the byte at
/// it, if there is one, is none.
pub proof fn lemma_digit_run(text: Seq<u8>)
    ensures
        digit_run(text) <= text.len(),
        forall|j: int| 0 <= j < digit_run(text) ==> hex_value(#[trigger] text[j]) is Some,
        digit_run(text) < text.len() ==> hex_value(text[digit_run(text) as int]) is None,
    decreases text.len(),
{
    if text.len() == 0 || hex_value(text[0]) is None {
    } else {
        let rest = text.drop_first();
        lemma_digit_run(rest);
        assert forall|j: int| 0 <= j < digit_run(text) implies hex_value(
            #[trigger] text[j],
        ) is Some by {
            if j > 0 {
                assert(text[j] == rest[j - 1]);
            }
        }
        if digit_run(text) < text.len() {
            assert(text[digit_run(text) as int] == rest[digit_run(rest) as int]);
        }
    }
}

/// A text of digits alone is one run of digits.
pub proof fn lemma_digit_run_full(text: Seq<u8>)
    requires
        forall|j: int| 0 <= j < text.len() ==> hex_value(#[trigger] text[j]) is Some,
    ensures
        digit_run(text) == text.len(),
{
    lemma_digit_run(text);
}

/// The digits of an encoded byte sequence, as the bytes of the text: each is
/// an ASCII digit whose value is the half byte it stands for.
pub proof fn lemma_encoded_bytes(bytes: Seq<u8>)
    ensures
        vstd::utf8::is_ascii_chars(encoded(bytes)),
        vstd::utf8::encode_utf8(encoded(bytes)).len() == 2 * bytes.len(),
        forall|i: int|
            0 <= i < bytes.len() ==> {
                &&& hex_value(#[trigger] vstd::utf8::encode_utf8(encoded(bytes))[2 * i]) == Some(
                    bytes[i] as int / 16,
                )
                &&& hex_value(vstd::utf8::encode_utf8(encoded(bytes))[2 * i + 1]) == Some(
                    bytes[i] as int % 16,
                )
            },
{
    let chars = encoded(bytes);
    assert forall|n: int| 0 <= n < 16 implies '\0' <= #[trigger] hex_digit(n) <= '\u{7f}'
        && hex_value(hex_digit(n) as u8) == Some(n) by {}
    assert(vstd::utf8::is_ascii_chars(chars));
    vstd::utf8::is_ascii_chars_encode_utf8(chars);
    let text = vstd::utf8::encode_utf8(chars);
    assert forall|i: int| 0 <= i < bytes.len() implies {
        &&& hex_value(#[trigger] text[2 * i]) == Some(bytes[i] as int / 16)
        &&& hex_value(text[2 * i + 1]) == Some(bytes[i] as int % 16)
    } by {
        assert(text[2 * i] == chars[2 * i] as u8);
        assert(text[2 * i + 1] == chars[2 * i + 1] as u8);
        assert(chars[2 * i] == hex_digit(bytes[i] as int / 16));
        assert(chars[2 * i + 1] == hex_digit(bytes[i] as int % 16));
    }
}

/// Decoding the hexadecimal form of any byte sequence succeeds and gives the
/// sequence back.
pub proof fn lemma_decode_encoded(bytes: Seq<u8>)
    ensures
        decoded(vstd::utf8::encode_utf8(encoded(bytes))) == Ok::<Seq<u8>, HexError>(bytes),
{
    lemma_encoded_bytes(bytes);
    let text = vstd::utf8::encode_utf8(encoded(bytes));
    assert forall|j: int| 0 <= j < text.len() implies hex_value(#[trigger] text[j]) is Some by {
        let i = j / 2;
        assert(hex_value(text[2 * i]) is Some);
        assert(hex_value(text[2 * i + 1]) is Some);
    }
    lemma_digit_run_full(text);
    assert(paired(text) =~= bytes);
}

} // verus!
