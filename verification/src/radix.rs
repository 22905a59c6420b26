//! Parsing an integer from decimal or hexadecimal text, with one error type
//! for both.

use crate::uint::{be_value, dec_parse, left_padded, FromDecStrErr, Uint};
use rustc_hex::FromHex;
use vstd::prelude::*;
use vstd::string::*;

verus! {

/// Why a hexadecimal text was not decoded.
#[derive(Clone, Copy, Debug, PartialEq, Eq, Structural)]
pub enum FromHexError {
    /// The character at the given offset is no hexadecimal digit.
    InvalidHexCharacter(char, usize),
    /// The digits do not make up whole bytes, or more bytes than the width.
    InvalidHexLength,
}

/// The two kinds of failure of a parse with a radix.
#[derive(Debug, PartialEq, Eq, Clone, Copy, Hash, Structural)]
pub enum FromStrRadixErrKind {
    Parse,
    UnsupportedRadix,
}

/// The failure of the parser that a parse with a radix handed the text to.
#[derive(Clone, Copy, Debug, PartialEq, Eq, Structural)]
pub enum FromStrRadixErrSrc {
    Hex(FromHexError),
    Dec(FromDecStrErr),
}

/// The failure of a parse with a radix: its kind and, for a text that was
/// handed to a parser, that parser's failure.
#[derive(Clone, Copy, Debug, PartialEq, Eq, Structural)]
pub struct FromStrRadixErr {
    kind: FromStrRadixErrKind,
    source: Option<FromStrRadixErrSrc>,
}

/// What `rustc_hex` decodes a text to: the bytes, or its failure.
pub uninterp spec fn rustc_from_hex(text: Seq<char>) -> Result<Seq<u8>, FromHexError>;

/// How `rustc_hex` words the failure on a character at an offset.
pub uninterp spec fn rustc_hex_character_message(ch: char, index: usize) -> Seq<char>;

/// Whether a decoding outcome in memory is the given outcome over sequences.
pub open spec fn decoded_is(
    r: Result<Vec<u8>, FromHexError>,
    s: Result<Seq<u8>, FromHexError>,
) -> bool {
    match r {
        Ok(v) => s == Ok::<Seq<u8>, FromHexError>(v@),
        Err(e) => s == Err::<Seq<u8>, FromHexError>(e),
    }
}

/// The text that is decoded for a hexadecimal text: the text itself, with a
/// zero digit in front where it has an odd number of bytes.
pub open spec fn hex_text(text: &str) -> Seq<char> {
    if text.spec_bytes().len() % 2 == 0 {
        text@
    } else {
        seq!['0'] + text@
    }
}

/// The number of `n` bytes that decoded bytes stand for. More than `n` bytes
/// are refused for their length; a failure to decode is handed on.
pub open spec fn hex_parse(decoded: Result<Seq<u8>, FromHexError>, n: nat) -> Result<
    nat,
    FromHexError,
> {
    match decoded {
        Ok(bytes) => if bytes.len() <= n {
            Ok(be_value(bytes))
        } else {
            Err(FromHexError::InvalidHexLength)
        },
        Err(e) => Err(e),
    }
}

/// What a parse with a radix gives: radix 10 and 16 hand the text to the
/// decimal and the hexadecimal parser and wrap a failure as a parse error
/// with that failure as its source; any other radix is refused unread.
pub open spec fn radix_parse(text: &str, radix: u32, n: nat) -> Result<
    nat,
    (FromStrRadixErrKind, Option<FromStrRadixErrSrc>),
> {
    if radix == 10 {
        match dec_parse(text@, n) {
            Ok(v) => Ok(v),
            Err(e) => Err((FromStrRadixErrKind::Parse, Some(FromStrRadixErrSrc::Dec(e)))),
        }
    } else if radix == 16 {
        match hex_parse(rustc_from_hex(hex_text(text)), n) {
            Ok(v) => Ok(v),
            Err(e) => Err((FromStrRadixErrKind::Parse, Some(FromStrRadixErrSrc::Hex(e)))),
        }
    } else {
        Err((FromStrRadixErrKind::UnsupportedRadix, None))
    }
}

/// The wording of a decimal parser's failure.
pub open spec fn dec_error_message(e: FromDecStrErr) -> Seq<char> {
    match e {
        FromDecStrErr::InvalidCharacter => "a character is not in the range 0-9"@,
        FromDecStrErr::InvalidLength => "the number is too large for the type"@,
    }
}

/// The wording of a hexadecimal parser's failure.
pub open spec fn hex_error_message(e: FromHexError) -> Seq<char> {
    match e {
        FromHexError::InvalidHexCharacter(ch, index) => rustc_hex_character_message(ch, index),
        FromHexError::InvalidHexLength => "Invalid input length"@,
    }
}

/// Calls `from_hex` of `rustc_hex` on the text, collecting into a vector. The
/// outcome is taken to depend on the text alone; nothing more is claimed of it.
#[verifier::external_body]
fn decode_hex_text(text: &str) -> (r: Result<Vec<u8>, FromHexError>)
    ensures
        decoded_is(r, rustc_from_hex(text@)),
{
    match text.from_hex::<Vec<u8>>() {
        Ok(bytes) => Ok(bytes),
        Err(rustc_hex::FromHexError::InvalidHexCharacter(ch, index)) => Err(
            FromHexError::InvalidHexCharacter(ch, index),
        ),
        Err(rustc_hex::FromHexError::InvalidHexLength) => Err(FromHexError::InvalidHexLength),
    }
}

/// Formats a `uint::FromDecStrErr` with its `Display`, which writes one fixed
/// sentence for each of the two failures.
#[verifier::external_body]
fn dec_error_text(e: FromDecStrErr) -> (r: String)
    ensures
        r@ == dec_error_message(e),
{
    match e {
        FromDecStrErr::InvalidCharacter => uint::FromDecStrErr::InvalidCharacter.to_string(),
        FromDecStrErr::InvalidLength => uint::FromDecStrErr::InvalidLength.to_string(),
    }
}

/// Formats a `rustc_hex::FromHexError` with its `Display`, which writes one
/// fixed sentence for a wrong length and a sentence made from the character
/// and its offset otherwise.
#[verifier::external_body]
fn hex_error_text(e: FromHexError) -> (r: String)
    ensures
        match e {
            FromHexError::InvalidHexCharacter(ch, index) => r@ == rustc_hex_character_message(
                ch,
                index,
            ),
            FromHexError::InvalidHexLength => r@ == "Invalid input length"@,
        },
{
    match e {
        FromHexError::InvalidHexCharacter(ch, index) => rustc_hex::FromHexError::InvalidHexCharacter(
            ch,
            index,
        ).to_string(),
        FromHexError::InvalidHexLength => rustc_hex::FromHexError::InvalidHexLength.to_string(),
    }
}

impl FromStrRadixErr {
    /// The kind of the failure.
    pub closed spec fn kind_of(&self) -> FromStrRadixErrKind {
        self.kind
    }

    /// The parser's failure behind a parse error.
    pub closed spec fn cause(&self) -> Option<FromStrRadixErrSrc> {
        self.source
    }

    /// What the message of a failure reads.
    pub open spec fn message_of(&self) -> Seq<char> {
        match self.kind_of() {
            FromStrRadixErrKind::UnsupportedRadix => "the given radix is not supported"@,
            FromStrRadixErrKind::Parse => match self.cause() {
                Some(FromStrRadixErrSrc::Dec(d)) => dec_error_message(d),
                Some(FromStrRadixErrSrc::Hex(h)) => hex_error_message(h),
                None => "parsing error"@,
            },
        }
    }

    /// The failure for a radix other than 10 and 16.
    pub fn unsupported() -> (r: Self)
        ensures
            r.kind_of() == FromStrRadixErrKind::UnsupportedRadix,
            r.cause().is_none(),
    {
        Self { kind: FromStrRadixErrKind::UnsupportedRadix, source: None }
    }

    /// The kind of the failure.
    pub fn kind(&self) -> (k: FromStrRadixErrKind)
        ensures
            k == self.kind_of(),
    {
        self.kind
    }

    /// The parser's failure behind a parse error, if there is one.
    pub fn source(&self) -> (s: Option<FromStrRadixErrSrc>)
        ensures
            s == self.cause(),
    {
        self.source
    }

    /// The message of the failure: that of the parser behind it, where there is one.
    pub fn message(&self) -> (r: String)
        ensures
            r@ == self.message_of(),
    {
        match self.kind {
            FromStrRadixErrKind::UnsupportedRadix => String::from_str(
                "the given radix is not supported",
            ),
            FromStrRadixErrKind::Parse => match self.source {
                Some(FromStrRadixErrSrc::Dec(d)) => dec_error_text(d),
                Some(FromStrRadixErrSrc::Hex(h)) => hex_error_text(h),
                None => String::from_str("parsing error"),
            },
        }
    }
}

impl From<FromDecStrErr> for FromStrRadixErr {
    fn from(e: FromDecStrErr) -> (r: Self) {
        Self { kind: FromStrRadixErrKind::Parse, source: Some(FromStrRadixErrSrc::Dec(e)) }
    }
}

impl vstd::std_specs::convert::FromSpecImpl<FromDecStrErr> for FromStrRadixErr {
    open spec fn obeys_from_spec() -> bool {
        true
    }

    closed spec fn from_spec(e: FromDecStrErr) -> Self {
        Self { kind: FromStrRadixErrKind::Parse, source: Some(FromStrRadixErrSrc::Dec(e)) }
    }
}

impl From<FromHexError> for FromStrRadixErr {
    fn from(e: FromHexError) -> (r: Self) {
        Self { kind: FromStrRadixErrKind::Parse, source: Some(FromStrRadixErrSrc::Hex(e)) }
    }
}

impl vstd::std_specs::convert::FromSpecImpl<FromHexError> for FromStrRadixErr {
    open spec fn obeys_from_spec() -> bool {
        true
    }

    closed spec fn from_spec(e: FromHexError) -> Self {
        Self { kind: FromStrRadixErrKind::Parse, source: Some(FromStrRadixErrSrc::Hex(e)) }
    }
}

/// A failure made from a parser's failure is a parse error with that failure
/// as its source.
pub proof fn lemma_wrapped_failures(d: FromDecStrErr, h: FromHexError)
    ensures
        <FromStrRadixErr as vstd::std_specs::convert::FromSpec<FromDecStrErr>>::from_spec(d).kind_of()
            == FromStrRadixErrKind::Parse,
        <FromStrRadixErr as vstd::std_specs::convert::FromSpec<FromDecStrErr>>::from_spec(d).cause()
            == Some(FromStrRadixErrSrc::Dec(d)),
        <FromStrRadixErr as vstd::std_specs::convert::FromSpec<FromHexError>>::from_spec(h).kind_of()
            == FromStrRadixErrKind::Parse,
        <FromStrRadixErr as vstd::std_specs::convert::FromSpec<FromHexError>>::from_spec(h).cause()
            == Some(FromStrRadixErrSrc::Hex(h)),
{
}

impl<const N: usize> Uint<N> {
    /// The number that the outcome of decoding a hexadecimal text stands for.
    pub fn from_decoded(decoded: Result<Vec<u8>, FromHexError>) -> (r: Result<Self, FromHexError>)
        ensures
            match r {
                Ok(x) => decoded is Ok && hex_parse(Ok(decoded.unwrap()@), N as nat) == Ok::<
                    nat,
                    FromHexError,
                >(x@) && x.bytes@ == left_padded(decoded.unwrap()@, N as nat),
                Err(e) => match decoded {
                    Ok(v) => v@.len() > N && e == FromHexError::InvalidHexLength,
                    Err(d) => e == d,
                },
            },
    {
        match decoded {
            Ok(bytes) => {
                if bytes.len() <= N {
                    Ok(Self::from_big_endian(bytes.as_slice()))
                } else {
                    Err(FromHexError::InvalidHexLength)
                }
            },
            Err(e) => Err(e),
        }
    }

    /// Parses a hexadecimal text without a prefix. A text with an odd number
    /// of bytes is read with a zero digit in front.
    pub fn from_hex_str(text: &str) -> (r: Result<Self, FromHexError>)
        ensures
            match r {
                Ok(x) => hex_parse(rustc_from_hex(hex_text(text)), N as nat) == Ok::<
                    nat,
                    FromHexError,
                >(x@),
                Err(e) => hex_parse(rustc_from_hex(hex_text(text)), N as nat) == Err::<
                    nat,
                    FromHexError,
                >(e),
            },
    {
        let decoded = if text.as_bytes().len() % 2 == 0 {
            decode_hex_text(text)
        } else {
            let padded: String = String::from_str("0").concat(text);
            proof {
                reveal_strlit("0");
                assert(padded@ =~= seq!['0'] + text@);
            }
            decode_hex_text(padded.as_str())
        };
        Self::from_decoded(decoded)
    }

    /// Parses a text in radix 10 or 16; any other radix is refused.
    pub fn from_str_radix(txt: &str, radix: u32) -> (r: Result<Self, FromStrRadixErr>)
        ensures
            match r {
                Ok(x) => radix_parse(txt, radix, N as nat) == Ok::<
                    nat,
                    (FromStrRadixErrKind, Option<FromStrRadixErrSrc>),
                >(x@),
                Err(e) => radix_parse(txt, radix, N as nat) == Err::<
                    nat,
                    (FromStrRadixErrKind, Option<FromStrRadixErrSrc>),
                >((e.kind_of(), e.cause())),
            },
    {
        if radix == 10 {
            match Self::from_dec_str(txt) {
                Ok(x) => Ok(x),
                Err(e) => Err(FromStrRadixErr::from(e)),
            }
        } else if radix == 16 {
            match Self::from_hex_str(txt) {
                Ok(x) => Ok(x),
                Err(e) => Err(FromStrRadixErr::from(e)),
            }
        } else {
            Err(FromStrRadixErr::unsupported())
        }
    }
}

} // verus!
