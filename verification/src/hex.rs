//! The hexadecimal text form: `0x`, then two lowercase digits for each byte,
//! most significant byte first. Text is handled as its ASCII bytes.

use vstd::prelude::*;

verus! {

/// Why a text was not decoded.
#[derive(Clone, Copy, Debug, PartialEq, Eq, Structural)]
pub enum HexError {
    /// The text does not start with `0x`.
    MissingPrefix,
    /// The character `ch` at offset `index` of the text is no hexadecimal digit.
    InvalidCharacter { ch: u8, index: usize },
    /// The digits stand for `actual` bytes where exactly `expected` are wanted,
    /// or they are one digit short of `expected` bytes: an odd run of digits
    /// counts its first digit as a byte.
    InvalidLength { actual: usize, expected: usize },
    /// The digits stand for `actual` bytes where `min` to `max` are wanted.
    LengthOutOfRange { actual: usize, min: usize, max: usize },
}

/// How many bytes are wanted of a text.
#[derive(Clone, Copy, Debug, PartialEq, Eq, Structural)]
pub enum ExpectedLen {
    /// Exactly this many.
    Exact(usize),
    /// At least the first and at most the second.
    Between(usize, usize),
}

/// The lowercase digit that stands for a value below 16.
pub open spec fn digit_char(v: int) -> u8 {
    if v < 10 {
        (48 + v) as u8
    } else {
        (87 + v) as u8
    }
}

/// The value of a hexadecimal digit of either case, or `None` for another character.
pub open spec fn digit_value(c: u8) -> Option<int> {
    if 48 <= c <= 57 {
        Some(c - 48)
    } else if 97 <= c <= 102 {
        Some(c - 87)
    } else if 65 <= c <= 70 {
        Some(c - 55)
    } else {
        None
    }
}

/// A character with an uppercase letter replaced by its lowercase form.
pub open spec fn lower_char(c: u8) -> u8 {
    if 65 <= c <= 90 {
        (c + 32) as u8
    } else {
        c
    }
}

/// A text with every uppercase letter replaced by its lowercase form.
pub open spec fn lowercase(text: Seq<u8>) -> Seq<u8> {
    Seq::new(text.len(), |i: int| lower_char(text[i]))
}

/// The two characters `0x`.
pub open spec fn prefix() -> Seq<u8> {
    seq![48u8, 120u8]
}

/// Two lowercase digits for each byte, in order, high digit first.
pub open spec fn hex_digits(bytes: Seq<u8>) -> Seq<u8> {
    Seq::new(
        2 * bytes.len(),
        |i: int|
            if i % 2 == 0 {
                digit_char(bytes[i / 2] as int / 16)
            } else {
                digit_char(bytes[i / 2] as int % 16)
            },
    )
}

/// The text form of a byte sequence.
pub open spec fn encoded(bytes: Seq<u8>) -> Seq<u8> {
    prefix() + hex_digits(bytes)
}

/// Whether a text starts with `0x`.
pub open spec fn has_prefix(text: Seq<u8>) -> bool {
    text.len() >= 2 && text[0] == 48u8 && text[1] == 120u8
}

/// The offset of the first character at or after `from` that is no
/// hexadecimal digit, or the length of the text if there is none.
pub open spec fn first_invalid(text: Seq<u8>, from: int) -> int
    decreases text.len() - from,
{
    if from < 0 || from >= text.len() {
        text.len() as int
    } else if digit_value(text[from]).is_none() {
        from
    } else {
        first_invalid(text, from + 1)
    }
}

/// How many bytes a run of `digits` digits stands for: an odd run counts its
/// first digit as a byte of its own.
pub open spec fn decoded_len(digits: int) -> int {
    (digits + 1) / 2
}

/// A run of digits with a zero digit put in front where its length is odd.
pub open spec fn padded(digits: Seq<u8>) -> Seq<u8> {
    if digits.len() % 2 == 1 {
        seq![48u8] + digits
    } else {
        digits
    }
}

/// The bytes that a run of valid digits stands for.
pub open spec fn decoded(digits: Seq<u8>) -> Seq<u8> {
    Seq::new(
        decoded_len(digits.len() as int) as nat,
        |i: int|
            (16 * digit_value(padded(digits)[2 * i]).unwrap() + digit_value(
                padded(digits)[2 * i + 1],
            ).unwrap()) as u8,
    )
}

/// Whether `len` bytes are what is wanted.
pub open spec fn len_accepted(len: int, want: ExpectedLen) -> bool {
    match want {
        ExpectedLen::Exact(n) => len == n,
        ExpectedLen::Between(min, max) => min <= len <= max,
    }
}

/// The error for a run of digits that stands for `actual` bytes, which are not wanted.
pub open spec fn len_error(actual: int, want: ExpectedLen) -> HexError {
    match want {
        ExpectedLen::Exact(n) => (HexError::InvalidLength { actual: actual as usize, expected: n }),
        ExpectedLen::Between(min, max) => (HexError::LengthOutOfRange {
            actual: actual as usize,
            min,
            max,
        }),
    }
}

/// Whether a run of `digits` digits is well formed for what is wanted: where
/// one width is wanted the run is of full length, with no digit left out.
pub open spec fn digits_accepted(digits: int, want: ExpectedLen) -> bool {
    match want {
        ExpectedLen::Exact(n) => digits == 2 * n,
        ExpectedLen::Between(min, max) => min <= decoded_len(digits) <= max,
    }
}

/// What decoding a text gives. The prefix is looked at first, then the
/// characters, then the length: a text with a wrong character is never
/// reported for its length.
pub open spec fn decode_spec(text: Seq<u8>, want: ExpectedLen) -> Result<Seq<u8>, HexError> {
    if !has_prefix(text) {
        Err(HexError::MissingPrefix)
    } else if first_invalid(text, 2) < text.len() {
        Err(
            HexError::InvalidCharacter {
                ch: text[first_invalid(text, 2)],
                index: first_invalid(text, 2) as usize,
            },
        )
    } else if !digits_accepted(text.len() - 2, want) {
        Err(len_error(decoded_len(text.len() - 2), want))
    } else {
        Ok(decoded(text.subrange(2, text.len() as int)))
    }
}

/// Whether a decoding outcome in memory is the given outcome over sequences.
pub open spec fn outcome_is(r: Result<Vec<u8>, HexError>, s: Result<Seq<u8>, HexError>) -> bool {
    match r {
        Ok(v) => s == Ok::<Seq<u8>, HexError>(v@),
        Err(e) => s == Err::<Seq<u8>, HexError>(e),
    }
}

/// What `first_invalid` finds: every character before it is a digit, and the
/// one it points at, if any, is not.
pub proof fn lemma_first_invalid(text: Seq<u8>, from: int)
    requires
        0 <= from <= text.len(),
    ensures
        from <= first_invalid(text, from) <= text.len(),
        forall|j: int| from <= j < first_invalid(text, from) ==> digit_value(text[j]).is_some(),
        first_invalid(text, from) < text.len() ==> digit_value(
            text[first_invalid(text, from)],
        ).is_none(),
    decreases text.len() - from,
{
    if from < text.len() && digit_value(text[from]).is_some() {
        lemma_first_invalid(text, from + 1);
    }
}

/// Decoding what was encoded gives the bytes back.
pub proof fn lemma_decode_encoded(bytes: Seq<u8>, n: usize)
    requires
        bytes.len() == n,
    ensures
        decode_spec(encoded(bytes), ExpectedLen::Exact(n)) == Ok::<Seq<u8>, HexError>(bytes),
{
    let text = encoded(bytes);
    let digits = text.subrange(2, text.len() as int);
    assert(has_prefix(text));
    assert(digits =~= hex_digits(bytes));
    assert forall|j: int| 2 <= j < text.len() implies digit_value(text[j]).is_some() by {
        assert(text[j] == hex_digits(bytes)[j - 2]);
    }
    lemma_first_invalid(text, 2);
    assert(padded(digits) == digits);
    assert(decoded(digits) =~= bytes) by {
        assert forall|i: int| 0 <= i < bytes.len() implies decoded(digits)[i] == bytes[i] by {
            assert(digits[2 * i] == digit_char(bytes[i] as int / 16));
            assert(digits[2 * i + 1] == digit_char(bytes[i] as int % 16));
        }
    }
}

/// Encoding what was decoded for one exact width gives the text back, in
/// lowercase.
pub proof fn lemma_encode_decoded(text: Seq<u8>, n: usize)
    requires
        decode_spec(text, ExpectedLen::Exact(n)) is Ok,
    ensures
        encoded(decode_spec(text, ExpectedLen::Exact(n)).unwrap()) == lowercase(text),
{
    let digits = text.subrange(2, text.len() as int);
    let bytes = decoded(digits);
    lemma_first_invalid(text, 2);
    assert(padded(digits) == digits);
    assert(encoded(bytes) =~= lowercase(text)) by {
        assert forall|j: int| 0 <= j < text.len() implies encoded(bytes)[j] == lower_char(
            text[j],
        ) by {
            if j >= 2 {
                let k = j - 2;
                let i = k / 2;
                assert(encoded(bytes)[j] == hex_digits(bytes)[k]);
                assert(digit_value(text[2 * i + 2]).is_some());
                assert(digit_value(text[2 * i + 3]).is_some());
                assert(digits[2 * i] == text[2 * i + 2]);
                assert(digits[2 * i + 1] == text[2 * i + 3]);
                let hi = digit_value(digits[2 * i]).unwrap();
                let lo = digit_value(digits[2 * i + 1]).unwrap();
                assert(bytes[i] == (16 * hi + lo) as u8);
                assert(bytes[i] as int / 16 == hi);
                assert(bytes[i] as int % 16 == lo);
            }
        }
    }
}

/// A text of valid digits whose number is not twice the exact width is
/// refused for its length, with the number of bytes it stands for and the
/// width that was wanted.
pub proof fn lemma_wrong_length(text: Seq<u8>, n: usize)
    requires
        has_prefix(text),
        forall|j: int| 2 <= j < text.len() ==> digit_value(text[j]).is_some(),
        text.len() - 2 != 2 * n,
        text.len() <= usize::MAX,
    ensures
        decode_spec(text, ExpectedLen::Exact(n)) == Err::<Seq<u8>, HexError>(
            HexError::InvalidLength {
                actual: decoded_len(text.len() - 2) as usize,
                expected: n,
            },
        ),
{
    lemma_first_invalid(text, 2);
}

/// A text with a character after the prefix that is no digit is refused for
/// its first such character, whatever its length and whatever is wanted.
pub proof fn lemma_invalid_character(text: Seq<u8>, want: ExpectedLen, j: int)
    requires
        has_prefix(text),
        2 <= j < text.len(),
        digit_value(text[j]).is_none(),
    ensures
        decode_spec(text, want) == Err::<Seq<u8>, HexError>(
            HexError::InvalidCharacter {
                ch: text[first_invalid(text, 2)],
                index: first_invalid(text, 2) as usize,
            },
        ),
        2 <= first_invalid(text, 2) <= j,
        digit_value(text[first_invalid(text, 2)]).is_none(),
{
    lemma_first_invalid(text, 2);
}

/// The digit for a value below 16.
fn digit_of(v: u8) -> (c: u8)
    requires
        v < 16,
    ensures
        c == digit_char(v as int),
        digit_value(c) == Some(v as int),
{
    if v < 10 {
        48 + v
    } else {
        87 + v
    }
}

/// The value of a character, if it is a hexadecimal digit.
fn value_of(c: u8) -> (r: Option<u8>)
    ensures
        match r {
            Some(v) => digit_value(c) == Some(v as int),
            None => digit_value(c).is_none(),
        },
{
    if 48 <= c && c <= 57 {
        Some(c - 48)
    } else if 97 <= c && c <= 102 {
        Some(c - 87)
    } else if 65 <= c && c <= 70 {
        Some(c - 55)
    } else {
        None
    }
}

/// Encodes bytes as text: `0x` and two lowercase digits for each byte.
pub fn encode(bytes: &[u8]) -> (text: Vec<u8>)
    ensures
        text@ == encoded(bytes@),
        text@.len() == 2 + 2 * bytes@.len(),
{
    let mut text: Vec<u8> = Vec::new();
    text.push(48u8);
    text.push(120u8);
    let mut i: usize = 0;
    while i < bytes.len()
        invariant
            i <= bytes.len(),
            text@.len() == 2 + 2 * i,
            text@[0] == 48u8,
            text@[1] == 120u8,
            forall|k: int| 0 <= k < 2 * i ==> text@[2 + k] == hex_digits(bytes@)[k],
        decreases bytes.len() - i,
    {
        let b: u8 = bytes[i];
        let hi: u8 = digit_of(b / 16);
        let lo: u8 = digit_of(b % 16);
        text.push(hi);
        text.push(lo);
        i += 1;
    }
    assert(text@ =~= encoded(bytes@));
    text
}

/// Decodes a text into the bytes it stands for, or says why it does not
/// stand for any that are wanted.
pub fn decode(text: &[u8], want: ExpectedLen) -> (r: Result<Vec<u8>, HexError>)
    ensures
        outcome_is(r, decode_spec(text@, want)),
{
    let n: usize = text.len();
    if n < 2 || text[0] != 48u8 || text[1] != 120u8 {
        return Err(HexError::MissingPrefix);
    }
    let mut i: usize = 2;
    while i < n
        invariant
            2 <= i <= n,
            n == text@.len(),
            has_prefix(text@),
            first_invalid(text@, 2) == first_invalid(text@, i as int),
        decreases n - i,
    {
        if value_of(text[i]).is_none() {
            assert(first_invalid(text@, i as int) == i);
            return Err(HexError::InvalidCharacter { ch: text[i], index: i });
        }
        i += 1;
    }
    proof {
        lemma_first_invalid(text@, 2);
    }
    let count: usize = n - 2;
    let odd: usize = count % 2;
    let len: usize = count / 2 + odd;
    let fits: bool = match want {
        ExpectedLen::Exact(m) => odd == 0 && len == m,
        ExpectedLen::Between(min, max) => min <= len && len <= max,
    };
    if !fits {
        return match want {
            ExpectedLen::Exact(m) => Err(HexError::InvalidLength { actual: len, expected: m }),
            ExpectedLen::Between(min, max) => Err(
                HexError::LengthOutOfRange { actual: len, min, max },
            ),
        };
    }
    let ghost digits = text@.subrange(2, n as int);
    let mut out: Vec<u8> = Vec::new();
    let mut pos: usize = 2;
    if odd == 1 {
        let lo: u8 = value_of(text[2]).unwrap();
        out.push(lo);
        pos = 3;
    }
    while pos < n
        invariant
            2 <= pos <= n,
            n == text@.len(),
            count == n - 2,
            odd == count % 2,
            len == count / 2 + odd,
            digits == text@.subrange(2, n as int),
            (pos - 2 + odd) % 2 == 0,
            out@.len() == (pos - 2 + odd) / 2,
            forall|j: int| 2 <= j < n ==> digit_value(text@[j]).is_some(),
            forall|k: int| 0 <= k < out@.len() ==> out@[k] == decoded(digits)[k],
        decreases n - pos,
    {
        let hi: u8 = value_of(text[pos]).unwrap();
        let lo: u8 = value_of(text[pos + 1]).unwrap();
        let ghost k = out@.len() as int;
        assert(padded(digits)[2 * k] == text@[pos as int]);
        assert(padded(digits)[2 * k + 1] == text@[pos + 1]);
        out.push(16 * hi + lo);
        pos += 2;
    }
    assert(out@ =~= decoded(digits));
    Ok(out)
}

} // verus!
