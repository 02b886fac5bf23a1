//! Reading a colour from a line of text such as `(12,200,7,255)`.
//!
//! The line is taken as bytes. It is an opening bracket, a list of fields
//! separated by commas, a closing bracket and a line feed. The first four
//! fields are the red, green, blue and alpha channels; fields after the
//! fourth are not looked at.

use vstd::prelude::*;
use vstd::slice::slice_subrange;
use crate::color::Color;

verus! {

pub const OPEN_BRACKET: u8 = 0x28;

pub const CLOSE_BRACKET: u8 = 0x29;

pub const LINE_FEED: u8 = 0x0a;

pub const COMMA: u8 = 0x2c;

pub const PLUS: u8 = 0x2b;

pub const DIGIT_ZERO: u8 = 0x30;

pub const DIGIT_NINE: u8 = 0x39;

/// Why a line is not a colour.
#[derive(Clone, Copy, Debug, PartialEq, Eq, Structural)]
pub enum ParseRgbaError {
    /// The brackets or the line feed are missing, or a field that should be
    /// a channel is not a number from 0 to 255.
    Malformed,
    /// The list has fewer than four fields, each of them a readable channel.
    MissingChannel,
}

pub open spec fn is_digit(byte: u8) -> bool {
    DIGIT_ZERO <= byte <= DIGIT_NINE
}

pub open spec fn all_digits(text: Seq<u8>) -> bool {
    forall|i: int| 0 <= i < text.len() ==> is_digit(#[trigger] text[i])
}

/// The number that a run of decimal digits writes.
pub open spec fn decimal_value(digits: Seq<u8>) -> nat
    decreases digits.len(),
{
    if digits.len() == 0 {
        0
    } else {
        10 * decimal_value(digits.drop_last()) + (digits.last() - DIGIT_ZERO) as nat
    }
}

/// A field without the plus sign that may stand before its digits. A plus
/// sign alone is not taken off.
pub open spec fn unsigned_part(field: Seq<u8>) -> Seq<u8> {
    if field.len() > 1 && field[0] == PLUS {
        field.subrange(1, field.len() as int)
    } else {
        field
    }
}

/// The channel that a field writes: an optional plus sign and then one or
/// more decimal digits whose value is at most 255. Leading zeros are allowed;
/// blanks, a minus sign or any other byte are not.
pub open spec fn parse_channel(field: Seq<u8>) -> Option<u8> {
    let digits = unsigned_part(field);
    if digits.len() > 0 && all_digits(digits) && decimal_value(digits) <= 255 {
        Some(decimal_value(digits) as u8)
    } else {
        None
    }
}

/// The place of the first comma at or after `from`, or the length of the
/// text where there is none.
pub open spec fn next_comma(text: Seq<u8>, from: int) -> int
    decreases text.len() - from,
{
    if from >= text.len() {
        text.len() as int
    } else if text[from] == COMMA {
        from
    } else {
        next_comma(text, from + 1)
    }
}

/// Where field `k` starts: field 0 at the start of the text, each later
/// field just after the comma that ends the one before. Where the text has
/// fewer than `k` commas this is one past its length.
pub open spec fn field_start(text: Seq<u8>, k: nat) -> int
    decreases k,
{
    if k == 0 {
        0
    } else {
        next_comma(text, field_start(text, (k - 1) as nat)) + 1
    }
}

/// The text has a field `k`. An empty piece after the last comma is no field.
pub open spec fn has_field(text: Seq<u8>, k: nat) -> bool {
    field_start(text, k) < text.len()
}

/// Field `k` of the text: from its start up to the next comma or the end.
pub open spec fn field(text: Seq<u8>, k: nat) -> Seq<u8> {
    text.subrange(field_start(text, k), next_comma(text, field_start(text, k)))
}

/// Channel `k` of a list of fields: missing where the list has no such
/// field, malformed where the field does not write a channel.
pub open spec fn channel(text: Seq<u8>, k: nat) -> Result<u8, ParseRgbaError> {
    if !has_field(text, k) {
        Err(ParseRgbaError::MissingChannel)
    } else {
        match parse_channel(field(text, k)) {
            Some(value) => Ok(value),
            None => Err(ParseRgbaError::Malformed),
        }
    }
}

/// The list of fields of a line: what stands between the opening bracket
/// at its start and the closing bracket and line feed at its end.
pub open spec fn framed(line: Seq<u8>) -> Option<Seq<u8>> {
    if line.len() >= 3 && line[0] == OPEN_BRACKET && line[line.len() - 2] == CLOSE_BRACKET
        && line[line.len() - 1] == LINE_FEED {
        Some(line.subrange(1, line.len() - 2))
    } else {
        None
    }
}

/// The colour that a line writes. The channels are read in order, and the
/// first one that is missing or malformed decides the error.
pub open spec fn parse_rgba(line: Seq<u8>) -> Result<Color, ParseRgbaError> {
    match framed(line) {
        None => Err(ParseRgbaError::Malformed),
        Some(text) => match channel(text, 0) {
            Err(e) => Err(e),
            Ok(r) => match channel(text, 1) {
                Err(e) => Err(e),
                Ok(g) => match channel(text, 2) {
                    Err(e) => Err(e),
                    Ok(b) => match channel(text, 3) {
                        Err(e) => Err(e),
                        Ok(a) => Ok(Color { r, g, b, a }),
                    },
                },
            },
        },
    }
}

proof fn lemma_value_grows(digits: Seq<u8>, i: int)
    requires
        all_digits(digits),
        0 <= i <= digits.len(),
    ensures
        decimal_value(digits.take(i)) <= decimal_value(digits),
    decreases digits.len() - i,
{
    if i < digits.len() {
        lemma_value_grows(digits, i + 1);
        assert(digits.take(i + 1).drop_last() =~= digits.take(i));
        assert(is_digit(digits[i]));
    } else {
        assert(digits.take(i) =~= digits);
    }
}

fn read_channel(field: &[u8]) -> (value: Option<u8>)
    ensures
        value == parse_channel(field@),
{
    let n = field.len();
    let skip: usize = if n > 1 && field[0] == PLUS {
        1
    } else {
        0
    };
    if n == 0 {
        return None;
    }
    let ghost digits = unsigned_part(field@);
    assert(digits =~= field@.subrange(skip as int, n as int));
    let mut acc: u16 = 0;
    let mut i: usize = skip;
    while i < n
        invariant
            skip <= i <= n,
            n == field@.len(),
            digits == unsigned_part(field@),
            digits == field@.subrange(skip as int, n as int),
            all_digits(digits.take(i - skip)),
            acc == decimal_value(digits.take(i - skip)),
            acc <= 255,
        decreases n - i,
    {
        let byte = field[i];
        if byte < DIGIT_ZERO || byte > DIGIT_NINE {
            assert(!is_digit(digits[i - skip]));
            return None;
        }
        proof {
            assert(digits.take(i + 1 - skip).drop_last() =~= digits.take(i - skip));
            assert(digits.take(i + 1 - skip).last() == byte);
        }
        acc = acc * 10 + (byte - DIGIT_ZERO) as u16;
        if acc > 255 {
            proof {
                if all_digits(digits) {
                    lemma_value_grows(digits, i + 1 - skip);
                }
            }
            return None;
        }
        i = i + 1;
    }
    assert(digits.take(n - skip) =~= digits);
    Some(acc as u8)
}

fn find_comma(text: &[u8], from: usize) -> (at: usize)
    requires
        from <= text@.len(),
    ensures
        at == next_comma(text@, from as int),
        from <= at <= text@.len(),
{
    let mut at: usize = from;
    while at < text.len() && text[at] != COMMA
        invariant
            from <= at <= text@.len(),
            next_comma(text@, from as int) == next_comma(text@, at as int),
        decreases text@.len() - at,
    {
        at = at + 1;
    }
    at
}

/// Reads the channel whose field starts at `start`, and says where the
/// next field starts.
fn read_field(text: &[u8], start: usize, Ghost(k): Ghost<nat>) -> (found: Result<
    (u8, usize),
    ParseRgbaError,
>)
    requires
        start == field_start(text@, k),
        text@.len() < usize::MAX,
    ensures
        match found {
            Ok((value, next)) => channel(text@, k) == Ok::<u8, ParseRgbaError>(value) && next
                == field_start(text@, k + 1),
            Err(e) => channel(text@, k) == Err::<u8, ParseRgbaError>(e),
        },
{
    if start >= text.len() {
        return Err(ParseRgbaError::MissingChannel);
    }
    let end = find_comma(text, start);
    match read_channel(slice_subrange(text, start, end)) {
        Some(value) => Ok((value, end + 1)),
        None => Err(ParseRgbaError::Malformed),
    }
}

/// Reads a colour from the bytes of a line.
pub fn rgba_from_bytes(line: &[u8]) -> (parsed: Result<Color, ParseRgbaError>)
    ensures
        parsed == parse_rgba(line@),
{
    let n = line.len();
    if n < 3 || line[0] != OPEN_BRACKET || line[n - 2] != CLOSE_BRACKET || line[n - 1]
        != LINE_FEED {
        return Err(ParseRgbaError::Malformed);
    }
    let text = slice_subrange(line, 1, n - 2);
    let (r, after_r) = match read_field(text, 0, Ghost(0)) {
        Ok(found) => found,
        Err(e) => {
            return Err(e);
        },
    };
    let (g, after_g) = match read_field(text, after_r, Ghost(1)) {
        Ok(found) => found,
        Err(e) => {
            return Err(e);
        },
    };
    let (b, after_b) = match read_field(text, after_g, Ghost(2)) {
        Ok(found) => found,
        Err(e) => {
            return Err(e);
        },
    };
    let (a, _) = match read_field(text, after_b, Ghost(3)) {
        Ok(found) => found,
        Err(e) => {
            return Err(e);
        },
    };
    Ok(Color { r, g, b, a })
}

/// Converts a line of text to a colour. The text counts as its bytes in
/// UTF-8.
pub fn rgba_from_str(s: String) -> (parsed: Result<Color, ParseRgbaError>)
    ensures
        parsed == parse_rgba(vstd::utf8::encode_utf8(s@)),
{
    rgba_from_bytes(s.as_str().as_bytes())
}

} // verus!
