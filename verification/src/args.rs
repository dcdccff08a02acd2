//! The command line: what the operator asks for.
//!
//! The one argument is read as bytes. An argument that holds `-h` asks for
//! help, one that holds `-d` for a dump of the temperatures, and any other
//! is a fan duty: a decimal number from 0 to 255, with white space around
//! it and a plus sign before it allowed.

use vstd::prelude::*;
use vstd::utf8::encode_utf8;

verus! {

/// What the operator asks for.
#[derive(Clone, Copy, Debug, PartialEq, Eq, Structural)]
pub enum EParsedArgs {
    /// Print the help text.
    Help,
    /// Print both temperatures.
    Dump,
    /// Set the fan duty to this percentage.
    Duty(u8),
}

/// Why the command line was not understood.
#[derive(Clone, Copy, Debug, PartialEq, Eq, Structural)]
pub enum ParseError {
    /// There is no argument after the program's name.
    NoArgument,
    /// The argument is no flag and no number from 0 to 255.
    WrongArgument,
}

/// Whether the two bytes of `bytes` from `at` on are a hyphen and `letter`.
pub open spec fn flag_at(bytes: Seq<u8>, at: int, letter: u8) -> bool {
    0 <= at && at + 1 < bytes.len() && bytes[at] == 0x2d && bytes[at + 1] == letter
}

/// Whether a hyphen with `letter` after it stands anywhere in `bytes`.
pub open spec fn holds_flag(bytes: Seq<u8>, letter: u8) -> bool {
    exists|at: int| flag_at(bytes, at, letter)
}

/// Whether the three bytes encode a white-space character of three bytes:
/// U+1680, U+2000 to U+200A, U+2028, U+2029, U+202F, U+205F or U+3000.
pub open spec fn spec_wide_space(first: u8, second: u8, third: u8) -> bool {
    ||| first == 0xe1 && second == 0x9a && third == 0x80
    ||| first == 0xe2 && second == 0x80 && (0x80 <= third <= 0x8a || third == 0xa8 || third
        == 0xa9 || third == 0xaf)
    ||| first == 0xe2 && second == 0x81 && third == 0x9f
    ||| first == 0xe3 && second == 0x80 && third == 0x80
}

/// The length of the white-space character that is encoded in `bytes` from
/// `from` on and ends at `to` or before; zero if there is none. The
/// characters are those of one byte (tab, line feed, vertical tab, form
/// feed, carriage return, space), U+0085 and U+00A0 of two, and those of
/// [`spec_wide_space`].
pub open spec fn space_at(bytes: Seq<u8>, from: int, to: int) -> int {
    if from < to && (bytes[from] == 0x20 || 0x09 <= bytes[from] <= 0x0d) {
        1
    } else if from + 1 < to && bytes[from] == 0xc2 && (bytes[from + 1] == 0x85 || bytes[from + 1]
        == 0xa0) {
        2
    } else if from + 2 < to && spec_wide_space(bytes[from], bytes[from + 1], bytes[from + 2]) {
        3
    } else {
        0
    }
}

/// The length of the white-space character that is encoded in `bytes` up
/// to `to` and starts at `from` or after; zero if there is none.
pub open spec fn space_before(bytes: Seq<u8>, from: int, to: int) -> int {
    if from < to && (bytes[to - 1] == 0x20 || 0x09 <= bytes[to - 1] <= 0x0d) {
        1
    } else if from + 1 < to && bytes[to - 2] == 0xc2 && (bytes[to - 1] == 0x85 || bytes[to - 1]
        == 0xa0) {
        2
    } else if from + 2 < to && spec_wide_space(bytes[to - 3], bytes[to - 2], bytes[to - 1]) {
        3
    } else {
        0
    }
}

/// Where `bytes[from..to]` starts once the white space before it is taken
/// off.
pub open spec fn trimmed_start(bytes: Seq<u8>, from: int, to: int) -> int
    decreases to - from,
{
    let space = space_at(bytes, from, to);
    if space == 0 {
        from
    } else {
        trimmed_start(bytes, from + space, to)
    }
}

/// Where `bytes[from..to]` ends once the white space after it is taken
/// off.
pub open spec fn trimmed_end(bytes: Seq<u8>, from: int, to: int) -> int
    decreases to - from,
{
    let space = space_before(bytes, from, to);
    if space == 0 {
        to
    } else {
        trimmed_end(bytes, from, to - space)
    }
}

/// Whether every byte of `bytes[from..to]` is a decimal digit.
pub open spec fn all_digits(bytes: Seq<u8>, from: int, to: int) -> bool {
    forall|i: int| from <= i < to ==> 0x30 <= #[trigger] bytes[i] <= 0x39
}

/// The number that the decimal digits `bytes[from..to]` write.
pub open spec fn decimal(bytes: Seq<u8>, from: int, to: int) -> int
    decreases to - from,
{
    if from >= to {
        0
    } else {
        10 * decimal(bytes, from, to - 1) + (bytes[to - 1] - 0x30)
    }
}

/// The fan duty that `bytes` write: with the white space around them taken
/// off and one plus sign before them allowed, they are one decimal digit or
/// more, and the number is no more than 255.
pub open spec fn duty_of(bytes: Seq<u8>) -> Option<u8> {
    let start = trimmed_start(bytes, 0, bytes.len() as int);
    let end = trimmed_end(bytes, start, bytes.len() as int);
    let first = if start < end && bytes[start] == 0x2b {
        start + 1
    } else {
        start
    };
    if first < end && all_digits(bytes, first, end) && decimal(bytes, first, end) <= 255 {
        Some(decimal(bytes, first, end) as u8)
    } else {
        None
    }
}

/// What the argument `bytes` asks for.
pub open spec fn parsed(bytes: Seq<u8>) -> Result<EParsedArgs, ParseError> {
    if holds_flag(bytes, 0x68) {
        Ok(EParsedArgs::Help)
    } else if holds_flag(bytes, 0x64) {
        Ok(EParsedArgs::Dump)
    } else {
        match duty_of(bytes) {
            Some(duty) => Ok(EParsedArgs::Duty(duty)),
            None => Err(ParseError::WrongArgument),
        }
    }
}

/// Looks for a hyphen with `letter` after it.
fn find_flag(bytes: &[u8], letter: u8) -> (found: bool)
    ensures
        found == holds_flag(bytes@, letter),
{
    let mut at: usize = 0;
    while at < bytes.len()
        invariant
            at <= bytes.len(),
            forall|before: int| 0 <= before < at ==> !flag_at(bytes@, before, letter),
        decreases bytes.len() - at,
    {
        if at + 1 < bytes.len() && bytes[at] == 0x2d && bytes[at + 1] == letter {
            assert(flag_at(bytes@, at as int, letter));
            return true;
        }
        at = at + 1;
    }
    false
}

/// Whether the three bytes encode a white-space character of three bytes.
fn wide_space(first: u8, second: u8, third: u8) -> (space: bool)
    ensures
        space == spec_wide_space(first, second, third),
{
    (first == 0xe1 && second == 0x9a && third == 0x80) || (first == 0xe2 && second == 0x80 && ((
    0x80 <= third && third <= 0x8a) || third == 0xa8 || third == 0xa9 || third == 0xaf)) || (first
        == 0xe2 && second == 0x81 && third == 0x9f) || (first == 0xe3 && second == 0x80 && third
        == 0x80)
}

/// Takes the white space off both ends of `bytes` and says where what is
/// left starts and ends.
fn trim(bytes: &[u8]) -> (bounds: (usize, usize))
    ensures
        bounds.0 == trimmed_start(bytes@, 0, bytes@.len() as int),
        bounds.1 == trimmed_end(bytes@, bounds.0 as int, bytes@.len() as int),
        bounds.0 <= bounds.1 <= bytes@.len(),
{
    let len = bytes.len();
    let mut start: usize = 0;
    loop
        invariant
            len == bytes@.len(),
            start <= len,
            trimmed_start(bytes@, 0, len as int) == trimmed_start(bytes@, start as int, len as int),
        ensures
            start <= len,
            start == trimmed_start(bytes@, 0, len as int),
        decreases len - start,
    {
        let left = len - start;
        if left >= 1 && (bytes[start] == 0x20 || (0x09 <= bytes[start] && bytes[start] <= 0x0d)) {
            start = start + 1;
        } else if left >= 2 && bytes[start] == 0xc2 && (bytes[start + 1] == 0x85 || bytes[start
            + 1] == 0xa0) {
            start = start + 2;
        } else if left >= 3 && wide_space(bytes[start], bytes[start + 1], bytes[start + 2]) {
            start = start + 3;
        } else {
            break ;
        }
    }
    let mut end: usize = len;
    loop
        invariant
            len == bytes@.len(),
            start <= end <= len,
            trimmed_end(bytes@, start as int, len as int) == trimmed_end(
                bytes@,
                start as int,
                end as int,
            ),
        ensures
            start <= end <= len,
            end == trimmed_end(bytes@, start as int, len as int),
        decreases end - start,
    {
        let left = end - start;
        if left >= 1 && (bytes[end - 1] == 0x20 || (0x09 <= bytes[end - 1] && bytes[end - 1]
            <= 0x0d)) {
            end = end - 1;
        } else if left >= 2 && bytes[end - 2] == 0xc2 && (bytes[end - 1] == 0x85 || bytes[end - 1]
            == 0xa0) {
            end = end - 2;
        } else if left >= 3 && wide_space(bytes[end - 3], bytes[end - 2], bytes[end - 1]) {
            end = end - 3;
        } else {
            break ;
        }
    }
    (start, end)
}

/// More digits never write a smaller number.
proof fn lemma_decimal_grows(bytes: Seq<u8>, from: int, middle: int, to: int)
    requires
        0 <= from <= middle <= to <= bytes.len(),
        all_digits(bytes, from, to),
    ensures
        0 <= decimal(bytes, from, middle) <= decimal(bytes, from, to),
    decreases to - middle,
{
    if middle < to {
        lemma_decimal_grows(bytes, from, middle, to - 1);
    } else {
        lemma_decimal_grows_from_zero(bytes, from, to);
    }
}

/// Digits write no negative number.
proof fn lemma_decimal_grows_from_zero(bytes: Seq<u8>, from: int, to: int)
    requires
        0 <= from <= to <= bytes.len(),
        all_digits(bytes, from, to),
    ensures
        0 <= decimal(bytes, from, to),
    decreases to - from,
{
    if from < to {
        lemma_decimal_grows_from_zero(bytes, from, to - 1);
    }
}

/// Reads a fan duty.
pub fn parse_duty(bytes: &[u8]) -> (duty: Option<u8>)
    ensures
        duty == duty_of(bytes@),
{
    let (start, end) = trim(bytes);
    let first = if start < end && bytes[start] == 0x2b {
        start + 1
    } else {
        start
    };
    if first >= end {
        return None;
    }
    let mut at: usize = first;
    let mut number: u16 = 0;
    while at < end
        invariant
            first <= at <= end <= bytes@.len(),
            first < end,
            duty_of(bytes@) == if all_digits(bytes@, first as int, end as int) && decimal(
                bytes@,
                first as int,
                end as int,
            ) <= 255 {
                Some(decimal(bytes@, first as int, end as int) as u8)
            } else {
                None
            },
            all_digits(bytes@, first as int, at as int),
            number == decimal(bytes@, first as int, at as int),
            number <= 255,
        decreases end - at,
    {
        let byte = bytes[at];
        if byte < 0x30 || byte > 0x39 {
            assert(!all_digits(bytes@, first as int, end as int)) by {
                assert(!(0x30 <= bytes@[at as int] <= 0x39));
            }
            return None;
        }
        number = 10 * number + (byte - 0x30) as u16;
        at = at + 1;
        assert(number == decimal(bytes@, first as int, at as int));
        if number > 255 {
            proof {
                if all_digits(bytes@, first as int, end as int) {
                    lemma_decimal_grows(bytes@, first as int, at as int, end as int);
                }
            }
            return None;
        }
    }
    Some(number as u8)
}

/// Reads the argument after the program's name.
pub fn parse_args(args: Vec<String>) -> (parsed_args: Result<EParsedArgs, ParseError>)
    ensures
        parsed_args == if args@.len() <= 1 {
            Err(ParseError::NoArgument)
        } else {
            parsed(encode_utf8(args@[1]@))
        },
{
    if args.len() <= 1 {
        return Err(ParseError::NoArgument);
    }
    let bytes = args[1].as_str().as_bytes();
    if find_flag(bytes, 0x68) {
        Ok(EParsedArgs::Help)
    } else if find_flag(bytes, 0x64) {
        Ok(EParsedArgs::Dump)
    } else {
        match parse_duty(bytes) {
            Some(duty) => Ok(EParsedArgs::Duty(duty)),
            None => Err(ParseError::WrongArgument),
        }
    }
}

} // verus!
