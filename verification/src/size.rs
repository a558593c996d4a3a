//! How much to fill, as given on the command line: a byte count or a
//! percentage of the total memory; and the two ways to read it.
//!
//! An amount is written `<digits>%` for a percentage, or `<digits>` with or
//! without one of the letters `K`, `M`, `G`, `T` after it for a byte count,
//! the letters standing for powers of 1024. Any other text is handed to
//! `bytesize`, which knows more units and fractions.

use crate::text::{
    all_digits, chars_of, decimal_within, digits_value, end_without_trailing, is_digit,
    only_digits, parse_decimal, same_text, without_trailing,
};
use bytesize::ByteSize;
use vstd::prelude::*;
use vstd::string::StringExecFns;

verus! {

/// An amount of memory.
#[derive(Clone, Copy, Debug, PartialEq, Eq, Structural)]
pub enum Size {
    /// So many bytes.
    Bytes(usize),
    /// So many hundredths of the total memory.
    Percent(u16),
}

/// What the amount is measured against.
#[derive(Clone, Copy, Debug, PartialEq, Eq, Structural)]
pub enum AllocationMode {
    /// Hold the amount.
    Absolute,
    /// Hold as much as it takes for the amount to be in use on the machine.
    Usage,
}

/// What `bytesize` reads `text` as: a number of bytes, or the message of its
/// refusal.
pub uninterp spec fn byte_size_of_text(text: Seq<char>) -> Result<u64, Seq<char>>;

/// A reading as plain values: the count, or the characters of the message.
pub open spec fn reading_view(reading: Result<u64, String>) -> Result<u64, Seq<char>> {
    match reading {
        Ok(bytes) => Ok(bytes),
        Err(message) => Err(message@),
    }
}

/// Reads `text` as a byte size with the `FromStr` implementation of
/// `bytesize::ByteSize`: a plain number of bytes, or a number with a unit
/// after it. The result, a count or the crate's message, is a function of
/// the text alone and goes by the name [`byte_size_of_text`].
#[verifier::external_body]
fn parse_byte_size(text: &str) -> (parsed: Result<u64, String>)
    ensures
        reading_view(parsed) == byte_size_of_text(text@),
{
    match text.parse::<ByteSize>() {
        Ok(size) => Ok(size.as_u64()),
        Err(message) => Err(message),
    }
}

/// The message for a text that ends in `%` and is no percentage.
pub open spec fn percent_refusal() -> Seq<char> {
    "a percentage is a whole number up to 65535 followed by %"@
}

/// The message for a byte count that is more than can be counted.
pub open spec fn size_refusal() -> Seq<char> {
    "the size is more bytes than can be counted"@
}

/// The message for a text that names no allocation mode.
pub open spec fn mode_refusal() -> Seq<char> {
    "the allocation mode is absolute or usage"@
}

/// `percent` hundredths of `total`, rounded down.
pub open spec fn percent_of(total: nat, percent: nat) -> nat {
    total * percent / 100
}

/// What a text that ends in `%` says: the number before the percent signs,
/// if it is one that fits.
pub open spec fn percent_of_text(input: Seq<char>) -> Result<Size, Seq<char>> {
    match decimal_within(without_trailing(input, '%'), u16::MAX as nat) {
        Some(percent) => Ok(Size::Percent(percent as u16)),
        None => Err(percent_refusal()),
    }
}

/// The bytes that the unit letter `c` stands for: `K`, `M`, `G` and `T` are
/// 1024 and its second, third and fourth power.
pub open spec fn unit_of(c: char) -> Option<nat> {
    if c == 'K' {
        Some(1024)
    } else if c == 'M' {
        Some(1_048_576)
    } else if c == 'G' {
        Some(1_073_741_824)
    } else if c == 'T' {
        Some(1_099_511_627_776)
    } else {
        None
    }
}

/// The bytes that a text of the form `<digits>` or `<digits><unit letter>`
/// writes: the number, times what the letter stands for. A text of another
/// form writes none.
pub open spec fn binary_size_of_text(input: Seq<char>) -> Option<nat> {
    if input.len() > 0 && all_digits(input) {
        Some(digits_value(input))
    } else if input.len() > 1 && all_digits(input.drop_last()) && unit_of(input.last()) is Some {
        Some(digits_value(input.drop_last()) * unit_of(input.last())->0)
    } else {
        None
    }
}

/// What a byte count of the crate's own form says: the count where it can be
/// counted.
pub open spec fn bytes_of_count(bytes: nat) -> Result<Size, Seq<char>> {
    if bytes <= usize::MAX {
        Ok(Size::Bytes(bytes as usize))
    } else {
        Err(size_refusal())
    }
}

/// What a byte size that was read says.
pub open spec fn bytes_of_reading(reading: Result<u64, Seq<char>>) -> Result<Size, Seq<char>> {
    match reading {
        Ok(bytes) => Ok(Size::Bytes(bytes as usize)),
        Err(message) => Err(message),
    }
}

/// What `input` says as an amount of memory: a percentage where it ends in
/// `%`; a byte count where it is digits with or without a unit letter after
/// them; else what `bytesize` reads it as.
pub open spec fn size_of_text(input: Seq<char>) -> Result<Size, Seq<char>> {
    if input.len() > 0 && input.last() == '%' {
        percent_of_text(input)
    } else {
        match binary_size_of_text(input) {
            Some(bytes) => bytes_of_count(bytes),
            None => bytes_of_reading(byte_size_of_text(input)),
        }
    }
}

/// Whether `result` is what `expected` says, message for message.
pub open spec fn size_result_is(
    result: Result<Size, String>,
    expected: Result<Size, Seq<char>>,
) -> bool {
    match result {
        Ok(size) => expected == Ok::<Size, Seq<char>>(size),
        Err(message) => expected == Err::<Size, Seq<char>>(message@),
    }
}

/// Turns a byte size that was read into an amount, and passes a refusal on.
pub fn size_from_reading(reading: Result<u64, String>) -> (result: Result<Size, String>)
    ensures
        reading matches Ok(bytes) ==> result == Ok::<Size, String>(Size::Bytes(bytes as usize)),
        reading matches Err(message) ==> result == Err::<Size, String>(message),
{
    match reading {
        Ok(bytes) => Ok(Size::Bytes(bytes as usize)),
        Err(message) => Err(message),
    }
}

/// The bytes that the unit letter `c` stands for.
pub fn unit_factor(c: char) -> (unit: Option<u64>)
    ensures
        match unit {
            Some(bytes) => unit_of(c) == Some(bytes as nat),
            None => unit_of(c) is None,
        },
{
    if c == 'K' {
        Some(1024)
    } else if c == 'M' {
        Some(1_048_576)
    } else if c == 'G' {
        Some(1_073_741_824)
    } else if c == 'T' {
        Some(1_099_511_627_776)
    } else {
        None
    }
}

/// The number that the digits of `cs` before `end` write, times `unit`,
/// where that can be counted.
fn count_bytes(cs: &Vec<char>, end: usize, unit: u64) -> (bytes: Option<usize>)
    requires
        0 < end <= cs@.len(),
        all_digits(cs@.subrange(0, end as int)),
        0 < unit <= 1_099_511_627_776,
    ensures
        match bytes {
            Some(count) => count == digits_value(cs@.subrange(0, end as int)) * unit,
            None => digits_value(cs@.subrange(0, end as int)) * unit > usize::MAX,
        },
{
    let ghost digits = cs@.subrange(0, end as int);
    let most: u64 = usize::MAX as u64 / unit;
    assert(is_digit(digits[0]));
    assert(decimal_within(digits, most as nat) == if digits_value(digits) <= most {
        Some(digits_value(digits))
    } else {
        None
    });
    match parse_decimal(cs, 0, end, most) {
        Some(number) => {
            assert(number * unit <= usize::MAX) by (nonlinear_arith)
                requires
                    number <= most,
                    most == (usize::MAX as u64) / unit,
                    unit > 0,
            ;
            Some((number * unit) as usize)
        },
        None => {
            assert(digits_value(digits) * unit > usize::MAX) by (nonlinear_arith)
                requires
                    digits_value(digits) > most,
                    most == (usize::MAX as u64) / unit,
                    unit > 0,
            ;
            None
        },
    }
}

/// Reads a byte count of the crate's own form: `<digits>`, or `<digits>`
/// and one of the unit letters `K`, `M`, `G`, `T`, which stand for powers of
/// 1024. Returns nothing for a text of another form; else the count, or a
/// refusal where it is more than can be counted.
pub fn parse_binary_size(input: &str) -> (result: Option<Result<Size, String>>)
    ensures
        match result {
            Some(read) => binary_size_of_text(input@) matches Some(bytes) && size_result_is(
                read,
                bytes_of_count(bytes),
            ),
            None => binary_size_of_text(input@) is None,
        },
{
    let cs = chars_of(input);
    let n: usize = cs.len();
    if n == 0 {
        return None;
    }
    assert(cs@.subrange(0, n as int) == cs@);
    assert(cs@.subrange(0, n - 1) == cs@.drop_last());
    assert(all_digits(cs@) ==> is_digit(cs@.last()));
    let (end, unit): (usize, u64) = match unit_factor(cs[n - 1]) {
        Some(bytes) => (n - 1, bytes),
        None => (n, 1),
    };
    if end == 0 || !only_digits(&cs, 0, end) {
        return None;
    }
    assert(digits_value(cs@.subrange(0, end as int)) * 1 == digits_value(
        cs@.subrange(0, end as int),
    ));
    match count_bytes(&cs, end, unit) {
        Some(count) => Some(Ok(Size::Bytes(count))),
        None => Some(Err(String::from_str("the size is more bytes than can be counted"))),
    }
}

/// Reads an amount of memory. `<digits>%` is a percentage of the total
/// memory. `<digits>`, with or without one of the unit letters `K`, `M`,
/// `G`, `T` after it, is a byte count, the letters standing for powers of
/// 1024. Any other text is read as a byte size by `bytesize`.
pub fn parse_size(input: &str) -> (result: Result<Size, String>)
    ensures
        size_result_is(result, size_of_text(input@)),
{
    let cs = chars_of(input);
    if cs.len() > 0 && cs[cs.len() - 1] == '%' {
        let end = end_without_trailing(&cs, '%');
        assert(cs@.subrange(0, end as int) == cs@.take(end as int));
        match parse_decimal(&cs, 0, end, 65535) {
            Some(percent) => Ok(Size::Percent(percent as u16)),
            None => Err(
                String::from_str("a percentage is a whole number up to 65535 followed by %"),
            ),
        }
    } else {
        match parse_binary_size(input) {
            Some(read) => read,
            None => size_from_reading(parse_byte_size(input)),
        }
    }
}

impl AllocationMode {
    /// The mode that `input` names, if it names one.
    pub open spec fn named(input: Seq<char>) -> Option<AllocationMode> {
        if input == "absolute"@ {
            Some(AllocationMode::Absolute)
        } else if input == "usage"@ {
            Some(AllocationMode::Usage)
        } else {
            None
        }
    }

    /// Reads an allocation mode: `absolute` or `usage`.
    pub fn parse(input: &str) -> (result: Result<AllocationMode, String>)
        ensures
            result matches Ok(mode) ==> AllocationMode::named(input@) == Some(mode),
            result matches Err(message) ==> AllocationMode::named(input@) is None && message@
                == mode_refusal(),
    {
        if same_text(input, "absolute") {
            Ok(AllocationMode::Absolute)
        } else if same_text(input, "usage") {
            Ok(AllocationMode::Usage)
        } else {
            Err(String::from_str("the allocation mode is absolute or usage"))
        }
    }
}

impl Size {
    /// The bytes that the amount comes to on a machine with `total` bytes of
    /// memory.
    pub open spec fn bytes_of(self, total: usize) -> nat {
        match self {
            Size::Bytes(bytes) => bytes as nat,
            Size::Percent(percent) => percent_of(total as nat, percent as nat),
        }
    }

    /// The bytes that the amount comes to on a machine with `total` bytes of
    /// memory: the byte count itself, or the percentage of `total`, rounded
    /// down.
    pub fn bytes(self, total: usize) -> (bytes: u128)
        ensures
            bytes == self.bytes_of(total),
    {
        match self {
            Size::Bytes(bytes) => bytes as u128,
            Size::Percent(percent) => {
                assert(total * percent <= 0xffff_ffff_ffff_ffff * 0xffff) by (nonlinear_arith)
                    requires
                        0 <= total <= 0xffff_ffff_ffff_ffff,
                        0 <= percent <= 0xffff,
                ;
                (total as u128) * (percent as u128) / 100
            },
        }
    }
}

} // verus!
