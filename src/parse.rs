//! Reading the integers of upstream records.

use vstd::prelude::*;
use vstd::string::StringExecFns;
use crate::error::CustomError;
use crate::sync::TimeWindow;

verus! {

pub open spec fn is_digit(c: char) -> bool {
    '0' <= c && c <= '9'
}

/// The value of a string of decimal digits.
pub open spec fn digits_value(s: Seq<char>) -> int
    decreases s.len(),
{
    if s.len() == 0 {
        0
    } else {
        digits_value(s.drop_last()) * 10 + (s.last() as u32 - '0' as u32)
    }
}

/// A non-empty string of decimal digits.
pub open spec fn all_digits(s: Seq<char>) -> bool {
    s.len() > 0 && forall|i: int| 0 <= i < s.len() ==> is_digit(#[trigger] s[i])
}

/// The integer that `s` writes in decimal, with an optional leading sign.
pub open spec fn decimal_value(s: Seq<char>) -> Option<int> {
    if all_digits(s) {
        Some(digits_value(s))
    } else if s.len() > 0 && s[0] == '+' && all_digits(s.skip(1)) {
        Some(digits_value(s.skip(1)))
    } else if s.len() > 0 && s[0] == '-' && all_digits(s.skip(1)) {
        Some(-digits_value(s.skip(1)))
    } else {
        None
    }
}

/// The `i64` that `s` writes in decimal, if it writes one within range.
pub open spec fn i64_value(s: Seq<char>) -> Option<int> {
    match decimal_value(s) {
        Some(v) => if i64::MIN <= v <= i64::MAX {
            Some(v)
        } else {
            None
        },
        None => None,
    }
}

/// Relies on `str::parse::<i64>` (`FromStr` for `i64`): it accepts an
/// optional `+` or `-` followed by one or more decimal digits, whose value
/// lies within the range of `i64`, and fails on anything else, whitespace
/// included.
#[verifier::external_body]
fn parse_i64(value: &str) -> (r: Option<i64>)
    ensures
        match r {
            Some(v) => i64_value(value@) == Some(v as int),
            None => i64_value(value@) is None,
        },
{
    value.parse::<i64>().ok()
}

pub open spec fn parse_failure_message(field_name: Seq<char>) -> Seq<char> {
    "Failed to parse "@ + field_name + " as i64"@
}

/// Reads the decimal integer of a field of an upstream record; `field_name`
/// names the field in the error.
pub fn parse_to_type(value: &str, field_name: &str) -> (r: Result<i64, CustomError>)
    ensures
        match i64_value(value@) {
            Some(v) => r == Ok::<i64, CustomError>(v as i64),
            None => r is Err && r->Err_0.is_standard_error(parse_failure_message(field_name@)),
        },
{
    match parse_i64(value) {
        Some(v) => Ok(v),
        None => {
            let mut msg = "Failed to parse ".to_owned();
            msg.append(field_name);
            msg.append(" as i64");
            Err(CustomError::StandardError(msg))
        },
    }
}

/// The message for a field of an upstream record that is not in the
/// expected format.
pub fn generate_error_text(field_name: &str) -> (r: String)
    ensures
        r@ == "Incorrect "@ + field_name@ + " format"@,
{
    let mut text = "Incorrect ".to_owned();
    text.append(field_name);
    text.append(" format");
    text
}

/// The window that an upstream record's start and end times give, if both
/// are integers.
pub open spec fn window_of(start: Seq<char>, end: Seq<char>) -> Option<TimeWindow> {
    match (i64_value(start), i64_value(end)) {
        (Some(s), Some(e)) => Some(TimeWindow { start_time: s as i64, end_time: e as i64 }),
        _ => None,
    }
}

/// Reads the window of an upstream record from its start and end times.
pub fn parse_window(start_time: &str, end_time: &str) -> (r: Result<TimeWindow, CustomError>)
    ensures
        match window_of(start_time@, end_time@) {
            Some(w) => r == Ok::<TimeWindow, CustomError>(w),
            None => r is Err && r->Err_0 is StandardError,
        },
{
    let start = parse_to_type(start_time, "startTime")?;
    let end = parse_to_type(end_time, "endTime")?;
    Ok(TimeWindow { start_time: start, end_time: end })
}

} // verus!
