//! The catalog of named intervals and their lengths.

use vstd::prelude::*;
use crate::text::same_text;

verus! {

/// Length of the base granularity of the upstream feed, in seconds.
pub const HOUR_SECONDS: i64 = 3600;

/// Whether `name` is one of the interval names that queries accept.
pub open spec fn is_interval_name(name: Seq<char>) -> bool {
    ||| name == "hour"@
    ||| name == "day"@
    ||| name == "week"@
    ||| name == "month"@
    ||| name == "quarter"@
    ||| name == "year"@
}

/// Duration in seconds of the interval called `name`; an unknown name
/// stands for an hour. A month is 31 days, a quarter 92 and a year 366.
pub open spec fn interval_seconds(name: Seq<char>) -> int {
    if name == "day"@ {
        86_400
    } else if name == "week"@ {
        604_800
    } else if name == "month"@ {
        2_678_400
    } else if name == "quarter"@ {
        7_948_800
    } else if name == "year"@ {
        31_622_400
    } else {
        3_600
    }
}

/// Every interval lasts at least an hour and at most a year.
pub proof fn lemma_interval_seconds_bounds(name: Seq<char>)
    ensures
        3_600 <= interval_seconds(name) <= 31_622_400,
{
}

/// Duration in seconds of the named interval; an unknown name gives an hour.
pub fn get_seconds_per_interval(interval: &str) -> (r: i32)
    ensures
        r as int == interval_seconds(interval@),
{
    if same_text(interval, "day") {
        86_400
    } else if same_text(interval, "week") {
        604_800
    } else if same_text(interval, "month") {
        2_678_400
    } else if same_text(interval, "quarter") {
        7_948_800
    } else if same_text(interval, "year") {
        31_622_400
    } else {
        3_600
    }
}

/// Whether the name is one that queries accept.
pub fn is_known_interval(interval: &str) -> (r: bool)
    ensures
        r == is_interval_name(interval@),
{
    same_text(interval, "hour") || same_text(interval, "day") || same_text(interval, "week")
        || same_text(interval, "month") || same_text(interval, "quarter") || same_text(
        interval,
        "year",
    )
}

} // verus!
