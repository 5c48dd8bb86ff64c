//! Validation and planning of read queries.

use vstd::prelude::*;
use crate::bucket::SampleFilter;
use crate::error::CustomError;
use crate::interval::{get_seconds_per_interval, interval_seconds, is_interval_name, is_known_interval, lemma_interval_seconds_bounds};
use crate::text::same_text;

verus! {

/// Number of buckets a query looks back over, and the largest page, when
/// the caller does not say.
pub const DEFAULT_COUNT: u32 = 400;

/// The largest `count` and `limit` a query may ask for.
pub const MAX_COUNT: u32 = 400;

/// The one pool whose depth, price and swap history is kept.
pub open spec fn btc_pool() -> Seq<char> {
    "BTC.BTC"@
}

/// The parameters of a read query, as the caller gives them.
#[derive(Debug)]
pub struct QueryParams {
    pub pool: Option<String>,
    pub interval: Option<String>,
    pub count: Option<u32>,
    pub to: Option<u64>,
    pub from: Option<u64>,
    pub page: Option<u64>,
    pub sort_by: Option<String>,
    pub sort_order: Option<i8>,
    pub limit: Option<i16>,
}

/// The metric families that the service keeps.
#[derive(Clone, Copy, Debug, PartialEq, Eq, Structural)]
pub enum Family {
    DepthPrice,
    Swap,
    Earning,
    RunePool,
}

/// How the buckets of a result are ordered before paging: by time, or by
/// a named measurement field.
#[derive(Debug)]
pub enum SortKey {
    Time,
    Field(String),
}

/// What a validated query asks of the store and of the resampling.
#[derive(Debug)]
pub struct QueryPlan {
    pub filter: SampleFilter,
    pub interval_seconds: i64,
    pub sort: SortKey,
    pub descending: bool,
    pub skip: u128,
    pub limit: u64,
}

pub open spec fn range_message() -> Seq<char> {
    "start_time must be less than end_time."@
}

pub open spec fn page_message() -> Seq<char> {
    "page must be positive number"@
}

pub open spec fn count_message() -> Seq<char> {
    "Count has to be [1..400]"@
}

pub open spec fn limit_message() -> Seq<char> {
    "Limit has to be [1..400]"@
}

pub open spec fn interval_message() -> Seq<char> {
    "Interval must be in [\"hour\", \"day\", \"week\", \"month\", \"quarter\", \"year\"]"@
}

/// Why a query is refused, checking its rules in order, or `None` when it
/// is valid: `from` must come before `to`, `page` must be positive, `count`
/// and `limit` must lie in `[1, 400]`, and `interval` must be a known name.
pub open spec fn query_rejection(q: QueryParams) -> Option<Seq<char>> {
    if q.from is Some && q.to is Some && q.from->0 >= q.to->0 {
        Some(range_message())
    } else if q.page == Some(0u64) {
        Some(page_message())
    } else if q.count matches Some(c) && (c < 1 || c > 400) {
        Some(count_message())
    } else if q.limit matches Some(l) && (l < 1 || l > 400) {
        Some(limit_message())
    } else if q.interval matches Some(i) && !is_interval_name(i@) {
        Some(interval_message())
    } else {
        None
    }
}

/// Checks the parameters of a query against the documented ranges.
pub fn validate_query(query: &QueryParams) -> (r: Result<(), CustomError>)
    ensures
        match query_rejection(*query) {
            None => r is Ok,
            Some(msg) => r is Err && r->Err_0.is_invalid_input(msg),
        },
{
    if let (Some(start), Some(end)) = (query.from, query.to) {
        if start >= end {
            return Err(CustomError::InvalidInput("start_time must be less than end_time.".to_owned()));
        }
    }
    if let Some(page) = query.page {
        if page < 1 {
            return Err(CustomError::InvalidInput("page must be positive number".to_owned()));
        }
    }
    if let Some(count) = query.count {
        if count < 1 || count > MAX_COUNT {
            return Err(CustomError::InvalidInput("Count has to be [1..400]".to_owned()));
        }
    }
    if let Some(limit) = query.limit {
        if limit < 1 || limit > 400 {
            return Err(CustomError::InvalidInput("Limit has to be [1..400]".to_owned()));
        }
    }
    if let Some(interval) = &query.interval {
        if !is_known_interval(interval.as_str()) {
            return Err(
                CustomError::InvalidInput(
                    "Interval must be in [\"hour\", \"day\", \"week\", \"month\", \"quarter\", \"year\"]".to_owned(),
                ),
            );
        }
    }
    Ok(())
}

pub open spec fn depth_pool_message() -> Seq<char> {
    "Depth and price history for only BTC.BTC available"@
}

pub open spec fn swap_pool_message() -> Seq<char> {
    "Swap history for only BTC.BTC available"@
}

pub open spec fn rune_pool_message() -> Seq<char> {
    "Invalid parameter pool!"@
}

/// Why a family refuses the pool a query names, or `None` when it takes it:
/// depth and swap history is kept for BTC.BTC alone, the rune pool history
/// has no pools, and earnings are kept for every pool.
pub open spec fn pool_rejection(family: Family, pool: Option<String>) -> Option<Seq<char>> {
    match pool {
        None => None,
        Some(p) => match family {
            Family::DepthPrice => if p@ == btc_pool() {
                None
            } else {
                Some(depth_pool_message())
            },
            Family::Swap => if p@ == btc_pool() {
                None
            } else {
                Some(swap_pool_message())
            },
            Family::RunePool => Some(rune_pool_message()),
            Family::Earning => None,
        },
    }
}

/// Checks the pool that a query names against the family's rule.
pub fn check_pool(family: Family, pool: &Option<String>) -> (r: Result<(), CustomError>)
    ensures
        match pool_rejection(family, *pool) {
            None => r is Ok,
            Some(msg) => r is Err && r->Err_0.is_invalid_input(msg),
        },
{
    match pool {
        None => Ok(()),
        Some(p) => match family {
            Family::DepthPrice => if same_text(p.as_str(), "BTC.BTC") {
                Ok(())
            } else {
                Err(
                    CustomError::InvalidInput(
                        "Depth and price history for only BTC.BTC available".to_owned(),
                    ),
                )
            },
            Family::Swap => if same_text(p.as_str(), "BTC.BTC") {
                Ok(())
            } else {
                Err(CustomError::InvalidInput("Swap history for only BTC.BTC available".to_owned()))
            },
            Family::RunePool => Err(CustomError::InvalidInput("Invalid parameter pool!".to_owned())),
            Family::Earning => Ok(()),
        },
    }
}

/// An epoch time given as `u64`, held in an `i64`; times past the largest
/// `i64` compare with every stored time as the largest `i64` does.
pub open spec fn clamp_time(t: u64) -> int {
    if t > i64::MAX {
        i64::MAX as int
    } else {
        t as int
    }
}

/// `x` brought into the range of an `i64`.
pub open spec fn clamp_i64(x: int) -> int {
    if x > i64::MAX {
        i64::MAX as int
    } else if x < i64::MIN {
        i64::MIN as int
    } else {
        x
    }
}

/// Seconds per bucket of the query: those of its interval, an hour by default.
pub open spec fn query_seconds(q: QueryParams) -> int {
    match q.interval {
        Some(i) => interval_seconds(i@),
        None => 3600,
    }
}

/// How many buckets the query looks back over when it gives no `from`.
pub open spec fn query_count(q: QueryParams) -> int {
    match q.count {
        Some(c) => c as int,
        None => 400,
    }
}

/// The time the look-back window ends at: `to` when given, else the end of
/// the latest stored sample, else the present.
pub open spec fn query_anchor(q: QueryParams, latest_end: Option<i64>, now: i64) -> int {
    match q.to {
        Some(t) => clamp_time(t),
        None => match latest_end {
            Some(e) => e as int,
            None => now as int,
        },
    }
}

/// Earliest start of the samples the query reads: `from` when given, else
/// `count` buckets back from the anchor.
pub open spec fn query_min_start(q: QueryParams, latest_end: Option<i64>, now: i64) -> int {
    match q.from {
        Some(f) => clamp_time(f),
        None => clamp_i64(query_anchor(q, latest_end, now) - query_count(q) * query_seconds(q)),
    }
}

/// Buckets per page: `limit`, else `count`, else 400.
pub open spec fn query_limit(q: QueryParams) -> int {
    match q.limit {
        Some(l) => l as int,
        None => query_count(q),
    }
}

/// Buckets skipped before the page: `(page - 1) * limit`, the first page by default.
pub open spec fn query_skip(q: QueryParams) -> int {
    match q.page {
        Some(p) => (p - 1) * query_limit(q),
        None => 0,
    }
}

/// Whether a `sort_by` name orders by time.
pub open spec fn is_time_field(name: Seq<char>) -> bool {
    ||| name == "startTime"@
    ||| name == "endTime"@
    ||| name == "start_time"@
    ||| name == "end_time"@
}

/// Results come newest first unless `sort_by` is given; then they come in
/// ascending order when `sort_order` is 1 or absent, and descending for any
/// other `sort_order`.
pub open spec fn query_descending(q: QueryParams) -> bool {
    match q.sort_by {
        None => true,
        Some(_) => match q.sort_order {
            Some(o) => o != 1,
            None => false,
        },
    }
}

/// The plan that a valid query gives.
pub open spec fn plans(q: QueryParams, latest_end: Option<i64>, now: i64, p: QueryPlan) -> bool {
    &&& p.filter.pool == q.pool
    &&& p.filter.min_start as int == query_min_start(q, latest_end, now)
    &&& p.filter.max_end == (match q.to {
        Some(t) => Some(clamp_time(t) as i64),
        None => None::<i64>,
    })
    &&& p.interval_seconds as int == query_seconds(q)
    &&& match q.sort_by {
        None => p.sort is Time,
        Some(name) => if is_time_field(name@) {
            p.sort is Time
        } else {
            p.sort matches SortKey::Field(f) && f@ == name@
        },
    }
    &&& p.descending == query_descending(q)
    &&& p.skip as int == query_skip(q)
    &&& p.limit as int == query_limit(q)
}

/// An `u64` epoch time held in an `i64`.
fn clamp_to_i64(t: u64) -> (r: i64)
    ensures
        r as int == clamp_time(t),
{
    if t > i64::MAX as u64 {
        i64::MAX
    } else {
        t as i64
    }
}

fn clone_text(s: &Option<String>) -> (r: Option<String>)
    ensures
        r == *s,
{
    match s {
        None => None,
        Some(t) => Some(t.clone()),
    }
}

/// Turns a query of a family into the plan of its read: checks the
/// parameters, then the pool, and then fixes the window of stored samples
/// to read, the interval, the order and the page.
///
/// `latest_end` is the end of the latest sample stored for the family, if
/// any, and `now` the present time; both only matter when the query gives
/// neither `from` nor `to`.
pub fn plan_query(family: Family, query: &QueryParams, latest_end: Option<i64>, now: i64) -> (r: Result<QueryPlan, CustomError>)
    ensures
        match query_rejection(*query) {
            Some(msg) => r is Err && r->Err_0.is_invalid_input(msg),
            None => match pool_rejection(family, query.pool) {
                Some(msg) => r is Err && r->Err_0.is_invalid_input(msg),
                None => r is Ok && plans(*query, latest_end, now, r->Ok_0),
            },
        },
{
    validate_query(query)?;
    check_pool(family, &query.pool)?;
    let seconds: i64 = match &query.interval {
        Some(i) => {
            proof {
                lemma_interval_seconds_bounds(i@);
            }
            get_seconds_per_interval(i.as_str()) as i64
        },
        None => 3600,
    };
    let count: u32 = match query.count {
        Some(c) => c,
        None => DEFAULT_COUNT,
    };
    let min_start: i64 = match query.from {
        Some(f) => clamp_to_i64(f),
        None => {
            let anchor: i64 = match query.to {
                Some(t) => clamp_to_i64(t),
                None => match latest_end {
                    Some(e) => e,
                    None => now,
                },
            };
            assert(count as int * seconds as int <= 400 * 31_622_400) by (nonlinear_arith)
                requires
                    count <= 400,
                    seconds <= 31_622_400,
                    0 <= seconds,
            ;
            let back: i64 = count as i64 * seconds;
            match anchor.checked_sub(back) {
                Some(v) => v,
                None => i64::MIN,
            }
        },
    };
    let max_end: Option<i64> = match query.to {
        Some(t) => Some(clamp_to_i64(t)),
        None => None,
    };
    let limit: u64 = match query.limit {
        Some(l) => l as u64,
        None => count as u64,
    };
    let skip: u128 = match query.page {
        Some(p) => {
            assert((p - 1) * limit <= u64::MAX * 400) by (nonlinear_arith)
                requires
                    1 <= p <= u64::MAX,
                    limit <= 400,
            ;
            (p - 1) as u128 * limit as u128
        },
        None => 0,
    };
    let sort: SortKey = match &query.sort_by {
        None => SortKey::Time,
        Some(name) => {
            let n = name.as_str();
            if same_text(n, "startTime") || same_text(n, "endTime") || same_text(n, "start_time")
                || same_text(n, "end_time") {
                SortKey::Time
            } else {
                SortKey::Field(name.clone())
            }
        },
    };
    let descending: bool = match &query.sort_by {
        None => true,
        Some(_) => match query.sort_order {
            Some(o) => o != 1,
            None => false,
        },
    };
    Ok(
        QueryPlan {
            filter: SampleFilter { pool: clone_text(&query.pool), min_start, max_end },
            interval_seconds: seconds,
            sort,
            descending,
            skip,
            limit,
        },
    )
}

} // verus!
