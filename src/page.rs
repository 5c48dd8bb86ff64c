//! Ordering, paging and summing up the buckets of a query.

use vstd::prelude::*;
use crate::bucket::{resample, resamples, times_fit, time_fits, Bucket, StoredSample};
use crate::error::CustomError;
use crate::interval::lemma_interval_seconds_bounds;
use crate::query::{plan_query, plans, query_seconds, pool_rejection, query_rejection, Family, QueryParams, QueryPlan, SortKey};

verus! {

/// The bounds of a page and the samples that stand for its first and last
/// bucket, from which the per-family summary deltas are taken.
#[derive(Clone, Copy, Debug, PartialEq, Eq, Structural)]
pub struct PageMeta {
    pub start_time: i64,
    pub end_time: i64,
    pub first: usize,
    pub last: usize,
}

/// One page of a resampled result and its summary.
#[derive(Debug)]
pub struct QueryPage {
    pub buckets: Vec<Bucket>,
    pub meta: PageMeta,
}

/// The plan of a query and every bucket it produces, in increasing time order.
#[derive(Debug)]
pub struct Resampled {
    pub plan: QueryPlan,
    pub buckets: Vec<Bucket>,
}

pub open spec fn empty_page_message() -> Seq<char> {
    "no interval matches the query"@
}

pub open spec fn stored_time_message() -> Seq<char> {
    "stored sample time out of range"@
}

/// The buckets at positions `skip .. skip + limit` of `s`, as far as `s` reaches.
pub open spec fn page_of(s: Seq<Bucket>, skip: int, limit: int) -> Seq<Bucket> {
    let lo = if skip < s.len() { skip } else { s.len() as int };
    let hi = if skip + limit < s.len() { skip + limit } else { s.len() as int };
    s.subrange(lo, hi)
}

/// The order in which a plan pages the buckets it is handed: reversed for a
/// descending time order, and as handed otherwise (ascending time, or the
/// caller's order by a measurement field).
pub open spec fn ordered_for(p: QueryPlan, b: Seq<Bucket>) -> Seq<Bucket> {
    if p.sort is Time && p.descending {
        b.reverse()
    } else {
        b
    }
}

/// Bucket `i` starts earliest on the page, and no bucket before it starts
/// as early.
pub open spec fn is_earliest(page: Seq<Bucket>, i: int) -> bool {
    &&& 0 <= i < page.len()
    &&& forall|j: int| 0 <= j < page.len() ==> page[i].start_time <= #[trigger] page[j].start_time
    &&& forall|j: int| 0 <= j < i ==> #[trigger] page[j].start_time > page[i].start_time
}

/// Bucket `i` ends latest on the page, and no bucket before it ends as late.
pub open spec fn is_latest(page: Seq<Bucket>, i: int) -> bool {
    &&& 0 <= i < page.len()
    &&& forall|j: int| 0 <= j < page.len() ==> page[i].end_time >= #[trigger] page[j].end_time
    &&& forall|j: int| 0 <= j < i ==> #[trigger] page[j].end_time < page[i].end_time
}

/// The summary of a non-empty page, in time order whatever the order of
/// the page: it starts where its earliest bucket starts and ends where its
/// latest bucket ends, and names the samples that stand for those two
/// buckets, from which the family's deltas are taken (latest minus earliest).
pub open spec fn summarizes(page: Seq<Bucket>, m: PageMeta) -> bool {
    &&& page.len() > 0
    &&& exists|i: int|
        #[trigger] is_earliest(page, i) && m.start_time == page[i].start_time && m.first
            == page[i].representative
    &&& exists|k: int|
        #[trigger] is_latest(page, k) && m.end_time == page[k].end_time && m.last
            == page[k].representative
}

/// The buckets in reverse order.
pub fn reverse_buckets(buckets: &Vec<Bucket>) -> (r: Vec<Bucket>)
    ensures
        r@ == buckets@.reverse(),
{
    let mut out: Vec<Bucket> = Vec::new();
    let n = buckets.len();
    let mut i: usize = n;
    while i > 0
        invariant
            n == buckets@.len(),
            i <= n,
            out@.len() == n - i,
            forall|j: int| 0 <= j < n - i ==> #[trigger] out@[j] == buckets@[n - 1 - j],
        decreases i,
    {
        i = i - 1;
        out.push(buckets[i]);
    }
    assert(out@ =~= buckets@.reverse());
    out
}

/// The buckets at positions `skip .. skip + limit` of `ordered`.
pub fn take_page(ordered: &Vec<Bucket>, skip: u128, limit: u64) -> (r: Vec<Bucket>)
    ensures
        r@ == page_of(ordered@, skip as int, limit as int),
{
    let n = ordered.len();
    let lo: usize = if skip < n as u128 {
        skip as usize
    } else {
        n
    };
    let hi: usize = if skip < n as u128 && (limit as u128) < n as u128 - skip {
        (skip + limit as u128) as usize
    } else {
        n
    };
    let mut out: Vec<Bucket> = Vec::new();
    let mut i: usize = lo;
    while i < hi
        invariant
            n == ordered@.len(),
            lo <= i <= hi <= n,
            out@ == ordered@.subrange(lo as int, i as int),
        decreases hi - i,
    {
        out.push(ordered[i]);
        i = i + 1;
        assert(out@ =~= ordered@.subrange(lo as int, i as int));
    }
    out
}

/// The summary of a page, in time order; a page without buckets has none.
pub fn page_meta(page: &Vec<Bucket>) -> (r: Result<PageMeta, CustomError>)
    ensures
        page@.len() == 0 ==> r is Err && r->Err_0.is_invalid_input(empty_page_message()),
        page@.len() > 0 ==> r is Ok && summarizes(page@, r->Ok_0),
{
    let n = page.len();
    if n == 0 {
        return Err(CustomError::InvalidInput("no interval matches the query".to_owned()));
    }
    let mut earliest: usize = 0;
    let mut latest: usize = 0;
    let mut i: usize = 1;
    while i < n
        invariant
            n == page@.len(),
            1 <= i <= n,
            earliest < i,
            latest < i,
            forall|j: int| 0 <= j < i ==> page@[earliest as int].start_time <= #[trigger] page@[j].start_time,
            forall|j: int| 0 <= j < earliest ==> #[trigger] page@[j].start_time > page@[earliest as int].start_time,
            forall|j: int| 0 <= j < i ==> page@[latest as int].end_time >= #[trigger] page@[j].end_time,
            forall|j: int| 0 <= j < latest ==> #[trigger] page@[j].end_time < page@[latest as int].end_time,
        decreases n - i,
    {
        if page[i].start_time < page[earliest].start_time {
            earliest = i;
        }
        if page[i].end_time > page[latest].end_time {
            latest = i;
        }
        i = i + 1;
    }
    assert(is_earliest(page@, earliest as int));
    assert(is_latest(page@, latest as int));
    Ok(
        PageMeta {
            start_time: page[earliest].start_time,
            end_time: page[latest].end_time,
            first: page[earliest].representative,
            last: page[latest].representative,
        },
    )
}

/// The summary of a page whose buckets are in increasing time order runs
/// from its first bucket to its last; that of a page in decreasing time
/// order, as a newest-first query gives, from its last bucket to its first.
pub proof fn lemma_summary_of_time_ordered_page(page: Seq<Bucket>, m: PageMeta)
    requires
        summarizes(page, m),
    ensures
        (forall|a: int, b: int|
            0 <= a < b < page.len() ==> #[trigger] page[a].start_time < #[trigger] page[b].start_time
                && page[a].end_time < page[b].end_time) ==> m.start_time == page[0].start_time
            && m.first == page[0].representative && m.end_time == page.last().end_time && m.last
            == page.last().representative,
        (forall|a: int, b: int|
            0 <= a < b < page.len() ==> #[trigger] page[a].start_time > #[trigger] page[b].start_time
                && page[a].end_time > page[b].end_time) ==> m.start_time == page.last().start_time
            && m.first == page.last().representative && m.end_time == page[0].end_time && m.last
            == page[0].representative,
{
    let n = page.len() as int;
    let i = choose|i: int|
        #[trigger] is_earliest(page, i) && m.start_time == page[i].start_time && m.first
            == page[i].representative;
    let k = choose|k: int|
        #[trigger] is_latest(page, k) && m.end_time == page[k].end_time && m.last
            == page[k].representative;
    if forall|a: int, b: int|
        0 <= a < b < page.len() ==> #[trigger] page[a].start_time < #[trigger] page[b].start_time
            && page[a].end_time < page[b].end_time {
        if i != 0 {
            assert(page[0].start_time < page[i].start_time);
        }
        if k != n - 1 {
            assert(page[k].start_time < page[n - 1].start_time);
        }
    }
    if forall|a: int, b: int|
        0 <= a < b < page.len() ==> #[trigger] page[a].start_time > #[trigger] page[b].start_time
            && page[a].end_time > page[b].end_time {
        if i != n - 1 {
            assert(page[i].start_time > page[n - 1].start_time);
        }
        if k != 0 {
            assert(page[0].start_time > page[k].start_time);
        }
    }
}

/// Pages the buckets of a query and sums the page up.
///
/// The buckets come in increasing time order for a plan that sorts by time,
/// and in the caller's order for one that sorts by a measurement field. A
/// descending time order reverses them; the page is then the buckets at
/// positions `skip .. skip + limit`, and it must hold at least one bucket.
pub fn finish_query(plan: &QueryPlan, buckets: Vec<Bucket>) -> (r: Result<QueryPage, CustomError>)
    ensures
        ({
            let page = page_of(ordered_for(*plan, buckets@), plan.skip as int, plan.limit as int);
            &&& page.len() == 0 ==> r is Err && r->Err_0.is_invalid_input(empty_page_message())
            &&& page.len() > 0 ==> r is Ok && r->Ok_0.buckets@ == page && summarizes(page, r->Ok_0.meta)
        }),
{
    let ordered = match plan.sort {
        SortKey::Time => if plan.descending {
            reverse_buckets(&buckets)
        } else {
            buckets
        },
        SortKey::Field(_) => buckets,
    };
    let page = take_page(&ordered, plan.skip, plan.limit);
    let meta = page_meta(&page)?;
    Ok(QueryPage { buckets: page, meta })
}

/// Whether every stored sample has a bucket of `seconds` seconds whose
/// bounds fit in an `i64`.
pub fn stored_times_fit(samples: &Vec<StoredSample>, seconds: i64) -> (r: bool)
    requires
        0 < seconds,
    ensures
        r == times_fit(samples@, seconds as int),
{
    let mut i: usize = 0;
    while i < samples.len()
        invariant
            0 < seconds,
            0 <= i <= samples@.len(),
            forall|j: int| 0 <= j < i ==> time_fits(#[trigger] samples@[j].end_time as int, seconds as int),
        decreases samples@.len() - i,
    {
        let e = samples[i].end_time;
        if e < i64::MIN + seconds || e > i64::MAX - seconds {
            return false;
        }
        i = i + 1;
    }
    true
}

/// Answers a read query of a family over the stored samples handed in:
/// plans it, then groups the samples that the plan reads into buckets.
///
/// `latest_end` is the end of the latest stored sample of the family, if
/// any, and `now` the present time. Stored samples whose buckets would not
/// fit in an `i64` are a storage fault.
pub fn resample_query(family: Family, query: &QueryParams, latest_end: Option<i64>, now: i64, samples: &Vec<StoredSample>) -> (r: Result<Resampled, CustomError>)
    ensures
        match query_rejection(*query) {
            Some(msg) => r is Err && r->Err_0.is_invalid_input(msg),
            None => match pool_rejection(family, query.pool) {
                Some(msg) => r is Err && r->Err_0.is_invalid_input(msg),
                None => match r {
                    Ok(res) => {
                        &&& times_fit(samples@, query_seconds(*query))
                        &&& plans(*query, latest_end, now, res.plan)
                        &&& resamples(
                            samples@,
                            res.plan.filter,
                            res.plan.interval_seconds as int,
                            samples@.len() as int,
                            res.buckets@,
                        )
                    },
                    Err(e) => e.is_database_error(stored_time_message()) && !times_fit(
                        samples@,
                        query_seconds(*query),
                    ),
                },
            },
        },
{
    let plan = plan_query(family, query, latest_end, now)?;
    proof {
        if query.interval is Some {
            let i = query.interval->0;
            lemma_interval_seconds_bounds(i@);
        }
    }
    if !stored_times_fit(samples, plan.interval_seconds) {
        return Err(CustomError::DatabaseError("stored sample time out of range".to_owned()));
    }
    let buckets = resample(samples, &plan.filter, plan.interval_seconds);
    Ok(Resampled { plan, buckets })
}

/// Pagination: for every page number `p >= 1`, the plan skips
/// `(p - 1) * limit` buckets, and the page holds the buckets found at
/// positions `(p - 1) * limit` onwards of the ordered result, `limit` of
/// them or as many as remain.
pub proof fn lemma_page_positions(q: QueryParams, latest_end: Option<i64>, now: i64, plan: QueryPlan, ordered: Seq<Bucket>)
    requires
        plans(q, latest_end, now, plan),
        q.page matches Some(p) && p >= 1,
    ensures
        plan.skip == (q.page->0 - 1) * plan.limit,
        ({
            let page = page_of(ordered, plan.skip as int, plan.limit as int);
            &&& page.len() == if plan.skip + plan.limit <= ordered.len() {
                plan.limit as int
            } else if plan.skip <= ordered.len() {
                ordered.len() - plan.skip
            } else {
                0
            }
            &&& forall|i: int| 0 <= i < page.len() ==> #[trigger] page[i] == ordered[plan.skip + i]
        }),
{
}

/// Sum of the values.
pub open spec fn sum_of(s: Seq<u64>) -> int
    decreases s.len(),
{
    if s.len() == 0 {
        0
    } else {
        sum_of(s.drop_last()) + s.last()
    }
}

/// The mean of the values, rounded down; there is none of no values.
pub fn summary_mean(values: &Vec<u64>) -> (r: Option<u64>)
    ensures
        values@.len() == 0 ==> r is None,
        values@.len() > 0 ==> (r matches Some(m) && m as int == sum_of(values@) / values@.len() as int),
{
    let n = values.len();
    if n == 0 {
        return None;
    }
    let mut total: u128 = 0;
    let mut i: usize = 0;
    while i < n
        invariant
            n == values@.len(),
            0 <= i <= n,
            total as int == sum_of(values@.subrange(0, i as int)),
            total <= i * u64::MAX,
        decreases n - i,
    {
        assert(values@.subrange(0, i + 1).drop_last() =~= values@.subrange(0, i as int));
        assert((i + 1) * u64::MAX == i * u64::MAX + u64::MAX) by (nonlinear_arith);
        assert(i * u64::MAX + u64::MAX <= u64::MAX * u64::MAX + u64::MAX) by (nonlinear_arith)
            requires
                i < u64::MAX,
        ;
        total = total + values[i] as u128;
        i = i + 1;
    }
    assert(values@.subrange(0, n as int) =~= values@);
    let mean = total / (n as u128);
    assert(mean <= u64::MAX) by (nonlinear_arith)
        requires
            total <= n * u64::MAX,
            n >= 1,
            mean == total / (n as u128),
    ;
    Some(mean as u64)
}

} // verus!
