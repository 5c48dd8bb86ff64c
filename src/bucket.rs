//! Bucketing of stored hourly samples into intervals, last value wins.

use vstd::prelude::*;
use vstd::arithmetic::div_mod::{lemma_fundamental_div_mod, lemma_fundamental_div_mod_converse, lemma_mod_bound};
use crate::text::same_text;

verus! {

/// A stored sample as the query engine sees it: its pool, if the family
/// has one, and the window `[start_time, end_time)` it covers, in epoch seconds.
#[derive(Debug)]
pub struct StoredSample {
    pub pool: Option<String>,
    pub start_time: i64,
    pub end_time: i64,
}

/// Which stored samples a query reads: those of `pool`, when one is given,
/// that start at or after `min_start` and end at or before `max_end`, when
/// one is given.
#[derive(Debug)]
pub struct SampleFilter {
    pub pool: Option<String>,
    pub min_start: i64,
    pub max_end: Option<i64>,
}

/// One row of a resampled result: the bucket `[start_time, end_time)` and
/// the index, among the samples handed to `resample`, of the sample that
/// stands for it.
#[derive(Clone, Copy, Debug, PartialEq, Eq, Structural)]
pub struct Bucket {
    pub start_time: i64,
    pub end_time: i64,
    pub representative: usize,
}

/// Start of the bucket of length `d` that holds a sample ending at `e`:
/// buckets are aligned on multiples of `d`, and a sample that ends exactly
/// on a boundary belongs to the bucket that ends there.
pub open spec fn bucket_start(e: int, d: int) -> int {
    (e - 1) - (e - 1) % d
}

/// A sample ending at `e` has a bucket of length `d` whose bounds fit in an `i64`.
pub open spec fn time_fits(e: int, d: int) -> bool {
    i64::MIN + d <= e && e + d <= i64::MAX
}

pub open spec fn times_fit(s: Seq<StoredSample>, d: int) -> bool {
    forall|i: int| 0 <= i < s.len() ==> time_fits(#[trigger] s[i].end_time as int, d)
}

/// Whether the filter lets the sample through.
pub open spec fn admits(f: SampleFilter, s: StoredSample) -> bool {
    &&& s.start_time >= f.min_start
    &&& (f.max_end matches Some(m) ==> s.end_time <= m)
    &&& (f.pool matches Some(p) ==> (s.pool matches Some(q) && q@ == p@))
}

/// Sample `i`, among the first `n`, passes the filter and falls in the
/// bucket that starts at `k`.
pub open spec fn in_bucket(s: Seq<StoredSample>, f: SampleFilter, d: int, n: int, i: int, k: int) -> bool {
    &&& 0 <= i < n
    &&& admits(f, s[i])
    &&& bucket_start(s[i].end_time as int, d) == k
}

/// Sample `r` is the last of the bucket at `k`: no other sample of the
/// bucket ends later, and among those that end at the same time it comes last.
pub open spec fn latest_in_bucket(s: Seq<StoredSample>, f: SampleFilter, d: int, n: int, r: int, k: int) -> bool {
    &&& in_bucket(s, f, d, n, r, k)
    &&& forall|i: int| #[trigger]
        in_bucket(s, f, d, n, i, k) ==> (s[i].end_time < s[r].end_time || (s[i].end_time
            == s[r].end_time && i <= r))
}

/// `out` is the resampling at interval `d` of the first `n` samples that
/// pass the filter: one bucket for each bucket start that such a sample
/// falls in, in increasing order, each spanning `d` seconds and standing
/// for the last sample that falls in it.
pub open spec fn resamples(s: Seq<StoredSample>, f: SampleFilter, d: int, n: int, out: Seq<Bucket>) -> bool {
    &&& forall|j: int|
        0 <= j < out.len() ==> #[trigger] out[j].end_time == out[j].start_time + d
            && latest_in_bucket(s, f, d, n, out[j].representative as int, out[j].start_time as int)
    &&& forall|j1: int, j2: int|
        0 <= j1 < j2 < out.len() ==> #[trigger] out[j1].start_time < #[trigger] out[j2].start_time
    &&& forall|i: int|
        0 <= i < n && #[trigger] admits(f, s[i]) ==> exists|j: int|
            0 <= j < out.len() && #[trigger] out[j].start_time == bucket_start(
                s[i].end_time as int,
                d,
            )
}

/// A sample ending at `e` lies inside its bucket, `start < e <= start + d`,
/// and every sample ending in `(start, start + d]` falls in that same bucket.
pub proof fn lemma_bucket_bounds(e: int, d: int)
    requires
        d > 0,
    ensures
        bucket_start(e, d) < e <= bucket_start(e, d) + d,
        forall|e2: int|
            bucket_start(e, d) < e2 <= bucket_start(e, d) + d ==> #[trigger] bucket_start(e2, d)
                == bucket_start(e, d),
{
    lemma_mod_bound(e - 1, d);
    lemma_fundamental_div_mod(e - 1, d);
    let q = (e - 1) / d;
    assert(bucket_start(e, d) == d * q);
    assert(q * d == d * q) by (nonlinear_arith);
    assert forall|e2: int| bucket_start(e, d) < e2 <= bucket_start(e, d) + d implies #[trigger] bucket_start(e2, d) == bucket_start(e, d) by {
        lemma_fundamental_div_mod_converse(e2 - 1, d, q, e2 - 1 - d * q);
    }
}

/// Start of the bucket of length `seconds` that holds a sample ending at `end_time`.
pub fn bucket_start_of(end_time: i64, seconds: i64) -> (r: i64)
    requires
        0 < seconds,
        time_fits(end_time as int, seconds as int),
    ensures
        r == bucket_start(end_time as int, seconds as int),
        r < end_time,
        end_time <= r + seconds,
{
    proof {
        lemma_bucket_bounds(end_time as int, seconds as int);
    }
    let e = end_time - 1;
    let m = e.checked_rem_euclid(seconds).unwrap();
    e - m
}

/// Whether the filter lets the sample through.
pub fn admits_sample(filter: &SampleFilter, sample: &StoredSample) -> (r: bool)
    ensures
        r == admits(*filter, *sample),
{
    if sample.start_time < filter.min_start {
        return false;
    }
    if let Some(m) = filter.max_end {
        if sample.end_time > m {
            return false;
        }
    }
    match &filter.pool {
        None => true,
        Some(p) => match &sample.pool {
            None => false,
            Some(q) => same_text(q.as_str(), p.as_str()),
        },
    }
}

/// Moving from the first `n` samples to the first `n + 1` leaves the bucket
/// membership of every sample but `n` as it was.
proof fn lemma_in_bucket_step(s: Seq<StoredSample>, f: SampleFilter, d: int, n: int, i: int, k: int)
    requires
        0 <= n,
        i != n,
    ensures
        in_bucket(s, f, d, n + 1, i, k) == in_bucket(s, f, d, n, i, k),
{
}

/// Groups the samples that pass `filter` into buckets of `seconds` seconds.
///
/// The result has one bucket for each bucket start that a passing sample
/// falls in, in increasing order; each bucket spans `seconds` seconds and
/// names the last sample that falls in it: the one that ends latest, and of
/// those that end together the one that comes last.
pub fn resample(samples: &Vec<StoredSample>, filter: &SampleFilter, seconds: i64) -> (r: Vec<Bucket>)
    requires
        0 < seconds,
        times_fit(samples@, seconds as int),
    ensures
        resamples(samples@, *filter, seconds as int, samples@.len() as int, r@),
{
    let ghost s = samples@;
    let ghost f = *filter;
    let ghost d = seconds as int;
    let mut out: Vec<Bucket> = Vec::new();
    let mut i: usize = 0;
    while i < samples.len()
        invariant
            s == samples@,
            f == *filter,
            d == seconds as int,
            0 < seconds,
            times_fit(s, d),
            0 <= i <= s.len(),
            resamples(s, f, d, i as int, out@),
        decreases s.len() - i,
    {
        let ghost old_out = out@;
        let ghost n = i as int;
        if admits_sample(filter, &samples[i]) {
            let e = samples[i].end_time;
            assert(time_fits(s[n].end_time as int, d));
            let k = bucket_start_of(e, seconds);
            let mut p: usize = 0;
            while p < out.len() && out[p].start_time < k
                invariant
                    out@ == old_out,
                    0 <= p <= out@.len(),
                    forall|j: int| 0 <= j < p ==> #[trigger] out@[j].start_time < k,
                decreases out@.len() - p,
            {
                p = p + 1;
            }
            if p < out.len() && out[p].start_time == k {
                let r = out[p].representative;
                let bucket_end = out[p].end_time;
                if samples[r].end_time <= e {
                    out.set(p, Bucket { start_time: k, end_time: bucket_end, representative: i });
                }
                proof {
                    assert forall|j: int| 0 <= j < out@.len() implies #[trigger] out@[j].end_time
                        == out@[j].start_time + d && latest_in_bucket(
                        s,
                        f,
                        d,
                        n + 1,
                        out@[j].representative as int,
                        out@[j].start_time as int,
                    ) by {
                        let kj = out@[j].start_time as int;
                        let rj = out@[j].representative as int;
                        assert(old_out[j].end_time == old_out[j].start_time + d);
                        assert(latest_in_bucket(s, f, d, n, old_out[j].representative as int, kj));
                        assert forall|m: int| #[trigger] in_bucket(s, f, d, n + 1, m, kj) implies (
                        s[m].end_time < s[rj].end_time || (s[m].end_time == s[rj].end_time && m
                            <= rj)) by {
                            if m != n {
                                lemma_in_bucket_step(s, f, d, n, m, kj);
                                assert(in_bucket(s, f, d, n, m, kj));
                            }
                        }
                        if rj != n {
                            lemma_in_bucket_step(s, f, d, n, rj, kj);
                        }
                    }
                    assert forall|m: int| 0 <= m < n + 1 && #[trigger] admits(f, s[m]) implies exists|j: int|
                        0 <= j < out@.len() && #[trigger] out@[j].start_time == bucket_start(
                            s[m].end_time as int,
                            d,
                        ) by {
                        if m == n {
                            assert(out@[p as int].start_time == bucket_start(s[m].end_time as int, d));
                        } else {
                            let j = choose|j: int|
                                0 <= j < old_out.len() && #[trigger] old_out[j].start_time
                                    == bucket_start(s[m].end_time as int, d);
                            assert(out@[j].start_time == old_out[j].start_time);
                        }
                    }
                }
            } else {
                assert(forall|j: int| p <= j < old_out.len() ==> #[trigger] old_out[j].start_time > k) by {
                    assert forall|j: int| p <= j < old_out.len() implies #[trigger] old_out[j].start_time > k by {
                        if j > p {
                            assert(old_out[p as int].start_time < old_out[j].start_time);
                        }
                    }
                }
                out.insert(p, Bucket { start_time: k, end_time: k + seconds, representative: i });
                proof {
                    assert forall|j: int| 0 <= j < out@.len() implies #[trigger] out@[j].end_time
                        == out@[j].start_time + d && latest_in_bucket(
                        s,
                        f,
                        d,
                        n + 1,
                        out@[j].representative as int,
                        out@[j].start_time as int,
                    ) by {
                        let kj = out@[j].start_time as int;
                        let rj = out@[j].representative as int;
                        if j == p {
                            assert forall|m: int| #[trigger] in_bucket(s, f, d, n + 1, m, kj) implies (
                            s[m].end_time < s[rj].end_time || (s[m].end_time == s[rj].end_time
                                && m <= rj)) by {
                                if m != n {
                                    lemma_in_bucket_step(s, f, d, n, m, kj);
                                    let jm = choose|jm: int|
                                        0 <= jm < old_out.len() && #[trigger] old_out[jm].start_time
                                            == bucket_start(s[m].end_time as int, d);
                                    if jm < p {
                                        assert(old_out[jm].start_time < k);
                                    } else {
                                        assert(old_out[jm].start_time > k);
                                    }
                                }
                            }
                        } else {
                            let jo = if j < p { j } else { j - 1 };
                            assert(out@[j] == old_out[jo]);
                            assert(old_out[jo].end_time == old_out[jo].start_time + d);
                            assert(latest_in_bucket(s, f, d, n, rj, kj));
                            assert(kj != k as int);
                            assert forall|m: int| #[trigger] in_bucket(s, f, d, n + 1, m, kj) implies (
                            s[m].end_time < s[rj].end_time || (s[m].end_time == s[rj].end_time
                                && m <= rj)) by {
                                if m != n {
                                    lemma_in_bucket_step(s, f, d, n, m, kj);
                                }
                            }
                            lemma_in_bucket_step(s, f, d, n, rj, kj);
                        }
                    }
                    assert forall|j1: int, j2: int| 0 <= j1 < j2 < out@.len() implies #[trigger] out@[j1].start_time
                        < #[trigger] out@[j2].start_time by {
                        if j1 < p && j2 > p {
                            assert(old_out[j1].start_time < k);
                            assert(old_out[j2 - 1].start_time > k);
                        } else if j1 < p && j2 < p {
                            assert(old_out[j1].start_time < old_out[j2].start_time);
                        } else if j1 > p {
                            assert(old_out[j1 - 1].start_time < old_out[j2 - 1].start_time);
                        } else if j1 == p {
                            assert(old_out[j2 - 1].start_time > k);
                        } else {
                            assert(old_out[j1].start_time < k);
                        }
                    }
                    assert forall|m: int| 0 <= m < n + 1 && #[trigger] admits(f, s[m]) implies exists|j: int|
                        0 <= j < out@.len() && #[trigger] out@[j].start_time == bucket_start(
                            s[m].end_time as int,
                            d,
                        ) by {
                        if m == n {
                            assert(out@[p as int].start_time == bucket_start(s[m].end_time as int, d));
                        } else {
                            let j = choose|j: int|
                                0 <= j < old_out.len() && #[trigger] old_out[j].start_time
                                    == bucket_start(s[m].end_time as int, d);
                            if j < p {
                                assert(out@[j].start_time == old_out[j].start_time);
                            } else {
                                assert(out@[j + 1].start_time == old_out[j].start_time);
                            }
                        }
                    }
                }
            }
        } else {
            proof {
                assert forall|j: int| 0 <= j < out@.len() implies #[trigger] out@[j].end_time
                    == out@[j].start_time + d && latest_in_bucket(
                    s,
                    f,
                    d,
                    n + 1,
                    out@[j].representative as int,
                    out@[j].start_time as int,
                ) by {
                    let kj = out@[j].start_time as int;
                    let rj = out@[j].representative as int;
                    assert(out@[j].end_time == out@[j].start_time + d);
                    assert(latest_in_bucket(s, f, d, n, rj, kj));
                    assert(!admits(f, s[n]));
                    assert forall|m: int| #[trigger] in_bucket(s, f, d, n + 1, m, kj) implies (
                    s[m].end_time < s[rj].end_time || (s[m].end_time == s[rj].end_time && m
                        <= rj)) by {
                        if m != n {
                            lemma_in_bucket_step(s, f, d, n, m, kj);
                        }
                    }
                    lemma_in_bucket_step(s, f, d, n, rj, kj);
                }
            }
        }
        i = i + 1;
    }
    out
}

/// Two samples that are each the last of the same bucket are the same sample.
proof fn lemma_latest_unique(s: Seq<StoredSample>, f: SampleFilter, d: int, n: int, r1: int, r2: int, k: int)
    requires
        latest_in_bucket(s, f, d, n, r1, k),
        latest_in_bucket(s, f, d, n, r2, k),
    ensures
        r1 == r2,
{
    assert(in_bucket(s, f, d, n, r1, k));
    assert(in_bucket(s, f, d, n, r2, k));
}

/// Every bucket of a resampling starts where some other resampling of the
/// same samples has a bucket too.
proof fn lemma_bucket_found(s: Seq<StoredSample>, f: SampleFilter, d: int, n: int, a: Seq<Bucket>, b: Seq<Bucket>, j: int)
    requires
        resamples(s, f, d, n, a),
        resamples(s, f, d, n, b),
        0 <= j < a.len(),
    ensures
        exists|jb: int| 0 <= jb < b.len() && #[trigger] b[jb].start_time == a[j].start_time,
{
    assert(a[j].end_time == a[j].start_time + d);
    let r = a[j].representative as int;
    assert(in_bucket(s, f, d, n, r, a[j].start_time as int));
    assert(admits(f, s[r]));
}

/// Two resamplings of the same samples agree on the starts of their first
/// `j` buckets, and each holds at least `j` buckets.
proof fn lemma_starts_agree(s: Seq<StoredSample>, f: SampleFilter, d: int, n: int, a: Seq<Bucket>, b: Seq<Bucket>, j: int)
    requires
        resamples(s, f, d, n, a),
        resamples(s, f, d, n, b),
        0 <= j <= a.len(),
        j <= b.len(),
    ensures
        forall|i: int| 0 <= i < j ==> #[trigger] a[i].start_time == b[i].start_time,
    decreases j,
{
    if j > 0 {
        let i = j - 1;
        lemma_starts_agree(s, f, d, n, a, b, i);
        lemma_bucket_found(s, f, d, n, a, b, i);
        lemma_bucket_found(s, f, d, n, b, a, i);
        let jb = choose|jb: int| 0 <= jb < b.len() && #[trigger] b[jb].start_time == a[i].start_time;
        let ja = choose|ja: int| 0 <= ja < a.len() && #[trigger] a[ja].start_time == b[i].start_time;
        if jb < i {
            assert(a[jb].start_time == b[jb].start_time);
            assert(a[jb].start_time < a[i].start_time);
        }
        if ja < i {
            assert(a[ja].start_time == b[ja].start_time);
            assert(b[ja].start_time < b[i].start_time);
        }
        if jb > i {
            assert(b[i].start_time < b[jb].start_time);
            if ja > i {
                assert(a[i].start_time < a[ja].start_time);
            }
        }
    }
}

/// Resampling is idempotent: any two results of resampling the same samples
/// with the same filter at the same interval have the same buckets, with the
/// same bounds and the same representative samples.
pub proof fn lemma_resample_deterministic(s: Seq<StoredSample>, f: SampleFilter, d: int, a: Seq<Bucket>, b: Seq<Bucket>)
    requires
        resamples(s, f, d, s.len() as int, a),
        resamples(s, f, d, s.len() as int, b),
    ensures
        a == b,
{
    let n = s.len() as int;
    if a.len() > b.len() {
        lemma_starts_agree(s, f, d, n, a, b, b.len() as int);
        let i = b.len() as int;
        lemma_bucket_found(s, f, d, n, a, b, i);
        let jb = choose|jb: int| 0 <= jb < b.len() && #[trigger] b[jb].start_time == a[i].start_time;
        assert(a[jb].start_time == b[jb].start_time);
        assert(a[jb].start_time < a[i].start_time);
    }
    if b.len() > a.len() {
        lemma_starts_agree(s, f, d, n, b, a, a.len() as int);
        let i = a.len() as int;
        lemma_bucket_found(s, f, d, n, b, a, i);
        let ja = choose|ja: int| 0 <= ja < a.len() && #[trigger] a[ja].start_time == b[i].start_time;
        assert(b[ja].start_time == a[ja].start_time);
        assert(b[ja].start_time < b[i].start_time);
    }
    assert(a.len() == b.len());
    lemma_starts_agree(s, f, d, n, a, b, a.len() as int);
    assert forall|j: int| 0 <= j < a.len() implies #[trigger] a[j] == b[j] by {
        assert(a[j].start_time == b[j].start_time);
        assert(a[j].end_time == a[j].start_time + d);
        assert(b[j].end_time == b[j].start_time + d);
        lemma_latest_unique(
            s,
            f,
            d,
            n,
            a[j].representative as int,
            b[j].representative as int,
            a[j].start_time as int,
        );
    }
    assert(a =~= b);
}

/// Last value wins: when two samples fall in the same bucket and the second
/// ends later, the bucket does not stand for the first, it stands for a
/// sample that ends no earlier than the second, and for the second itself
/// when the two are all that the bucket holds.
pub proof fn lemma_later_sample_wins(s: Seq<StoredSample>, f: SampleFilter, d: int, out: Seq<Bucket>, i1: int, i2: int)
    requires
        resamples(s, f, d, s.len() as int, out),
        0 <= i1 < s.len(),
        0 <= i2 < s.len(),
        admits(f, s[i1]),
        admits(f, s[i2]),
        bucket_start(s[i1].end_time as int, d) == bucket_start(s[i2].end_time as int, d),
        s[i1].end_time < s[i2].end_time,
    ensures
        exists|j: int|
            0 <= j < out.len() && #[trigger] out[j].start_time == bucket_start(s[i2].end_time as int, d)
                && out[j].representative != i1 && s[out[j].representative as int].end_time
                >= s[i2].end_time && ((forall|m: int|
                in_bucket(s, f, d, s.len() as int, m, out[j].start_time as int) ==> m == i1 || m
                    == i2) ==> out[j].representative == i2),
{
    let n = s.len() as int;
    let k = bucket_start(s[i2].end_time as int, d);
    assert(admits(f, s[i2]));
    let j = choose|j: int| 0 <= j < out.len() && #[trigger] out[j].start_time == k;
    assert(out[j].end_time == out[j].start_time + d);
    let r = out[j].representative as int;
    assert(in_bucket(s, f, d, n, i2, k));
    assert(in_bucket(s, f, d, n, i1, k));
    assert(latest_in_bucket(s, f, d, n, r, k));
    assert(in_bucket(s, f, d, n, r, k));
}

} // verus!
