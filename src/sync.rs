//! The decisions of the backfill and recurring sync loops, and which
//! fetched windows to store.

use vstd::prelude::*;
use crate::interval::HOUR_SECONDS;

verus! {

/// Start of the upstream feed, in epoch seconds: where a backfill over an
/// empty store begins.
pub const FEED_START_TIME: i64 = 1647913096;

/// How many hourly windows one upstream request asks for.
pub const WINDOW_COUNT: u32 = 400;

/// How far the cursor moves past a window that could not be fetched or
/// decoded, or that did not move it: a whole request's worth of hours.
pub const FALLBACK_ADVANCE: i64 = 1_440_000;

/// The window `[start_time, end_time)` that an upstream record covers.
#[derive(Clone, Copy, Debug, PartialEq, Eq, Structural)]
pub struct TimeWindow {
    pub start_time: i64,
    pub end_time: i64,
}

/// What to do with one fetched batch: the end the upstream reported for
/// it, where the next fetch starts, and the positions of its records to store.
#[derive(Debug)]
pub struct IngestPlan {
    pub window_end: i64,
    pub fresh: Vec<usize>,
}

/// The state of one sync run of a family: the start of the next window to
/// fetch, and the time at which the run counts as caught up.
#[derive(Clone, Copy, Debug, PartialEq, Eq, Structural)]
pub struct SyncState {
    pub cursor: i64,
    pub now: i64,
}

/// What a sync run does next.
#[derive(Clone, Copy, Debug, PartialEq, Eq, Structural)]
pub enum SyncAction {
    Fetch { from: i64 },
    CaughtUp,
}

/// How the fetch of one window went: the upstream reported where the
/// window ends, or the window could not be fetched or decoded.
#[derive(Clone, Copy, Debug, PartialEq, Eq, Structural)]
pub enum FetchOutcome {
    Fetched { window_end: i64 },
    Failed,
}

/// Where a backfill starts: at the end of the latest stored sample, or at
/// the start of the feed when nothing is stored.
pub open spec fn resume_cursor(stored_end: Option<i64>) -> int {
    match stored_end {
        Some(e) => e as int,
        None => FEED_START_TIME as int,
    }
}

/// Where a recurring tick starts: one base window before the present, so
/// that the latest complete window is fetched again.
pub open spec fn tick_cursor(now: i64) -> int {
    if now < i64::MIN + HOUR_SECONDS {
        i64::MIN as int
    } else {
        now - HOUR_SECONDS
    }
}

/// The cursor after a fetch: the end that the upstream reported for the
/// batch, or, when the window could not be fetched or read, the fallback
/// step past it, held below the largest `i64`.
pub open spec fn next_cursor(cursor: i64, outcome: FetchOutcome) -> int {
    match outcome {
        FetchOutcome::Fetched { window_end } => window_end as int,
        FetchOutcome::Failed => if cursor > i64::MAX - FALLBACK_ADVANCE {
            i64::MAX as int
        } else {
            cursor + FALLBACK_ADVANCE
        },
    }
}

/// A fetched batch moves the cursor forward: its reported end lies past
/// the cursor. A batch whose end does not is refused where it is read
/// (`ingest::plan_batch`) and counts as failed.
pub open spec fn moves_forward(cursor: i64, outcome: FetchOutcome) -> bool {
    outcome matches FetchOutcome::Fetched { window_end } ==> window_end > cursor
}

/// Every fetch that a run from `s` makes, while the outcomes last, is
/// either failed or reports an end past the cursor it started from.
pub open spec fn reports_forward(s: SyncState, outcomes: Seq<FetchOutcome>) -> bool
    decreases outcomes.len(),
{
    if s.cursor >= s.now || outcomes.len() == 0 {
        true
    } else {
        moves_forward(s.cursor, outcomes[0]) && reports_forward(step(s, outcomes[0]), outcomes.skip(1))
    }
}

/// A run fetches the window at its cursor until the cursor reaches `now`.
pub open spec fn action_of(s: SyncState) -> SyncAction {
    if s.cursor >= s.now {
        SyncAction::CaughtUp
    } else {
        SyncAction::Fetch { from: s.cursor }
    }
}

pub open spec fn step(s: SyncState, outcome: FetchOutcome) -> SyncState {
    SyncState { cursor: next_cursor(s.cursor, outcome) as i64, now: s.now }
}

/// The starts of the windows that a run from `s` fetches when its fetches
/// go as `outcomes` says, in order, until it is caught up or the outcomes
/// run out.
pub open spec fn fetch_starts(s: SyncState, outcomes: Seq<FetchOutcome>) -> Seq<int>
    decreases outcomes.len(),
{
    if s.cursor >= s.now || outcomes.len() == 0 {
        Seq::empty()
    } else {
        seq![s.cursor as int] + fetch_starts(step(s, outcomes[0]), outcomes.skip(1))
    }
}

/// The state of a backfill over a store whose latest sample ends at
/// `stored_end`, if any.
pub fn backfill_state(stored_end: Option<i64>, now: i64) -> (r: SyncState)
    ensures
        r.cursor == resume_cursor(stored_end),
        r.now == now,
{
    let cursor = match stored_end {
        Some(e) => e,
        None => FEED_START_TIME,
    };
    SyncState { cursor, now }
}

/// The state of a recurring tick at time `now`.
pub fn tick_state(now: i64) -> (r: SyncState)
    ensures
        r.cursor == tick_cursor(now),
        r.now == now,
{
    let cursor = if now < i64::MIN + HOUR_SECONDS {
        i64::MIN
    } else {
        now - HOUR_SECONDS
    };
    SyncState { cursor, now }
}

/// What the run does next.
pub fn next_action(state: &SyncState) -> (r: SyncAction)
    ensures
        r == action_of(*state),
{
    if state.cursor >= state.now {
        SyncAction::CaughtUp
    } else {
        SyncAction::Fetch { from: state.cursor }
    }
}

/// The state after the fetch at the cursor went as `outcome` says: the
/// next window starts at the end the upstream reported, or past the
/// fallback step when the fetch failed. The cursor always moves forward, so
/// a run ends after at most `now - cursor` fetches.
pub fn advance(state: &SyncState, outcome: FetchOutcome) -> (r: SyncState)
    requires
        state.cursor < state.now,
        moves_forward(state.cursor, outcome),
    ensures
        r == step(*state, outcome),
        r.now == state.now,
        outcome matches FetchOutcome::Fetched { window_end } ==> r.cursor == window_end,
        r.cursor > state.cursor,
{
    let cursor = match outcome {
        FetchOutcome::Fetched { window_end } => window_end,
        FetchOutcome::Failed => if state.cursor > i64::MAX - FALLBACK_ADVANCE {
            i64::MAX
        } else {
            state.cursor + FALLBACK_ADVANCE
        },
    };
    SyncState { cursor, now: state.now }
}

/// Whether a fetched window is stored: it covers exactly one base window,
/// and it starts at or after the end of what is stored, if anything is.
pub open spec fn is_fresh(w: TimeWindow, covered_until: Option<i64>) -> bool {
    &&& w.end_time - w.start_time == HOUR_SECONDS
    &&& (covered_until matches Some(c) ==> w.start_time >= c)
}

/// The positions, in increasing order, of the first `n` windows that are fresh.
pub open spec fn fresh_positions(ws: Seq<TimeWindow>, covered_until: Option<i64>, n: int) -> Seq<usize>
    decreases n,
{
    if n <= 0 {
        Seq::empty()
    } else if is_fresh(ws[n - 1], covered_until) {
        fresh_positions(ws, covered_until, n - 1).push((n - 1) as usize)
    } else {
        fresh_positions(ws, covered_until, n - 1)
    }
}

/// The positions of the fetched windows to append to a store whose latest
/// sample ends at `covered_until`, if any: every window kept covers exactly
/// one base window, and none starts before what is stored ends.
pub fn select_fresh(windows: &Vec<TimeWindow>, covered_until: Option<i64>) -> (r: Vec<usize>)
    ensures
        r@ == fresh_positions(windows@, covered_until, windows@.len() as int),
        forall|k: int|
            0 <= k < r@.len() ==> #[trigger] r@[k] < windows@.len() && windows@[r@[k] as int].end_time
                - windows@[r@[k] as int].start_time == HOUR_SECONDS && (covered_until matches Some(
                c) ==> windows@[r@[k] as int].start_time >= c),
{
    let mut out: Vec<usize> = Vec::new();
    let mut i: usize = 0;
    while i < windows.len()
        invariant
            0 <= i <= windows@.len(),
            out@ == fresh_positions(windows@, covered_until, i as int),
            forall|k: int|
                0 <= k < out@.len() ==> #[trigger] out@[k] < i && is_fresh(
                    windows@[out@[k] as int],
                    covered_until,
                ),
        decreases windows@.len() - i,
    {
        let w = windows[i];
        let keep = w.end_time as i128 - w.start_time as i128 == HOUR_SECONDS as i128 && match covered_until {
            Some(c) => w.start_time >= c,
            None => true,
        };
        if keep {
            out.push(i);
        }
        i = i + 1;
    }
    out
}

/// Every window a run fetches starts at or after where the run started.
proof fn lemma_fetch_starts_from(s: SyncState, outcomes: Seq<FetchOutcome>)
    requires
        reports_forward(s, outcomes),
    ensures
        forall|k: int| 0 <= k < fetch_starts(s, outcomes).len() ==> #[trigger] fetch_starts(s, outcomes)[k] >= s.cursor,
    decreases outcomes.len(),
{
    if !(s.cursor >= s.now || outcomes.len() == 0) {
        let t = step(s, outcomes[0]);
        lemma_fetch_starts_from(t, outcomes.skip(1));
        assert(t.cursor > s.cursor);
        let rest = fetch_starts(t, outcomes.skip(1));
        let all = fetch_starts(s, outcomes);
        assert(all == seq![s.cursor as int] + rest);
        assert forall|k: int| 0 <= k < all.len() implies #[trigger] all[k] >= s.cursor by {
            if k > 0 {
                assert(all[k] == rest[k - 1]);
            }
        }
    }
}

/// A backfill over a store that already holds the windows up to `t_n`
/// resumes at `t_n`: the first window it fetches starts there, no window it
/// fetches starts earlier, whether its fetches fail or report ends past
/// their cursors, and of what comes
/// back it appends no window that starts before `t_n`.
pub proof fn lemma_backfill_resumes(t_n: i64, now: i64, outcomes: Seq<FetchOutcome>, fetched: Seq<TimeWindow>)
    requires
        fetched.len() <= usize::MAX,
        reports_forward(SyncState { cursor: t_n, now }, outcomes),
    ensures
        resume_cursor(Some(t_n)) == t_n,
        ({
            let s = SyncState { cursor: t_n, now };
            let starts = fetch_starts(s, outcomes);
            &&& t_n < now && outcomes.len() > 0 ==> starts.len() > 0 && starts[0] == t_n
            &&& forall|k: int| 0 <= k < starts.len() ==> #[trigger] starts[k] >= t_n
        }),
        forall|k: int|
            0 <= k < fresh_positions(fetched, Some(t_n), fetched.len() as int).len() ==> fetched[#[trigger] fresh_positions(
                fetched,
                Some(t_n),
                fetched.len() as int,
            )[k] as int].start_time >= t_n,
{
    let s = SyncState { cursor: t_n, now };
    lemma_fetch_starts_from(s, outcomes);
    lemma_fresh_positions_fresh(fetched, Some(t_n), fetched.len() as int);
}

/// Every position that `fresh_positions` gives is that of a fresh window.
proof fn lemma_fresh_positions_fresh(ws: Seq<TimeWindow>, covered_until: Option<i64>, n: int)
    requires
        n <= ws.len(),
        n <= usize::MAX,
    ensures
        forall|k: int|
            0 <= k < fresh_positions(ws, covered_until, n).len() ==> #[trigger] fresh_positions(
                ws,
                covered_until,
                n,
            )[k] < n && is_fresh(ws[fresh_positions(ws, covered_until, n)[k] as int], covered_until),
    decreases n,
{
    if n > 0 {
        lemma_fresh_positions_fresh(ws, covered_until, n - 1);
        let prev = fresh_positions(ws, covered_until, n - 1);
        let all = fresh_positions(ws, covered_until, n);
        assert forall|k: int| 0 <= k < all.len() implies #[trigger] all[k] < n && is_fresh(
            ws[all[k] as int],
            covered_until,
        ) by {
            if k < prev.len() {
                assert(all[k] == prev[k]);
            } else {
                assert(all[k] == (n - 1) as usize);
            }
        }
    }
}

/// A sync run always ends: whether its fetches fail or report ends past
/// their cursors, it fetches at most
/// `now - cursor` windows before it is caught up.
pub proof fn lemma_run_ends(s: SyncState, outcomes: Seq<FetchOutcome>)
    requires
        reports_forward(s, outcomes),
    ensures
        fetch_starts(s, outcomes).len() <= if s.cursor < s.now {
            s.now - s.cursor
        } else {
            0
        },
    decreases outcomes.len(),
{
    if !(s.cursor >= s.now || outcomes.len() == 0) {
        let t = step(s, outcomes[0]);
        lemma_run_ends(t, outcomes.skip(1));
        assert(t.cursor > s.cursor);
    }
}

/// A run whose first fetch reports an end at or after `now` fetches once
/// and is then caught up.
pub proof fn lemma_one_batch_catches_up(s: SyncState, outcomes: Seq<FetchOutcome>)
    requires
        s.cursor < s.now,
        outcomes.len() > 0,
        outcomes[0] matches FetchOutcome::Fetched { window_end } && window_end >= s.now,
    ensures
        fetch_starts(s, outcomes) == seq![s.cursor as int],
{
    let t = step(s, outcomes[0]);
    assert(fetch_starts(t, outcomes.skip(1)) == Seq::<int>::empty());
    assert(fetch_starts(s, outcomes) =~= seq![s.cursor as int]);
}

} // verus!
