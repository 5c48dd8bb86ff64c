//! Reading a fetched batch of any family: its reported end, the windows of
//! its records, and which of them to store.

use vstd::prelude::*;
use crate::error::CustomError;
use crate::parse::{i64_value, parse_to_type, parse_window, window_of};
use crate::sync::{fresh_positions, is_fresh, select_fresh, IngestPlan, TimeWindow};

verus! {

/// An upstream record that covers a window, given by the texts of its
/// start and end times.
pub trait TimedRecord {
    spec fn start_view(&self) -> Seq<char>;

    spec fn end_view(&self) -> Seq<char>;

    fn start_text(&self) -> (r: &str)
        ensures
            r@ == self.start_view(),
    ;

    fn end_text(&self) -> (r: &str)
        ensures
            r@ == self.end_view(),
    ;
}

/// The windows that the records give, for records whose times are integers.
pub open spec fn windows_of<R: TimedRecord>(records: Seq<R>) -> Seq<TimeWindow> {
    Seq::new(records.len(), |i: int| window_of(records[i].start_view(), records[i].end_view())->0)
}

/// Whether the times of every record are integers.
pub open spec fn all_windows_read<R: TimedRecord>(records: Seq<R>) -> bool {
    forall|i: int|
        0 <= i < records.len() ==> #[trigger] window_of(records[i].start_view(), records[i].end_view()) is Some
}

pub open spec fn stuck_batch_message() -> Seq<char> {
    "batch does not end past the cursor"@
}

/// The windows of the records, in order; a record whose times are not
/// integers fails the whole batch.
pub fn record_windows<R: TimedRecord>(records: &Vec<R>) -> (r: Result<Vec<TimeWindow>, CustomError>)
    ensures
        match r {
            Ok(ws) => all_windows_read(records@) && ws@ == windows_of(records@),
            Err(e) => !all_windows_read(records@) && e is StandardError,
        },
{
    let mut out: Vec<TimeWindow> = Vec::new();
    let mut i: usize = 0;
    while i < records.len()
        invariant
            0 <= i <= records@.len(),
            out@ == windows_of(records@).subrange(0, i as int),
            forall|j: int|
                0 <= j < i ==> #[trigger] window_of(records@[j].start_view(), records@[j].end_view()) is Some,
        decreases records@.len() - i,
    {
        let record = &records[i];
        let w = parse_window(record.start_text(), record.end_text())?;
        out.push(w);
        i = i + 1;
        assert(out@ =~= windows_of(records@).subrange(0, i as int));
    }
    assert(out@ =~= windows_of(records@));
    Ok(out)
}

/// What to do with a fetched batch: where the next fetch starts, and which
/// records to store, given the end of the latest stored sample, if any, and
/// the cursor the batch was fetched from.
///
/// The batch is refused whole when its reported end is not an integer, when
/// a record's times are not, or when its end does not lie past the cursor:
/// the next window starts at the reported end, so a batch that does not
/// move forward counts as failed.
pub fn plan_batch<R: TimedRecord>(records: &Vec<R>, batch_end: &str, covered_until: Option<i64>, cursor: i64) -> (r: Result<IngestPlan, CustomError>)
    ensures
        match r {
            Ok(p) => {
                &&& i64_value(batch_end@) == Some(p.window_end as int)
                &&& p.window_end > cursor
                &&& all_windows_read(records@)
                &&& p.fresh@ == fresh_positions(windows_of(records@), covered_until, records@.len() as int)
                &&& forall|k: int|
                    0 <= k < p.fresh@.len() ==> #[trigger] p.fresh@[k] < records@.len() && is_fresh(
                        windows_of(records@)[p.fresh@[k] as int],
                        covered_until,
                    )
            },
            Err(e) => e is StandardError && (i64_value(batch_end@) is None || !all_windows_read(records@)
                || i64_value(batch_end@)->0 <= cursor) && (i64_value(batch_end@) is Some
                && all_windows_read(records@) ==> e.is_standard_error(stuck_batch_message())),
        },
{
    let window_end = parse_to_type(batch_end, "endTime")?;
    let windows = record_windows(records)?;
    if window_end <= cursor {
        return Err(CustomError::StandardError("batch does not end past the cursor".to_owned()));
    }
    let fresh = select_fresh(&windows, covered_until);
    Ok(IngestPlan { window_end, fresh })
}

} // verus!
