//! Records of the upstream depth and price history feed.

use vstd::prelude::*;
use vstd::string::StringExecFns;
use crate::error::CustomError;
use crate::ingest::{all_windows_read, plan_batch, windows_of, TimedRecord};
use crate::parse::i64_value;
use crate::sync::{fresh_positions, is_fresh, IngestPlan};

verus! {

/// Summary of a fetched batch of depth and price history.
#[derive(Debug)]
pub struct Meta {
    pub end_asset_depth: String,
    pub end_lp_units: String,
    pub end_member_count: String,
    pub end_rune_depth: String,
    pub end_synth_units: String,
    pub end_time: String,
    pub luvi_increase: String,
    pub price_shift_loss: String,
    pub start_asset_depth: String,
    pub start_lp_units: String,
    pub start_member_count: String,
    pub start_rune_depth: String,
    pub start_synth_units: String,
    pub start_time: String,
}

/// One hourly record of a pool's depth and price, every value as the feed writes it.
#[derive(Debug)]
pub struct Interval {
    pub asset_depth: String,
    pub asset_price: String,
    pub asset_price_usd: String,
    pub end_time: String,
    pub liquidity_units: String,
    pub luvi: String,
    pub members_count: String,
    pub rune_depth: String,
    pub start_time: String,
    pub synth_supply: String,
    pub synth_units: String,
    pub units: String,
}

/// A fetched batch of depth and price history.
#[derive(Debug)]
pub struct ApiResponse {
    pub intervals: Vec<Interval>,
    pub meta: Meta,
}

/// Address of the depth and price history of `pool`, `count` windows of `interval` from `from`.
pub fn generate_api_url(pool: &str, interval: &str, from: &str, count: &str) -> (r: String)
    ensures
        r@ == "https://midgard.ninerealms.com/v2/history/depths/"@ + pool@ + "?interval="@ + interval@ + "&from="@ + from@ + "&count="@ + count@,
{
    let mut url = "https://midgard.ninerealms.com/v2/history/depths/".to_owned();
    url.append(pool);
    url.append("?interval=");
    url.append(interval);
    url.append("&from=");
    url.append(from);
    url.append("&count=");
    url.append(count);
    url
}

impl TimedRecord for Interval {
    open spec fn start_view(&self) -> Seq<char> {
        self.start_time@
    }

    open spec fn end_view(&self) -> Seq<char> {
        self.end_time@
    }

    fn start_text(&self) -> (r: &str) {
        self.start_time.as_str()
    }

    fn end_text(&self) -> (r: &str) {
        self.end_time.as_str()
    }
}

impl ApiResponse {
    /// What to do with this fetched batch, given the end of the latest
    /// stored sample, if any, and the cursor it was fetched from: see
    /// `plan_batch`.
    pub fn ingest_plan(&self, covered_until: Option<i64>, cursor: i64) -> (r: Result<IngestPlan, CustomError>)
        ensures
            match r {
                Ok(p) => {
                    &&& i64_value(self.meta.end_time@) == Some(p.window_end as int)
                    &&& p.window_end > cursor
                    &&& all_windows_read(self.intervals@)
                    &&& p.fresh@ == fresh_positions(
                        windows_of(self.intervals@),
                        covered_until,
                        self.intervals@.len() as int,
                    )
                    &&& forall|k: int|
                        0 <= k < p.fresh@.len() ==> #[trigger] p.fresh@[k] < self.intervals@.len()
                            && is_fresh(windows_of(self.intervals@)[p.fresh@[k] as int], covered_until)
                },
                Err(e) => e is StandardError && (i64_value(self.meta.end_time@) is None
                    || !all_windows_read(self.intervals@) || i64_value(self.meta.end_time@)->0 <= cursor),
            },
    {
        plan_batch(&self.intervals, self.meta.end_time.as_str(), covered_until, cursor)
    }
}

} // verus!
