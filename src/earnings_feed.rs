//! Records of the upstream earnings history feed.

use vstd::prelude::*;
use vstd::string::StringExecFns;
use crate::error::CustomError;
use crate::ingest::{all_windows_read, plan_batch, windows_of, TimedRecord};
use crate::parse::i64_value;
use crate::sync::{fresh_positions, is_fresh, IngestPlan};

verus! {

/// Earnings of one pool within an hourly record.
#[derive(Debug)]
pub struct Pool {
    pub pool: String,
    pub asset_liquidity_fees: String,
    pub rune_liquidity_fees: String,
    pub total_liquidity_fees_rune: String,
    pub saver_earning: String,
    pub rewards: String,
    pub earnings: String,
}

/// Summary of a fetched batch of earnings history.
#[derive(Debug)]
pub struct Meta {
    pub avg_node_count: String,
    pub block_rewards: String,
    pub bonding_earnings: String,
    pub earnings: String,
    pub end_time: String,
    pub liquidity_earnings: String,
    pub liquidity_fees: String,
    pub pools: Vec<Pool>,
    pub rune_price_usd: String,
    pub start_time: String,
}

/// One hourly record of earnings across all pools, with each pool's share.
#[derive(Debug)]
pub struct Interval {
    pub start_time: String,
    pub end_time: String,
    pub avg_node_count: String,
    pub block_rewards: String,
    pub bonding_earnings: String,
    pub earnings: String,
    pub liquidity_earnings: String,
    pub liquidity_fees: String,
    pub rune_price_usd: String,
    pub pools: Vec<Pool>,
}

/// A fetched batch of earnings history.
#[derive(Debug)]
pub struct ApiResponse {
    pub meta: Meta,
    pub intervals: Vec<Interval>,
}

/// Address of the earnings history of all pools, `count` windows of `interval` from `from`.
pub fn generate_api_url(interval: &str, from: &str, count: &str) -> (r: String)
    ensures
        r@ == "https://midgard.ninerealms.com/v2/history/earnings?interval="@ + interval@ + "&from="@ + from@ + "&count="@ + count@,
{
    let mut url = "https://midgard.ninerealms.com/v2/history/earnings?interval=".to_owned();
    url.append(interval);
    url.append("&from=");
    url.append(from);
    url.append("&count=");
    url.append(count);
    url
}

impl TimedRecord for Interval {
    open spec fn start_view(&self) -> Seq<char> {
        self.start_time@
    }

    open spec fn end_view(&self) -> Seq<char> {
        self.end_time@
    }

    fn start_text(&self) -> (r: &str) {
        self.start_time.as_str()
    }

    fn end_text(&self) -> (r: &str) {
        self.end_time.as_str()
    }
}

impl ApiResponse {
    /// What to do with this fetched batch, given the end of the latest
    /// stored sample, if any, and the cursor it was fetched from: see
    /// `plan_batch`.
    pub fn ingest_plan(&self, covered_until: Option<i64>, cursor: i64) -> (r: Result<IngestPlan, CustomError>)
        ensures
            match r {
                Ok(p) => {
                    &&& i64_value(self.meta.end_time@) == Some(p.window_end as int)
                    &&& p.window_end > cursor
                    &&& all_windows_read(self.intervals@)
                    &&& p.fresh@ == fresh_positions(
                        windows_of(self.intervals@),
                        covered_until,
                        self.intervals@.len() as int,
                    )
                    &&& forall|k: int|
                        0 <= k < p.fresh@.len() ==> #[trigger] p.fresh@[k] < self.intervals@.len()
                            && is_fresh(windows_of(self.intervals@)[p.fresh@[k] as int], covered_until)
                },
                Err(e) => e is StandardError && (i64_value(self.meta.end_time@) is None
                    || !all_windows_read(self.intervals@) || i64_value(self.meta.end_time@)->0 <= cursor),
            },
    {
        plan_batch(&self.intervals, self.meta.end_time.as_str(), covered_until, cursor)
    }
}

} // verus!
