//! Records of the upstream swap history feed.

use vstd::prelude::*;
use vstd::string::StringExecFns;
use crate::error::CustomError;
use crate::ingest::{all_windows_read, plan_batch, windows_of, TimedRecord};
use crate::parse::i64_value;
use crate::sync::{fresh_positions, is_fresh, IngestPlan};

verus! {

/// Summary of a fetched batch of swap history.
#[derive(Debug)]
pub struct Meta {
    pub start_time: String,
    pub end_time: String,
    pub to_asset_count: String,
    pub to_rune_count: String,
    pub to_trade_count: String,
    pub from_trade_count: String,
    pub synth_mint_count: String,
    pub synth_redeem_count: String,
    pub total_count: String,
    pub to_asset_volume: String,
    pub to_rune_volume: String,
    pub to_trade_volume: String,
    pub from_trade_volume: String,
    pub synth_mint_volume: String,
    pub synth_redeem_volume: String,
    pub total_volume: String,
    pub to_asset_volume_usd: String,
    pub to_rune_volume_usd: String,
    pub to_trade_volume_usd: String,
    pub from_trade_volume_usd: String,
    pub synth_mint_volume_usd: String,
    pub synth_redeem_volume_usd: String,
    pub total_volume_usd: String,
    pub to_asset_fees: String,
    pub to_rune_fees: String,
    pub to_trade_fees: String,
    pub from_trade_fees: String,
    pub synth_mint_fees: String,
    pub synth_redeem_fees: String,
    pub total_fees: String,
    pub to_asset_average_slip: String,
    pub to_rune_average_slip: String,
    pub to_trade_average_slip: String,
    pub from_trade_average_slip: String,
    pub synth_mint_average_slip: String,
    pub synth_redeem_average_slip: String,
    pub average_slip: String,
    pub rune_price_usd: String,
}

/// One hourly record of a pool's swap activity, every value as the feed writes it.
#[derive(Debug)]
pub struct Interval {
    pub start_time: String,
    pub end_time: String,
    pub to_asset_count: String,
    pub to_rune_count: String,
    pub to_trade_count: String,
    pub from_trade_count: String,
    pub synth_mint_count: String,
    pub synth_redeem_count: String,
    pub total_count: String,
    pub to_asset_volume: String,
    pub to_rune_volume: String,
    pub to_trade_volume: String,
    pub from_trade_volume: String,
    pub synth_mint_volume: String,
    pub synth_redeem_volume: String,
    pub total_volume: String,
    pub to_asset_volume_usd: String,
    pub to_rune_volume_usd: String,
    pub to_trade_volume_usd: String,
    pub from_trade_volume_usd: String,
    pub synth_mint_volume_usd: String,
    pub synth_redeem_volume_usd: String,
    pub total_volume_usd: String,
    pub to_asset_fees: String,
    pub to_rune_fees: String,
    pub to_trade_fees: String,
    pub from_trade_fees: String,
    pub synth_mint_fees: String,
    pub synth_redeem_fees: String,
    pub total_fees: String,
    pub to_asset_average_slip: String,
    pub to_rune_average_slip: String,
    pub to_trade_average_slip: String,
    pub from_trade_average_slip: String,
    pub synth_mint_average_slip: String,
    pub synth_redeem_average_slip: String,
    pub average_slip: String,
    pub rune_price_usd: String,
}

/// A fetched batch of swap history.
#[derive(Debug)]
pub struct ApiResponse {
    pub intervals: Vec<Interval>,
    pub meta: Meta,
}

/// Address of the swap history of `pool`, `count` windows of `interval` from `from`.
pub fn generate_api_url(pool: &str, interval: &str, from: &str, count: &str) -> (r: String)
    ensures
        r@ == "https://midgard.ninerealms.com/v2/history/swaps?pool="@ + pool@ + "&interval="@ + interval@ + "&from="@ + from@ + "&count="@ + count@,
{
    let mut url = "https://midgard.ninerealms.com/v2/history/swaps?pool=".to_owned();
    url.append(pool);
    url.append("&interval=");
    url.append(interval);
    url.append("&from=");
    url.append(from);
    url.append("&count=");
    url.append(count);
    url
}

impl TimedRecord for Interval {
    open spec fn start_view(&self) -> Seq<char> {
        self.start_time@
    }

    open spec fn end_view(&self) -> Seq<char> {
        self.end_time@
    }

    fn start_text(&self) -> (r: &str) {
        self.start_time.as_str()
    }

    fn end_text(&self) -> (r: &str) {
        self.end_time.as_str()
    }
}

impl ApiResponse {
    /// What to do with this fetched batch, given the end of the latest
    /// stored sample, if any, and the cursor it was fetched from: see
    /// `plan_batch`.
    pub fn ingest_plan(&self, covered_until: Option<i64>, cursor: i64) -> (r: Result<IngestPlan, CustomError>)
        ensures
            match r {
                Ok(p) => {
                    &&& i64_value(self.meta.end_time@) == Some(p.window_end as int)
                    &&& p.window_end > cursor
                    &&& all_windows_read(self.intervals@)
                    &&& p.fresh@ == fresh_positions(
                        windows_of(self.intervals@),
                        covered_until,
                        self.intervals@.len() as int,
                    )
                    &&& forall|k: int|
                        0 <= k < p.fresh@.len() ==> #[trigger] p.fresh@[k] < self.intervals@.len()
                            && is_fresh(windows_of(self.intervals@)[p.fresh@[k] as int], covered_until)
                },
                Err(e) => e is StandardError && (i64_value(self.meta.end_time@) is None
                    || !all_windows_read(self.intervals@) || i64_value(self.meta.end_time@)->0 <= cursor),
            },
    {
        plan_batch(&self.intervals, self.meta.end_time.as_str(), covered_until, cursor)
    }
}

} // verus!
