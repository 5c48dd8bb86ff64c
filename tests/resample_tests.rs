use token_metrics::bucket::{bucket_start_of, resample, Bucket, SampleFilter, StoredSample};
use token_metrics::error::CustomError;
use token_metrics::page::{finish_query, page_meta, resample_query, reverse_buckets, summary_mean, take_page};
use token_metrics::query::{plan_query, Family, QueryParams};

fn sample(start: i64) -> StoredSample {
    StoredSample { pool: Some("BTC.BTC".to_string()), start_time: start, end_time: start + 3600 }
}

fn open_filter() -> SampleFilter {
    SampleFilter { pool: None, min_start: i64::MIN, max_end: None }
}

fn bucket(start: i64, end: i64, rep: usize) -> Bucket {
    Bucket { start_time: start, end_time: end, representative: rep }
}

fn params() -> QueryParams {
    QueryParams {
        pool: None,
        interval: None,
        count: None,
        to: None,
        from: None,
        page: None,
        sort_by: None,
        sort_order: None,
        limit: None,
    }
}

#[test]
fn bucket_start_formula() {
    assert_eq!(bucket_start_of(3600, 86_400), 0);
    assert_eq!(bucket_start_of(86_400, 86_400), 0);
    assert_eq!(bucket_start_of(86_401, 86_400), 86_400);
    assert_eq!(bucket_start_of(7200, 3600), 3600);
    assert_eq!(bucket_start_of(1, 3600), 0);
    assert_eq!(bucket_start_of(0, 3600), -3600);
    assert_eq!(bucket_start_of(1_653_373_410, 604_800), 1_652_918_400);
}

#[test]
fn every_end_in_a_bucket_maps_to_it() {
    let d = 86_400;
    let start = bucket_start_of(100_000, d);
    assert_eq!(start, 86_400);
    for e in [start + 1, start + 5000, start + d] {
        assert_eq!(bucket_start_of(e, d), start);
    }
    assert_eq!(bucket_start_of(start + d + 1, d), start + d);
}

#[test]
fn hourly_samples_into_days() {
    let samples = vec![sample(0), sample(3600), sample(7200), sample(86_400), sample(90_000)];
    let buckets = resample(&samples, &open_filter(), 86_400);
    assert_eq!(buckets, vec![bucket(0, 86_400, 2), bucket(86_400, 172_800, 4)]);
}

#[test]
fn later_sample_wins_whatever_the_order() {
    let samples = vec![sample(7200), sample(0), sample(3600)];
    let buckets = resample(&samples, &open_filter(), 86_400);
    assert_eq!(buckets, vec![bucket(0, 86_400, 0)]);
}

#[test]
fn equal_end_times_keep_the_last_given() {
    let samples = vec![sample(0), sample(3600), sample(3600)];
    let buckets = resample(&samples, &open_filter(), 86_400);
    assert_eq!(buckets, vec![bucket(0, 86_400, 2)]);
}

#[test]
fn resampling_twice_gives_the_same_buckets() {
    let samples = vec![sample(90_000), sample(0), sample(7200), sample(3600), sample(86_400)];
    let first = resample(&samples, &open_filter(), 86_400);
    let second = resample(&samples, &open_filter(), 86_400);
    assert_eq!(first, second);
    assert_eq!(first, vec![bucket(0, 86_400, 2), bucket(86_400, 172_800, 0)]);
}

#[test]
fn hourly_buckets_keep_each_sample() {
    let samples = vec![sample(3600), sample(0)];
    let buckets = resample(&samples, &open_filter(), 3600);
    assert_eq!(buckets, vec![bucket(0, 3600, 1), bucket(3600, 7200, 0)]);
}

#[test]
fn filter_drops_samples_outside_window_and_pool() {
    let mut other = sample(3600);
    other.pool = Some("ETH.ETH".to_string());
    let samples = vec![sample(0), other, sample(7200), sample(10_800)];
    let filter = SampleFilter { pool: Some("BTC.BTC".to_string()), min_start: 1, max_end: Some(10_800) };
    let buckets = resample(&samples, &filter, 3600);
    assert_eq!(buckets, vec![bucket(7200, 10_800, 2)]);
    let none = resample(&Vec::new(), &filter, 3600);
    assert!(none.is_empty());
}

#[test]
fn reverse_and_page() {
    let all: Vec<Bucket> = (0..25).map(|i| bucket(i * 3600, (i + 1) * 3600, i as usize)).collect();
    let page = take_page(&all, 10, 10);
    assert_eq!(page.len(), 10);
    assert_eq!(page[0], all[10]);
    assert_eq!(page[9], all[19]);
    let tail = take_page(&all, 20, 10);
    assert_eq!(tail, all[20..25].to_vec());
    assert!(take_page(&all, 30, 10).is_empty());
    assert!(take_page(&all, u128::MAX, 10).is_empty());
    let reversed = reverse_buckets(&all);
    assert_eq!(reversed[0], all[24]);
    assert_eq!(reversed[24], all[0]);
}

#[test]
fn second_page_of_ten_holds_buckets_ten_to_nineteen() {
    let samples: Vec<StoredSample> = (0..25).map(|i| sample(i * 3600)).collect();
    let mut q = params();
    q.page = Some(2);
    q.limit = Some(10);
    q.from = Some(0);
    q.sort_by = Some("endTime".to_string());
    q.sort_order = Some(1);
    let resampled = resample_query(Family::DepthPrice, &q, None, 0, &samples).unwrap();
    assert_eq!(resampled.buckets.len(), 25);
    let full = resampled.buckets.clone();
    let page = finish_query(&resampled.plan, resampled.buckets).unwrap();
    assert_eq!(page.buckets, full[10..20].to_vec());
    assert_eq!(page.meta.start_time, 36_000);
    assert_eq!(page.meta.end_time, 72_000);
}

#[test]
fn page_meta_spans_first_to_last() {
    let page = vec![bucket(0, 86_400, 3), bucket(86_400, 172_800, 7), bucket(172_800, 259_200, 9)];
    let meta = page_meta(&page).unwrap();
    assert_eq!(meta.start_time, 0);
    assert_eq!(meta.end_time, 259_200);
    assert_eq!(meta.first, 3);
    assert_eq!(meta.last, 9);
}

#[test]
fn newest_first_page_meta_is_in_time_order() {
    let page = vec![bucket(3600, 7200, 1), bucket(0, 3600, 0)];
    let meta = page_meta(&page).unwrap();
    assert_eq!(meta.start_time, 0);
    assert_eq!(meta.end_time, 7200);
    assert_eq!(meta.first, 0);
    assert_eq!(meta.last, 1);
    let shuffled = vec![bucket(3600, 7200, 5), bucket(7200, 10_800, 6), bucket(0, 3600, 4)];
    let meta = page_meta(&shuffled).unwrap();
    assert_eq!((meta.start_time, meta.end_time, meta.first, meta.last), (0, 10_800, 4, 6));
}

#[test]
fn empty_page_has_no_meta() {
    match page_meta(&Vec::new()) {
        Err(CustomError::InvalidInput(m)) => assert_eq!(m, "no interval matches the query"),
        other => panic!("unexpected {:?}", other),
    }
}

#[test]
fn default_query_is_newest_first() {
    let samples: Vec<StoredSample> = (0..5).map(|i| sample(i * 3600)).collect();
    let q = params();
    let resampled = resample_query(Family::Swap, &q, Some(18_000), 18_000, &samples).unwrap();
    let page = finish_query(&resampled.plan, resampled.buckets).unwrap();
    assert_eq!(page.buckets.len(), 5);
    assert_eq!(page.buckets[0], bucket(14_400, 18_000, 4));
    assert_eq!(page.meta.start_time, 0);
    assert_eq!(page.meta.end_time, 18_000);
    assert_eq!(page.meta.first, 0);
    assert_eq!(page.meta.last, 4);
}

#[test]
fn query_without_matching_samples_fails_closed() {
    let samples: Vec<StoredSample> = (0..3).map(|i| sample(i * 3600)).collect();
    let mut q = params();
    q.from = Some(1_000_000);
    let resampled = resample_query(Family::RunePool, &q, None, 0, &samples).unwrap();
    assert!(resampled.buckets.is_empty());
    match finish_query(&resampled.plan, resampled.buckets) {
        Err(CustomError::InvalidInput(m)) => assert_eq!(m, "no interval matches the query"),
        other => panic!("unexpected {:?}", other),
    }
}

#[test]
fn stored_time_out_of_range_is_a_storage_fault() {
    let samples = vec![StoredSample { pool: None, start_time: i64::MAX - 3600, end_time: i64::MAX }];
    let mut q = params();
    q.from = Some(0);
    match resample_query(Family::RunePool, &q, None, 0, &samples) {
        Err(CustomError::DatabaseError(m)) => assert_eq!(m, "stored sample time out of range"),
        other => panic!("unexpected {:?}", other),
    }
}

#[test]
fn query_errors_come_before_storage() {
    let mut q = params();
    q.from = Some(2000);
    q.to = Some(1000);
    assert!(matches!(
        resample_query(Family::Earning, &q, None, 0, &Vec::new()),
        Err(CustomError::InvalidInput(_))
    ));
}

#[test]
fn field_sort_keeps_callers_order() {
    let mut q = params();
    q.sort_by = Some("assetPrice".to_string());
    q.sort_order = Some(-1);
    let plan = plan_query(Family::DepthPrice, &q, Some(100_000), 0).unwrap();
    let given = vec![bucket(7200, 10_800, 2), bucket(0, 3600, 0), bucket(3600, 7200, 1)];
    let page = finish_query(&plan, given.clone()).unwrap();
    assert_eq!(page.buckets, given);
}

#[test]
fn mean_of_summaries() {
    assert_eq!(summary_mean(&vec![]), None);
    assert_eq!(summary_mean(&vec![7]), Some(7));
    assert_eq!(summary_mean(&vec![1, 2, 4]), Some(2));
    assert_eq!(summary_mean(&vec![u64::MAX, u64::MAX]), Some(u64::MAX));
}
