use token_metrics::error::CustomError;
use token_metrics::interval::{get_seconds_per_interval, is_known_interval};
use token_metrics::query::{check_pool, plan_query, validate_query, Family, QueryParams, SortKey};
use token_metrics::text::same_text;

fn params() -> QueryParams {
    QueryParams {
        pool: None,
        interval: None,
        count: None,
        to: None,
        from: None,
        page: None,
        sort_by: None,
        sort_order: None,
        limit: None,
    }
}

fn invalid_message(r: Result<(), CustomError>) -> String {
    match r {
        Err(CustomError::InvalidInput(m)) => m,
        other => panic!("expected InvalidInput, got {:?}", other),
    }
}

#[test]
fn seconds_per_named_interval() {
    assert_eq!(get_seconds_per_interval("hour"), 3600);
    assert_eq!(get_seconds_per_interval("day"), 86_400);
    assert_eq!(get_seconds_per_interval("week"), 604_800);
    assert_eq!(get_seconds_per_interval("month"), 2_678_400);
    assert_eq!(get_seconds_per_interval("quarter"), 7_948_800);
    assert_eq!(get_seconds_per_interval("year"), 31_622_400);
}

#[test]
fn unknown_interval_counts_as_hour() {
    assert_eq!(get_seconds_per_interval("fortnight"), 3600);
    assert_eq!(get_seconds_per_interval(""), 3600);
    assert!(!is_known_interval("fortnight"));
    assert!(is_known_interval("quarter"));
}

#[test]
fn same_text_compares_characters() {
    assert!(same_text("BTC.BTC", "BTC.BTC"));
    assert!(!same_text("BTC.BTC", "ETH.ETH"));
    assert!(!same_text("BTC", "BTC.BTC"));
    assert!(same_text("", ""));
}

#[test]
fn valid_query_passes() {
    let mut q = params();
    q.from = Some(1000);
    q.to = Some(2000);
    q.page = Some(1);
    q.count = Some(400);
    q.limit = Some(1);
    q.interval = Some("week".to_string());
    assert!(validate_query(&q).is_ok());
    assert!(validate_query(&params()).is_ok());
}

#[test]
fn rejects_inverted_range() {
    let mut q = params();
    q.from = Some(2000);
    q.to = Some(1000);
    assert_eq!(invalid_message(validate_query(&q)), "start_time must be less than end_time.");
    q.from = Some(1000);
    assert_eq!(invalid_message(validate_query(&q)), "start_time must be less than end_time.");
}

#[test]
fn rejects_unknown_interval_name() {
    let mut q = params();
    q.interval = Some("fortnight".to_string());
    assert_eq!(
        invalid_message(validate_query(&q)),
        "Interval must be in [\"hour\", \"day\", \"week\", \"month\", \"quarter\", \"year\"]"
    );
}

#[test]
fn rejects_out_of_range_page_count_limit() {
    let mut q = params();
    q.page = Some(0);
    assert_eq!(invalid_message(validate_query(&q)), "page must be positive number");
    let mut q = params();
    q.count = Some(0);
    assert_eq!(invalid_message(validate_query(&q)), "Count has to be [1..400]");
    q.count = Some(401);
    assert_eq!(invalid_message(validate_query(&q)), "Count has to be [1..400]");
    let mut q = params();
    q.limit = Some(0);
    assert_eq!(invalid_message(validate_query(&q)), "Limit has to be [1..400]");
    q.limit = Some(-3);
    assert_eq!(invalid_message(validate_query(&q)), "Limit has to be [1..400]");
    q.limit = Some(401);
    assert_eq!(invalid_message(validate_query(&q)), "Limit has to be [1..400]");
}

#[test]
fn rejects_other_pool_on_btc_only_family() {
    let eth = Some("ETH.ETH".to_string());
    assert_eq!(
        invalid_message(check_pool(Family::DepthPrice, &eth)),
        "Depth and price history for only BTC.BTC available"
    );
    assert_eq!(invalid_message(check_pool(Family::Swap, &eth)), "Swap history for only BTC.BTC available");
    assert_eq!(invalid_message(check_pool(Family::RunePool, &eth)), "Invalid parameter pool!");
    assert!(check_pool(Family::Earning, &eth).is_ok());
    let btc = Some("BTC.BTC".to_string());
    assert!(check_pool(Family::DepthPrice, &btc).is_ok());
    assert!(check_pool(Family::Swap, &btc).is_ok());
    assert!(check_pool(Family::RunePool, &None).is_ok());
}

#[test]
fn plan_rejects_eth_pool_for_depth() {
    let mut q = params();
    q.pool = Some("ETH.ETH".to_string());
    match plan_query(Family::DepthPrice, &q, None, 0) {
        Err(CustomError::InvalidInput(m)) => assert_eq!(m, "Depth and price history for only BTC.BTC available"),
        other => panic!("unexpected {:?}", other),
    }
}

#[test]
fn plan_defaults_look_back_from_latest_stored_end() {
    let q = params();
    let plan = plan_query(Family::Swap, &q, Some(10_000_000), 20_000_000).unwrap();
    assert_eq!(plan.filter.min_start, 10_000_000 - 400 * 3600);
    assert_eq!(plan.filter.max_end, None);
    assert_eq!(plan.filter.pool, None);
    assert_eq!(plan.interval_seconds, 3600);
    assert!(matches!(plan.sort, SortKey::Time));
    assert!(plan.descending);
    assert_eq!(plan.skip, 0);
    assert_eq!(plan.limit, 400);
}

#[test]
fn plan_falls_back_to_now_without_stored_samples() {
    let mut q = params();
    q.interval = Some("day".to_string());
    q.count = Some(2);
    let plan = plan_query(Family::Earning, &q, None, 1_000_000).unwrap();
    assert_eq!(plan.filter.min_start, 1_000_000 - 2 * 86_400);
    assert_eq!(plan.interval_seconds, 86_400);
    assert_eq!(plan.limit, 2);
}

#[test]
fn plan_anchors_on_to_and_keeps_from() {
    let mut q = params();
    q.to = Some(500_000);
    q.count = Some(10);
    let plan = plan_query(Family::RunePool, &q, Some(9_999_999), 0).unwrap();
    assert_eq!(plan.filter.min_start, 500_000 - 10 * 3600);
    assert_eq!(plan.filter.max_end, Some(500_000));
    let mut q = params();
    q.from = Some(1000);
    q.to = Some(u64::MAX);
    let plan = plan_query(Family::RunePool, &q, None, 0).unwrap();
    assert_eq!(plan.filter.min_start, 1000);
    assert_eq!(plan.filter.max_end, Some(i64::MAX));
}

#[test]
fn plan_pages_and_sorts() {
    let mut q = params();
    q.page = Some(2);
    q.limit = Some(10);
    q.sort_by = Some("startTime".to_string());
    let plan = plan_query(Family::DepthPrice, &q, None, 0).unwrap();
    assert_eq!(plan.skip, 10);
    assert_eq!(plan.limit, 10);
    assert!(matches!(plan.sort, SortKey::Time));
    assert!(!plan.descending);
    q.sort_order = Some(-1);
    q.sort_by = Some("assetPrice".to_string());
    let plan = plan_query(Family::DepthPrice, &q, None, 0).unwrap();
    assert!(plan.descending);
    match plan.sort {
        SortKey::Field(name) => assert_eq!(name, "assetPrice"),
        SortKey::Time => panic!("expected a field sort"),
    }
    q.sort_order = Some(5);
    assert!(plan_query(Family::DepthPrice, &q, None, 0).unwrap().descending);
    q.sort_order = Some(1);
    assert!(!plan_query(Family::DepthPrice, &q, None, 0).unwrap().descending);
    q.page = Some(7);
    q.limit = None;
    q.count = Some(30);
    let plan = plan_query(Family::DepthPrice, &q, None, 0).unwrap();
    assert_eq!(plan.skip, 180);
    assert_eq!(plan.limit, 30);
}

#[test]
fn plan_keeps_pool_filter_for_earnings() {
    let mut q = params();
    q.pool = Some("ETH.ETH".to_string());
    let plan = plan_query(Family::Earning, &q, Some(0), 0).unwrap();
    assert_eq!(plan.filter.pool, Some("ETH.ETH".to_string()));
}
