use intelligence_capital_ledger::{
    calculate_depreciation, declining_balance_depreciation, linear_depreciation, months_between,
    AssetStatus, CalendarDate, DepreciationMethod, IclError, IntelligenceAsset,
};
use intelligence_capital_ledger::{format_date, parse_date};

fn date(year: i32, month: u32, day: u32) -> CalendarDate {
    CalendarDate { year, month, day }
}

fn test_asset() -> IntelligenceAsset {
    IntelligenceAsset {
        asset_id: 1,
        owner: "Test".to_string(),
        initial_value: 12000,
        depreciation_method: DepreciationMethod::Linear,
        useful_life_months: 12,
        created_at: 0,
        status: AssetStatus::Active,
        current_value: Some(12000),
    }
}

#[test]
fn test_months_between() {
    let start = date(2024, 1, 15);
    let end = date(2024, 7, 15);
    assert_eq!(months_between(start, end), 6);
}

#[test]
fn test_linear_depreciation() {
    let asset = test_asset();
    let start = date(2024, 1, 1);
    let end = date(2024, 7, 1);
    let (dep, new_val) = calculate_depreciation(&asset, start, end, 0, 200).unwrap();
    assert!((dep as f64 - 6000.0).abs() < 0.01);
    assert!((new_val as f64 - 6000.0).abs() < 0.01);
}

#[test]
fn months_between_truncates_partial_month() {
    assert_eq!(months_between(date(2024, 1, 20), date(2024, 3, 10)), 1);
    assert_eq!(months_between(date(2024, 3, 1), date(2024, 1, 1)), 0);
    assert_eq!(months_between(date(2023, 11, 1), date(2024, 2, 1)), 3);
}

#[test]
fn linear_full_life_reaches_zero() {
    let asset = test_asset();
    let (dep, new_val) =
        calculate_depreciation(&asset, date(2024, 1, 1), date(2025, 1, 1), 0, 200).unwrap();
    assert_eq!(dep, 12000);
    assert_eq!(new_val, 0);
}

#[test]
fn linear_never_drops_below_salvage() {
    let asset = test_asset();
    let (dep, new_val) =
        calculate_depreciation(&asset, date(2024, 1, 1), date(2034, 1, 1), 2000, 200).unwrap();
    assert_eq!(new_val, 2000);
    assert_eq!(dep, 10000);
}

#[test]
fn linear_empty_period_is_no_op() {
    let asset = test_asset();
    let (dep, new_val) =
        linear_depreciation(&asset, date(2024, 1, 1), date(2024, 1, 20), 0).unwrap();
    assert_eq!(dep, 0);
    assert_eq!(new_val, 12000);
}

#[test]
fn declining_balance_compounds_monthly() {
    let mut asset = test_asset();
    asset.depreciation_method = DepreciationMethod::DecliningBalance;
    // Double-declining on 12 months: monthly rate 200 / (100 * 12) of the
    // remaining value, truncated at each month.
    let (dep, new_val) =
        declining_balance_depreciation(&asset, date(2024, 1, 1), date(2024, 3, 1), 0, 200).unwrap();
    let first_month = 12000 * 200 / 1200;
    let second_month = (12000 - first_month) * 200 / 1200;
    assert_eq!(dep, first_month + second_month);
    assert_eq!(new_val, 12000 - first_month - second_month);
}

#[test]
fn declining_balance_stops_at_salvage() {
    let mut asset = test_asset();
    asset.depreciation_method = DepreciationMethod::DecliningBalance;
    let (dep, new_val) =
        calculate_depreciation(&asset, date(2024, 1, 1), date(2044, 1, 1), 11000, 200).unwrap();
    assert_eq!(new_val, 11000);
    assert_eq!(dep, 1000);
}

#[test]
fn depreciation_rejects_backward_range() {
    let asset = test_asset();
    let r = calculate_depreciation(&asset, date(2024, 7, 1), date(2024, 1, 1), 0, 200);
    match r {
        Err(IclError::InvalidDateRange { start, end }) => {
            assert_eq!(start, "2024-07-01");
            assert_eq!(end, "2024-01-01");
        },
        _ => panic!("expected an invalid date range"),
    }
}

#[test]
fn depreciation_rejects_negative_salvage() {
    let asset = test_asset();
    let r = calculate_depreciation(&asset, date(2024, 1, 1), date(2024, 7, 1), -1, 200);
    assert!(matches!(r, Err(IclError::DepreciationError(_))));
}

#[test]
fn depreciation_rejects_salvage_above_initial() {
    let asset = test_asset();
    let r = calculate_depreciation(&asset, date(2024, 1, 1), date(2024, 7, 1), 20000, 200);
    assert!(matches!(r, Err(IclError::DepreciationError(_))));
}

#[test]
fn date_rendering_round_trips() {
    let d = date(2024, 1, 15);
    let rendered = format_date(&d);
    assert_eq!(rendered, "2024-01-15");
    assert_eq!(parse_date(&rendered), Some(d));
    assert_eq!(parse_date("0007-12-31"), Some(date(7, 12, 31)));
}

#[test]
fn date_parsing_rejects_malformed_text() {
    assert_eq!(parse_date("2024-13-01"), None);
    assert_eq!(parse_date("2024-00-01"), None);
    assert_eq!(parse_date("2024-1-1"), None);
    assert_eq!(parse_date("not-a-date!"), None);
    assert_eq!(parse_date(""), None);
}
