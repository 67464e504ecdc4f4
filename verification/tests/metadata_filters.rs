use anchorbell_engine::market::metadata::{
    default_funding_rate_type, BinanceExecutionFilters, BinanceFundingInfo, BinancePremiumIndexSnapshot,
    BinanceScaledExecutionFilters, PublicMetadataError,
};

fn text_filters() -> BinanceExecutionFilters {
    BinanceExecutionFilters {
        min_price: "0.01".to_string(),
        max_price: "100000".to_string(),
        price_tick: "0.01".to_string(),
        min_quantity: "0.001".to_string(),
        max_quantity: "1000".to_string(),
        quantity_step: "0.001".to_string(),
        min_notional: "5".to_string(),
        multiplier_up: "1.05".to_string(),
        multiplier_down: "0.95".to_string(),
    }
}

fn filters() -> BinanceScaledExecutionFilters {
    BinanceScaledExecutionFilters {
        min_price_ticks: 10,
        max_price_ticks: 1_000_000,
        price_tick: 10,
        min_quantity_units: 2,
        max_quantity_units: 1_000,
        quantity_step: 2,
        min_notional_price_ticks: 500,
        multiplier_up_ppm: 1_050_000,
        multiplier_down_ppm: 950_000,
    }
}

#[test]
fn scaled_filters_read_each_value_at_its_scale() {
    let scaled = text_filters().scaled(2, 3).unwrap();
    assert_eq!(
        scaled,
        BinanceScaledExecutionFilters {
            min_price_ticks: 1,
            max_price_ticks: 10_000_000,
            price_tick: 1,
            min_quantity_units: 1,
            max_quantity_units: 1_000_000,
            quantity_step: 1,
            min_notional_price_ticks: 500,
            multiplier_up_ppm: 1_050_000,
            multiplier_down_ppm: 950_000,
        }
    );
}

#[test]
fn scaled_filters_name_the_filter_that_does_not_scale() {
    let mut f = text_filters();
    f.price_tick = "0.001".to_string();
    assert_eq!(
        f.scaled(2, 3),
        Err(PublicMetadataError::InvalidExchangeFilter { filter: "PRICE_FILTER", field: "scaled_value" })
    );
    let mut f = text_filters();
    f.quantity_step = "0.0001".to_string();
    assert_eq!(
        f.scaled(2, 3),
        Err(PublicMetadataError::InvalidExchangeFilter { filter: "LOT_SIZE", field: "scaled_value" })
    );
    let mut f = text_filters();
    f.min_notional = "5.001".to_string();
    assert_eq!(
        f.scaled(2, 3),
        Err(PublicMetadataError::InvalidExchangeFilter { filter: "PRICE_FILTER", field: "scaled_value" })
    );
    let mut f = text_filters();
    f.multiplier_down = "x".to_string();
    assert_eq!(
        f.scaled(2, 3),
        Err(PublicMetadataError::InvalidExchangeFilter { filter: "PERCENT_PRICE", field: "scaled_value" })
    );
}

#[test]
fn normalize_price_rounds_with_the_order_intent() {
    let f = filters();
    assert_eq!(f.normalize_price(105, true, true), Ok(100));
    assert_eq!(f.normalize_price(105, false, true), Ok(110));
    assert_eq!(f.normalize_price(105, true, false), Ok(110));
    assert_eq!(f.normalize_price(105, false, false), Ok(100));
    assert_eq!(f.normalize_price(100, true, true), Ok(100));
}

#[test]
fn normalize_price_reports_each_rejection() {
    let f = filters();
    assert_eq!(f.normalize_price(0, true, true), Err("exchange_price_rule_invalid"));
    assert_eq!(f.normalize_price(5, true, true), Err("exchange_price_below_min"));
    assert_eq!(f.normalize_price(1_000_005, false, true), Err("exchange_price_above_max"));
    let mut bad = f;
    bad.price_tick = 0;
    assert_eq!(bad.normalize_price(100, true, true), Err("exchange_price_rule_invalid"));
    let mut wide = f;
    wide.max_price_ticks = i64::MAX;
    assert_eq!(wide.normalize_price(i64::MAX - 1, true, false), Ok(i64::MAX));
}

#[test]
fn normalize_quantity_steps_down_within_capacity() {
    let f = filters();
    // notional floor: 500 * 10^0 at price 100 needs 5 units, stepped to 6
    assert_eq!(f.normalize_quantity(9, 100, 1_000, 0), Ok(8));
    assert_eq!(f.normalize_quantity(1, 100, 1_000, 0), Ok(6));
    assert_eq!(f.normalize_quantity(50, 100, 20, 0), Ok(20));
}

#[test]
fn normalize_quantity_reports_each_rejection() {
    let f = filters();
    assert_eq!(f.normalize_quantity(0, 100, 10, 0), Err("exchange_quantity_non_positive"));
    assert_eq!(f.normalize_quantity(5, 0, 10, 0), Err("exchange_quantity_non_positive"));
    assert_eq!(f.normalize_quantity(5, 100, 0, 0), Err("exchange_quantity_non_positive"));
    let mut bad = f;
    bad.quantity_step = 0;
    assert_eq!(bad.normalize_quantity(5, 100, 10, 0), Err("exchange_quantity_rule_invalid"));
    assert_eq!(f.normalize_quantity(5, 100, 10, 39), Err("exchange_quantity_scale"));
    let mut huge = f;
    huge.min_notional_price_ticks = i64::MAX;
    assert_eq!(huge.normalize_quantity(5, 100, 10, 38), Err("exchange_notional_overflow"));
    assert_eq!(huge.normalize_quantity(5, 1, 10, 2), Err("exchange_min_notional_overflow"));
    assert_eq!(f.normalize_quantity(1, 100, 4, 0), Err("exchange_min_notional_exceeds_risk_capacity"));
    let mut odd = f;
    odd.quantity_step = i64::MAX - 1;
    odd.min_quantity_units = i64::MAX - 1;
    odd.max_quantity_units = i64::MAX;
    odd.min_notional_price_ticks = i64::MAX;
    assert_eq!(odd.normalize_quantity(5, 1, i64::MAX, 0), Err("exchange_quantity_overflow"));
}

#[test]
fn validate_order_accepts_an_admissible_order() {
    let f = filters();
    assert_eq!(f.validate_order(100, 6, 100, true, 0), Ok(()));
    assert_eq!(f.validate_order(100, 6, 100, false, 0), Ok(()));
}

#[test]
fn validate_order_reports_each_rejection() {
    let f = filters();
    assert_eq!(f.validate_order(0, 6, 100, true, 0), Err("exchange_order_non_positive"));
    assert_eq!(f.validate_order(100, 6, 0, true, 0), Err("exchange_order_non_positive"));
    assert_eq!(f.validate_order(1_000_010, 6, 100, true, 0), Err("exchange_price_above_max"));
    assert_eq!(f.validate_order(105, 6, 100, true, 0), Err("exchange_price_tick"));
    assert_eq!(f.validate_order(100, 1_002, 100, true, 0), Err("exchange_quantity_above_max"));
    assert_eq!(f.validate_order(100, 7, 100, true, 0), Err("exchange_quantity_step"));
    assert_eq!(f.validate_order(100, 4, 100, true, 0), Err("exchange_min_notional"));
    assert_eq!(f.validate_order(100, 6, 100, true, 39), Err("exchange_quantity_scale"));
    assert_eq!(f.validate_order(110, 6, 100, true, 0), Err("exchange_percent_price"));
    assert_eq!(f.validate_order(90, 6, 100, false, 0), Err("exchange_percent_price"));
    let mut low = f;
    low.min_price_ticks = 50;
    assert_eq!(low.validate_order(40, 6, 40, true, 0), Err("exchange_price_below_min"));
    assert_eq!(f.validate_order(100, 0, 100, true, 0), Err("exchange_order_non_positive"));
    let mut strict = f;
    strict.min_quantity_units = 8;
    assert_eq!(strict.validate_order(100, 6, 100, true, 0), Err("exchange_quantity_below_min"));
    let mut huge = f;
    huge.min_notional_price_ticks = i64::MAX;
    assert_eq!(huge.validate_order(100, 6, 100, true, 38), Err("exchange_notional_overflow"));
}

fn premium(mark: &str, index: &str, funding: &str, next: u64) -> BinancePremiumIndexSnapshot {
    BinancePremiumIndexSnapshot {
        symbol: "AAPLUSDT".to_string(),
        mark_price: mark.to_string(),
        index_price: index.to_string(),
        last_funding_rate: funding.to_string(),
        next_funding_time_ms: next,
        time: 0,
    }
}

#[test]
fn anchor_validation_checks_prices_then_funding() {
    let p = premium("101.5", "101.4", "-0.0001", 2_000);
    assert_eq!(p.validate_for_anchor(1_000, 1_500), Ok(()));
    assert_eq!(p.validate_for_anchor(1_600, 1_500), Err(PublicMetadataError::StaleSnapshot));
    assert_eq!(p.validate_for_anchor(1_000, 2_000), Err(PublicMetadataError::ExpiredFundingTime));
    assert_eq!(premium("0", "101", "0", 0).validate_for_anchor(1, 2), Err(PublicMetadataError::NonPositiveMarketValue));
    assert_eq!(premium("1", "1", "x", 0).validate_for_anchor(1, 2), Err(PublicMetadataError::InvalidFundingRate));
    assert_eq!(premium("1", "1", "0", 0).validate_for_anchor(1, 2), Ok(()));
}

#[test]
fn anchor_price_validation_ignores_the_funding_schedule() {
    let p = premium("101.5", "101.4", "bad", 5);
    assert_eq!(p.validate_for_anchor_price(1_000, 1_500), Ok(()));
    assert_eq!(p.validate_for_anchor_price(2_000, 1_500), Err(PublicMetadataError::StaleSnapshot));
    assert_eq!(
        premium("-1", "1", "0", 0).validate_for_anchor_price(1, 2),
        Err(PublicMetadataError::NonPositiveMarketValue)
    );
}

#[test]
fn funding_info_validation() {
    let info = BinanceFundingInfo {
        symbol: "AAPLUSDT".to_string(),
        adjusted_funding_rate_cap: "0.02".to_string(),
        adjusted_funding_rate_floor: "-0.02".to_string(),
        funding_interval_hours: 8,
    };
    assert_eq!(info.validate(), Ok(()));
    let mut blank = info.clone();
    blank.symbol = "  ".to_string();
    assert_eq!(blank.validate(), Err(PublicMetadataError::InvalidFundingRate));
    let mut zero = info.clone();
    zero.funding_interval_hours = 0;
    assert_eq!(zero.validate(), Err(PublicMetadataError::InvalidFundingRate));
    let mut cap = info.clone();
    cap.adjusted_funding_rate_cap = "0".to_string();
    assert_eq!(cap.validate(), Err(PublicMetadataError::InvalidFundingRate));
    let mut floor = info;
    floor.adjusted_funding_rate_floor = "-".to_string();
    assert_eq!(floor.validate(), Err(PublicMetadataError::InvalidFundingRate));
}

#[test]
fn omitted_rate_type_is_regular() {
    assert_eq!(default_funding_rate_type(), "Regular");
}
