use anchorbell_engine::decimal::{parse_decimal, parse_scaled_decimal, DecimalError, ScaledDecimalError};
use anchorbell_engine::simulation::{
    local_capital_to_usdt_ticks, parse_position_modes, CapitalConversionError, PositionMode, PositionModeError,
};
use anchorbell_engine::text::parse_u64_text;

fn symbols() -> Vec<String> {
    vec!["BTCUSDT".to_string(), "ETHUSDT".to_string()]
}

#[test]
fn scaled_decimals_accept_signs_and_bare_fractions() {
    assert_eq!(parse_scaled_decimal(" 12.5 ", 2), Ok(1_250));
    assert_eq!(parse_scaled_decimal("-0.01", 2), Ok(-1));
    assert_eq!(parse_scaled_decimal("+3", 0), Ok(3));
    assert_eq!(parse_scaled_decimal(".5", 1), Ok(5));
    assert_eq!(parse_scaled_decimal("7.", 3), Ok(7_000));
    assert_eq!(parse_scaled_decimal("1", 19), Err(ScaledDecimalError::ScaleTooLarge));
    assert_eq!(parse_scaled_decimal(".", 2), Err(ScaledDecimalError::Invalid));
    assert_eq!(parse_scaled_decimal("1.2.3", 2), Err(ScaledDecimalError::Invalid));
    assert_eq!(parse_scaled_decimal("1.234", 2), Err(ScaledDecimalError::Invalid));
    assert_eq!(parse_scaled_decimal("-+1", 2), Err(ScaledDecimalError::Invalid));
    assert_eq!(
        parse_scaled_decimal("1000000000000000000000000000000000000000", 0),
        Err(ScaledDecimalError::WholeOverflow)
    );
    assert_eq!(parse_scaled_decimal("92233720368547758.08", 2), Err(ScaledDecimalError::ValueOverflow));
    assert_eq!(parse_scaled_decimal("-92233720368547758.08", 2), Ok(i64::MIN));
    assert_eq!(ScaledDecimalError::Invalid.message(), "expected a non-negative decimal number");
}

#[test]
fn positive_decimals_need_a_whole_part() {
    assert_eq!(parse_decimal(" 100.25 ", 8), Ok(10_025_000_000));
    assert_eq!(parse_decimal("0", 8), Ok(0));
    assert_eq!(parse_decimal(".5", 8), Err(DecimalError::Invalid));
    assert_eq!(parse_decimal("-1", 8), Err(DecimalError::Invalid));
    assert_eq!(parse_decimal("1.123", 2), Err(DecimalError::Invalid));
    assert_eq!(parse_decimal("92233720368.54775808", 8), Err(DecimalError::Overflow));
}

#[test]
fn local_capital_converts_to_usdt() {
    assert_eq!(local_capital_to_usdt_ticks(72_000, 7_200_000), Ok(10_000));
    assert_eq!(local_capital_to_usdt_ticks(10, 3_000_000), Ok(3));
    assert_eq!(local_capital_to_usdt_ticks(0, 7_200_000), Err(CapitalConversionError::NonPositive));
    assert_eq!(local_capital_to_usdt_ticks(5, -1), Err(CapitalConversionError::NonPositive));
    assert_eq!(local_capital_to_usdt_ticks(i64::MAX, 1), Err(CapitalConversionError::Overflow));
    assert_eq!(CapitalConversionError::Overflow.message(), "converted USDT capital overflows");
}

#[test]
fn position_modes_are_parsed_per_symbol() {
    let modes = parse_position_modes(" btcusdt = Weight:2 ,, ETHUSDT=fixed:1000.5 ", &symbols(), 2).unwrap();
    assert_eq!(modes.get("BTCUSDT"), Some(&PositionMode::Weight(2)));
    assert_eq!(modes.get("ETHUSDT"), Some(&PositionMode::FixedUsdt(100_050)));
    assert_eq!(modes.len(), 2);
    let equal = parse_position_modes("ETHUSDT=EQUAL", &symbols(), 2).unwrap();
    assert_eq!(equal.get("ETHUSDT"), Some(&PositionMode::Equal));
    assert_eq!(parse_position_modes("", &symbols(), 2).unwrap().len(), 0);
    assert_eq!(parse_position_modes("BTCUSDT", &symbols(), 2), Err(PositionModeError::MissingEquals));
    assert_eq!(
        parse_position_modes("SOLUSDT=equal", &symbols(), 2),
        Err(PositionModeError::UnknownSymbol("SOLUSDT".to_string()))
    );
    assert_eq!(
        parse_position_modes("BTCUSDT=equal,btcusdt=weight:1", &symbols(), 2),
        Err(PositionModeError::DuplicateSymbol("BTCUSDT".to_string()))
    );
    assert_eq!(parse_position_modes("BTCUSDT=weight:x", &symbols(), 2), Err(PositionModeError::InvalidWeight));
    assert_eq!(
        parse_position_modes("BTCUSDT=fixed:1.234", &symbols(), 2),
        Err(PositionModeError::Budget(ScaledDecimalError::Invalid))
    );
    assert_eq!(
        parse_position_modes("BTCUSDT=Half", &symbols(), 2),
        Err(PositionModeError::UnsupportedMode("half".to_string()))
    );
    assert_eq!(
        parse_position_modes("BTCUSDT=bad,SOLUSDT=equal", &symbols(), 2),
        Err(PositionModeError::UnsupportedMode("bad".to_string()))
    );
}

#[test]
fn unsigned_integers_parse_like_u64_from_str() {
    assert_eq!(parse_u64_text("42"), Some(42));
    assert_eq!(parse_u64_text("+7"), Some(7));
    assert_eq!(parse_u64_text("18446744073709551615"), Some(u64::MAX));
    assert_eq!(parse_u64_text("18446744073709551616"), None);
    assert_eq!(parse_u64_text("+"), None);
    assert_eq!(parse_u64_text(" 1"), None);
    assert_eq!(parse_u64_text(""), None);
}
