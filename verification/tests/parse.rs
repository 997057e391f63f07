use sensor_handler::mouse_data::{parse_milli_range, MilliDelta, MouseData};
use sensor_handler::parse::{parse_u128, trim_str};

fn milli(s: &str) -> MilliDelta {
    parse_milli_range(s, 0, s.chars().count())
}

#[test]
fn trim_strips_surrounding_whitespace_only() {
    assert_eq!(trim_str("  hi \r\n"), "hi");
    assert_eq!(trim_str("a b"), "a b");
    assert_eq!(trim_str("\t\n"), "");
    assert_eq!(trim_str(""), "");
}

#[test]
fn parse_u128_reads_plain_decimals() {
    assert_eq!(parse_u128("0"), Some(0));
    assert_eq!(parse_u128("5"), Some(5));
    assert_eq!(parse_u128("+42"), Some(42));
    assert_eq!(parse_u128("007"), Some(7));
}

#[test]
fn parse_u128_rejects_malformed_input() {
    assert_eq!(parse_u128(""), None);
    assert_eq!(parse_u128("+"), None);
    assert_eq!(parse_u128(" 5"), None);
    assert_eq!(parse_u128("5 "), None);
    assert_eq!(parse_u128("-5"), None);
    assert_eq!(parse_u128("12a"), None);
    assert_eq!(parse_u128("1.0"), None);
}

#[test]
fn parse_u128_handles_the_overflow_boundary() {
    assert_eq!(
        parse_u128("340282366920938463463374607431768211455"),
        Some(u128::MAX)
    );
    assert_eq!(parse_u128("340282366920938463463374607431768211456"), None);
}

#[test]
fn motion_fields_read_as_milli_units() {
    assert_eq!(milli("3.0"), MilliDelta { neg: false, milli: 3000 });
    assert_eq!(milli("-2.0"), MilliDelta { neg: true, milli: 2000 });
    assert_eq!(milli("+1.5"), MilliDelta { neg: false, milli: 1500 });
    assert_eq!(milli("12"), MilliDelta { neg: false, milli: 12000 });
    assert_eq!(milli("3."), MilliDelta { neg: false, milli: 3000 });
    assert_eq!(milli(".5"), MilliDelta { neg: false, milli: 500 });
    assert_eq!(milli("0.9999"), MilliDelta { neg: false, milli: 999 });
}

#[test]
fn malformed_motion_fields_read_as_zero() {
    assert_eq!(milli(""), MilliDelta { neg: false, milli: 0 });
    assert_eq!(milli("."), MilliDelta { neg: false, milli: 0 });
    assert_eq!(milli("-"), MilliDelta { neg: false, milli: 0 });
    assert_eq!(milli("1e3"), MilliDelta { neg: false, milli: 0 });
    assert_eq!(milli("1.2.3"), MilliDelta { neg: false, milli: 0 });
    assert_eq!(milli("--1"), MilliDelta { neg: false, milli: 0 });
}

#[test]
fn mouse_data_splits_four_fields() {
    let frame = MouseData::new("1.5;-2.25;0.75;3".to_string());
    assert_eq!(frame.delta_x, MilliDelta { neg: false, milli: 1500 });
    assert_eq!(frame.delta_y, MilliDelta { neg: true, milli: 2250 });
    assert_eq!(frame.delta_wheel, MilliDelta { neg: false, milli: 750 });
    assert_eq!(frame.button_state, 3);
}

#[test]
fn mouse_data_defaults_missing_and_bad_fields() {
    let frame = MouseData::new("2".to_string());
    assert_eq!(frame.delta_x, MilliDelta { neg: false, milli: 2000 });
    assert_eq!(frame.delta_y, MilliDelta { neg: false, milli: 0 });
    assert_eq!(frame.delta_wheel, MilliDelta { neg: false, milli: 0 });
    assert_eq!(frame.button_state, 0);

    let frame = MouseData::new("x;y;z;bad".to_string());
    assert_eq!(frame.delta_x, MilliDelta { neg: false, milli: 0 });
    assert_eq!(frame.button_state, 0);

    // A button field that does not fit eight bits reads as zero.
    let frame = MouseData::new("0;0;0;256".to_string());
    assert_eq!(frame.button_state, 0);

    // Extra fields beyond the fourth are ignored.
    let frame = MouseData::new("1;2;3;4;5;6".to_string());
    assert_eq!(frame.button_state, 4);
}
