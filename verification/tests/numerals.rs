use opcda_bridge_gateway::numerals::{decimal_text, parse_decimal};

#[test]
fn decimal_round_trip() {
    assert_eq!(decimal_text(1234), "1234");
    assert_eq!(parse_decimal("+1234", 9999), Some(1234));
}
