use iroha2_longevity_load::decimal::i64_to_dec;
use iroha2_longevity_load::decimal::u64_to_dec;
use iroha2_longevity_load::status::Status;
use iroha2_longevity_load::status_json::parse_status_json;
use iroha2_longevity_load::status_json::render_status_json;

#[test]
fn decimal_renders_exact_values() {
    assert_eq!(u64_to_dec(0), "0");
    assert_eq!(u64_to_dec(7), "7");
    assert_eq!(u64_to_dec(1203), "1203");
    assert_eq!(u64_to_dec(u64::MAX), "18446744073709551615");
    assert_eq!(i64_to_dec(0), "0");
    assert_eq!(i64_to_dec(-1), "-1");
    assert_eq!(i64_to_dec(1647000000123), "1647000000123");
    assert_eq!(i64_to_dec(i64::MIN), "-9223372036854775808");
    assert_eq!(i64_to_dec(i64::MAX), "9223372036854775807");
}

#[test]
fn default_status_renders_exact_json() {
    let s = Status::default();
    assert_eq!(
        render_status_json(&s),
        "{\"txs_committed\":0,\"txs_rejected\":0,\"txs_sent\":0,\"txs_unknown\":0,\
         \"latest_committed_transaction\":null,\"latest_rejected_transaction\":null,\
         \"latest_sent_at\":null}"
    );
}

#[test]
fn populated_status_renders_exact_json() {
    let s = Status::from_parts(1, 2, 30, 4, Some(5), None, Some(-7));
    assert_eq!(
        render_status_json(&s),
        "{\"txs_committed\":1,\"txs_rejected\":2,\"txs_sent\":30,\"txs_unknown\":4,\
         \"latest_committed_transaction\":5,\"latest_rejected_transaction\":null,\
         \"latest_sent_at\":-7}"
    );
}

#[test]
fn json_round_trip_default() {
    let s = Status::default();
    let parsed = parse_status_json(&render_status_json(&s)).expect("canonical JSON must parse");
    assert!(parsed == s);
}

#[test]
fn json_round_trip_after_updates() {
    let mut s = Status::default();
    s.tx_is_sent(4);
    s.tx_is_committed();
    s.tx_is_committed();
    s.tx_is_rejected();
    s.tx_is_unknown();
    let parsed = parse_status_json(&render_status_json(&s)).expect("canonical JSON must parse");
    assert!(parsed == s);
}

#[test]
fn json_round_trip_negative_timestamp() {
    let s = Status::from_parts(0, 0, 1, 0, Some(-123456789), Some(0), Some(i64::MIN));
    let parsed = parse_status_json(&render_status_json(&s)).expect("canonical JSON must parse");
    assert!(parsed == s);
}

#[test]
fn json_round_trip_large_counters() {
    let s = Status::from_parts(usize::MAX, 0, usize::MAX, 1, None, Some(i64::MAX), None);
    let parsed = parse_status_json(&render_status_json(&s)).expect("canonical JSON must parse");
    assert!(parsed == s);
}

#[test]
fn parse_rejects_malformed_input() {
    assert!(parse_status_json("").is_none());
    assert!(parse_status_json("{}").is_none());
    assert!(parse_status_json("{\"txs_committed\":0").is_none());
    let canonical = render_status_json(&Status::default());
    let mut truncated = canonical.clone();
    truncated.pop();
    assert!(parse_status_json(&truncated).is_none());
    let extended = format!("{} ", canonical);
    assert!(parse_status_json(&extended).is_none());
    let leading_zero = canonical.replace("\"txs_committed\":0", "\"txs_committed\":00");
    assert!(parse_status_json(&leading_zero).is_none());
    let negative_counter = canonical.replace("\"txs_sent\":0", "\"txs_sent\":-1");
    assert!(parse_status_json(&negative_counter).is_none());
    let minus_zero = canonical.replace("\"latest_sent_at\":null", "\"latest_sent_at\":-0");
    assert!(parse_status_json(&minus_zero).is_none());
}

#[test]
fn rendered_json_is_valid_for_serde() {
    let s = Status::from_parts(3, 1, 9, 2, Some(1647000000123), None, Some(-4));
    let rendered = render_status_json(&s);
    let value: serde_json::Value = serde_json::from_str(&rendered).expect("valid JSON");
    assert_eq!(value.get("txs_committed").unwrap().as_u64(), Some(3));
    assert_eq!(value.get("txs_rejected").unwrap().as_u64(), Some(1));
    assert_eq!(value.get("txs_sent").unwrap().as_u64(), Some(9));
    assert_eq!(value.get("txs_unknown").unwrap().as_u64(), Some(2));
    assert_eq!(
        value.get("latest_committed_transaction").unwrap().as_i64(),
        Some(1647000000123)
    );
    assert!(value.get("latest_rejected_transaction").unwrap().is_null());
    assert_eq!(value.get("latest_sent_at").unwrap().as_i64(), Some(-4));
}
