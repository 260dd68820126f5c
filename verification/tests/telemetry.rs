use iot_gateway::telemetry::{collected_now, good_sample};

#[test]
fn samples_are_tagged_register1_and_good() {
    let s = good_sample(1151, 1_786_760_256_413);
    assert_eq!(s.tag, "register1");
    assert_eq!(s.value, 1151);
    assert_eq!(s.timestamp_ms, 1_786_760_256_413);
    assert_eq!(s.quality, "good");
}

#[test]
fn samples_collected_now_carry_the_value_and_a_current_time() {
    let s = collected_now(42);
    assert_eq!(s.tag, "register1");
    assert_eq!(s.value, 42);
    assert_eq!(s.quality, "good");
    // 2020-01-01T00:00:00Z in milliseconds: the clock reads a time after it
    assert!(s.timestamp_ms > 1_577_836_800_000);
}

#[test]
fn payload_is_a_flat_json_object() {
    let s = good_sample(1151, 1_786_760_256_413);
    assert_eq!(
        iot_gateway::telemetry::payload_text(&s),
        r#"{"quality":"good","register1":1151,"ts":1786760256413}"#
    );
}

#[test]
fn payload_carries_negative_and_extreme_values() {
    let s = good_sample(65535, -5);
    assert_eq!(
        iot_gateway::telemetry::payload_text(&s),
        r#"{"quality":"good","register1":65535,"ts":-5}"#
    );
}
