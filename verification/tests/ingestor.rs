use nectar::ingestor::{first_content, JsonIngestor, OtlpIngestor};
use nectar::refinery::{ConditionValue, RefineryCondition, RefineryConfig, RefineryRule};

#[test]
fn json_ingestor_format_name() {
    let ingestor = JsonIngestor;
    assert_eq!(ingestor.format_name(), "json");
}

#[test]
fn json_ingestor_can_handle_array() {
    let ingestor = JsonIngestor;
    assert!(ingestor.can_handle(b"[{\"trace_id\": \"abc\"}]", None));
}

#[test]
fn json_ingestor_can_handle_object() {
    let ingestor = JsonIngestor;
    assert!(ingestor.can_handle(b"{\"traces\": []}", None));
}

#[test]
fn json_ingestor_can_handle_content_type() {
    let ingestor = JsonIngestor;
    assert!(ingestor.can_handle(b"anything", Some("application/json")));
    assert!(ingestor.can_handle(b"anything", Some("application/json; charset=utf-8")));
}

#[test]
fn json_ingestor_rejects_protobuf() {
    let ingestor = JsonIngestor;
    assert!(!ingestor.can_handle(b"\x0a\x0b", Some("application/x-protobuf")));
}

#[test]
fn json_ingestor_handles_whitespace() {
    let ingestor = JsonIngestor;
    assert!(ingestor.can_handle(b"  \n  [{\"trace_id\": \"abc\"}]", None));
}

#[test]
fn otlp_ingestor_format_name() {
    let ingestor = OtlpIngestor;
    assert_eq!(ingestor.format_name(), "otlp");
}

#[test]
fn otlp_ingestor_can_handle_content_type() {
    let ingestor = OtlpIngestor;
    assert!(ingestor.can_handle(&[], Some("application/x-protobuf")));
    assert!(ingestor.can_handle(&[], Some("application/protobuf")));
    assert!(ingestor.can_handle(&[], Some("application/grpc")));
}

#[test]
fn otlp_ingestor_can_handle_protobuf_header() {
    let ingestor = OtlpIngestor;
    assert!(ingestor.can_handle(&[0x0A, 0x10], None));
}

#[test]
fn otlp_ingestor_rejects_json() {
    let ingestor = OtlpIngestor;
    assert!(!ingestor.can_handle(b"[{\"trace_id\":\"abc\"}]", Some("application/json")));
}

#[test]
fn format_detection_edge_cases() {
    let json = JsonIngestor;
    assert!(!json.can_handle(b"", None));
    assert!(!json.can_handle(b" \t\r\n\x0c", None));
    assert!(!json.can_handle(b"\x0b[", None));
    assert!(json.can_handle(b"\x0c{", None));
    assert!(!json.can_handle(b"x[", Some("text/plain")));
    assert!(json.can_handle(b"x", Some("text/plain, application/json")));
    let otlp = OtlpIngestor;
    assert!(!otlp.can_handle(&[], None));
    assert!(!otlp.can_handle(b" \x0a", None));
    assert!(!otlp.can_handle(&[0x0B], Some("application/json")));
    assert_eq!(first_content(b"  x "), Some(2));
    assert_eq!(first_content(b"   "), None);
}

#[test]
fn refinery_rule_sample_rate_conversion() {
    // 10% sample rate = keep 1 in 10
    let rule = RefineryRule::sample("test", 100_000);
    assert_eq!(rule.sample_rate, 10);

    // 1% sample rate = keep 1 in 100
    let rule = RefineryRule::sample("test", 10_000);
    assert_eq!(rule.sample_rate, 100);

    // 100% = keep all
    let rule = RefineryRule::sample("test", 1_000_000);
    assert_eq!(rule.sample_rate, 1);
}

#[test]
fn refinery_rules_and_configuration() {
    assert_eq!(RefineryRule::sample("s", 0).sample_rate, 0);
    assert_eq!(RefineryRule::sample("s", u32::MAX).sample_rate, 1);
    assert_eq!(RefineryRule::sample("s", 1).sample_rate, 1_000_000);
    assert_eq!(RefineryRule::sample("s", 300_000).sample_rate, 3);
    assert_eq!(RefineryRule::sample("s", 400_000).sample_rate, 3); // 2.5 rounds up
    assert_eq!(RefineryRule::sample("s", 666_667).sample_rate, 1); // below 1.5
    assert_eq!(RefineryRule::sample("s", 666_666).sample_rate, 2); // just above 1.5
    assert_eq!(RefineryRule::keep("k").sample_rate, 1);
    assert_eq!(RefineryRule::drop("d").sample_rate, 0);
    let condition = RefineryCondition {
        field: "status".to_string(),
        operator: ">=".to_string(),
        value: ConditionValue::Number(500),
    };
    let rule = RefineryRule::keep("k").with_condition(condition.clone());
    assert_eq!(rule.conditions, vec![condition]);
    let mut config = RefineryConfig::new();
    assert!(config.rules_based_sampler.rules.is_empty());
    config.add_rule(rule.clone());
    config.add_rule(RefineryRule::drop("d"));
    assert_eq!(config.rules_based_sampler.rules.len(), 2);
    assert_eq!(config.rules_based_sampler.rules[0], rule);
    assert_eq!(RefineryConfig::default(), RefineryConfig::new());
}

#[test]
fn leading_white_space_is_cut_off() {
    use_trimmed(b"  \t\r\n{\"a\": 1} ", b"{\"a\": 1} ");
    use_trimmed(b"[1]", b"[1]");
    use_trimmed(b" \n ", b"");
    use_trimmed(b"", b"");
}

fn use_trimmed(data: &[u8], expected: &[u8]) {
    assert_eq!(nectar::ingestor::trim_leading_whitespace(data), expected);
}
