use nectar::compiler::{CompileOptions, Compiler, OutputFormat};
use nectar::corpus::Corpus;
use nectar::error::Error;
use nectar::harness::{
    policy_hash, Checkpoint, ReplayEvent, ReplayLog, SimResult, SimSummary, TimeCompressor,
};
use nectar::ingestor::{contains_bytes, get_first_line, is_known_field, HoneycombIngestor};
use nectar::loader::parse_duration;
use nectar::lockfile::{
    days_to_ymd, format_timestamp, hash_content, hex16, is_leap_year, Lockfile,
};
use nectar::policy::{Action, Policy, Rule};
use nectar::refinery::{ConditionValue, RefineryCondition, RefineryRule};
use nectar::response::{ContentBlock, MessageResponse, Usage};
use nectar::trace::Trace;
use nectar::waggle::{format_action, generate_waggle_report};
use std::time::Duration;

fn rate(share: f64) -> u32 {
    (share * 1_000_000.0).round() as u32
}

fn answer(texts: &[&str]) -> MessageResponse {
    MessageResponse {
        id: "msg_123".to_string(),
        model: "model-1".to_string(),
        stop_reason: Some("end_turn".to_string()),
        content: texts.iter().map(|t| ContentBlock::Text { text: t.to_string() }).collect(),
        usage: Usage { input_tokens: 100, output_tokens: 50 },
    }
}

#[test]
fn extract_toon_from_response() {
    let response = answer(&["Here's the policy:\n\n```toon\npolicy[1]{name}:\n  test\n```\n"]);

    let toon = response.extract_toon().unwrap();
    assert!(toon.contains("policy[1]"));
}

#[test]
fn fenced_blocks_are_found_exactly() {
    assert_eq!(
        answer(&["Here's the policy:\n\n```toon\npolicy[1]{name}:\n  test\n```\n"]).extract_toon(),
        Some("policy[1]{name}:\n  test".to_string())
    );
    // The text is that of all blocks together.
    assert_eq!(answer(&["a ``", "`toon x `", "`` b"]).text(), "a ```toon x ``` b");
    assert_eq!(answer(&["a ``", "`toon x `", "`` b"]).extract_toon(), Some("x".to_string()));
    // A block without mark: what stands behind its first line.
    assert_eq!(
        answer(&["```yaml\nname: x\n```"]).extract_toon(),
        Some("name: x".to_string())
    );
    // Without a line feed the block begins behind the fence.
    assert_eq!(answer(&["``` inline ```"]).extract_toon(), Some("inline".to_string()));
    // A marked block that is not closed: the fence of the mark itself is
    // the first fence, and the text behind its line has no fence.
    assert_eq!(answer(&["```toon\nnever closed"]).extract_toon(), None);
    assert_eq!(answer(&["no fence at all"]).extract_toon(), None);
    assert_eq!(answer(&[]).extract_toon(), None);
    assert_eq!(answer(&["``````"]).extract_toon(), Some(String::new()));
}

#[test]
fn honeycomb_ingestor_format_name() {
    let ingestor = HoneycombIngestor;
    assert_eq!(ingestor.format_name(), "honeycomb");
}

#[test]
fn honeycomb_ingestor_can_handle_trace_fields() {
    let ingestor = HoneycombIngestor;
    let data = br#"{"trace.trace_id":"abc","trace.span_id":"123"}"#;
    assert!(ingestor.can_handle(data, None));
}

#[test]
fn honeycomb_ingestor_can_handle_content_type() {
    let ingestor = HoneycombIngestor;
    assert!(ingestor.can_handle(b"{}", Some("application/x-ndjson")));
}

#[test]
fn honeycomb_ingestor_rejects_plain_json_array() {
    let ingestor = HoneycombIngestor;
    // Plain JSON array without Honeycomb fields
    assert!(!ingestor.can_handle(b"[{\"id\":1}]", None));
}

#[test]
fn lines_of_spans_are_recognised_by_their_first_line() {
    let ingestor = HoneycombIngestor;
    assert!(ingestor.can_handle(b"  \n {\"trace_id\":1,\"span_id\":2}\nrest", None));
    assert!(!ingestor.can_handle(b"{\"trace_id\":1}\n{\"span_id\":2}", None));
    assert!(ingestor.can_handle(b"{\"trace.span_id\":2}", None));
    assert!(!ingestor.can_handle(b"{\"trace.span_id\":2, \"x\": \"\xff\"}", None));
    assert!(ingestor.can_handle(b"{\"trace.span_id\":2}\n\xff", None));
    assert!(!ingestor.can_handle(b"", None));
    assert!(!ingestor.can_handle(b" \n ", None));
    assert!(!ingestor.can_handle(b"x{\"trace.span_id\":2}", Some("application/json")));
    assert!(ingestor.can_handle(b"", Some("application/x-honeycomb; v=1")));
    assert_eq!(get_first_line(b" \t a b \n c"), b"a b ");
    assert_eq!(get_first_line(b"\n\n"), b"");
    assert!(contains_bytes(b"abc", b""));
    assert!(contains_bytes(b"abc", b"bc"));
    assert!(!contains_bytes(b"abc", b"cb"));
    assert!(!contains_bytes(b"ab", b"abc"));
    assert!(is_known_field("trace.trace_id"));
    assert!(is_known_field("kind"));
    assert!(!is_known_field("Kind"));
    assert!(!is_known_field("http.route"));
}

#[test]
fn parse_duration_milliseconds() {
    assert_eq!(parse_duration("150ms").unwrap(), Duration::from_millis(150));
    assert_eq!(parse_duration("150").unwrap(), Duration::from_millis(150));
}

#[test]
fn parse_duration_seconds() {
    assert_eq!(parse_duration("2s").unwrap(), Duration::from_secs(2));
    assert_eq!(parse_duration("2.5s").unwrap(), Duration::from_secs_f64(2.5));
}

#[test]
fn durations_that_cannot_be_read() {
    let invalid = |text: &str| Err(Error::InvalidTrace(format!("invalid duration: {text}")));
    assert_eq!(parse_duration(" 7 ms "), Ok(Duration::from_millis(7)));
    assert_eq!(parse_duration("0.000001s"), Ok(Duration::from_micros(1)));
    assert_eq!(parse_duration("0.0000009s"), Ok(Duration::ZERO));
    assert_eq!(
        parse_duration("18446744073.709551s"),
        Ok(Duration::from_nanos(18_446_744_073_709_551_000))
    );
    assert_eq!(parse_duration("18446744073.709552s"), invalid("18446744073.709552s"));
    assert_eq!(parse_duration("-1s"), invalid("-1s"));
    assert_eq!(parse_duration("xms"), invalid("xms"));
    assert_eq!(parse_duration("1.5ms"), invalid("1.5ms"));
    assert_eq!(parse_duration("s"), invalid("s"));
    assert_eq!(
        parse_duration("5m"),
        Err(Error::InvalidTrace("invalid duration format: 5m".to_string()))
    );
    assert_eq!(
        parse_duration(""),
        Err(Error::InvalidTrace("invalid duration format: ".to_string()))
    );
}

#[test]
fn time_compressor_advances_correctly() {
    let mut tc = TimeCompressor::new(1000);
    tc.advance(1);
    assert_eq!(tc.simulated_time_ms, 1000);
    assert_eq!(tc.real_time_ms, 1);

    tc.advance(10);
    assert_eq!(tc.simulated_time_ms, 11000);
}

#[test]
fn time_compressor_formats_duration() {
    let mut tc = TimeCompressor::new(1000);
    tc.advance(3600); // 1 hour simulated
    assert!(tc.simulated_duration().contains('h'));
}

#[test]
fn compressed_time_for_reading() {
    let mut tc = TimeCompressor::default();
    assert_eq!(tc.ratio, 1000);
    assert_eq!(tc.simulated_duration(), "0s");
    tc.advance(61);
    assert_eq!(tc.simulated_duration(), "1m 1s");
    tc.advance(3_600);
    assert_eq!(tc.simulated_duration(), "1h 1m 1s");
    assert_eq!(tc.real_time_ms, 3_661);
}

#[test]
fn sim_result_display() {
    let result = SimResult::pass("test", "it worked");
    assert!(result.to_string().contains("PASS"));
    assert!(result.to_string().contains("test"));

    let result = SimResult::fail("test", "it broke");
    assert!(result.to_string().contains("FAIL"));
}

#[test]
fn sim_summary_aggregation() {
    let results = vec![
        SimResult::pass("a", "ok"),
        SimResult::fail("b", "not ok"),
        SimResult::skip("c", "skipped"),
    ];

    let summary = SimSummary::from_results(results);
    assert_eq!(summary.total, 3);
    assert_eq!(summary.passed, 1);
    assert_eq!(summary.failed, 1);
    assert_eq!(summary.skipped, 1);
    assert!(!summary.all_passed());
}

#[test]
fn results_and_summaries_for_reading() {
    let failed = SimResult::fail("b", "not ok").with_diagnostic("first").with_diagnostic("second");
    assert_eq!(failed.to_string(), "[FAIL] b: not ok\n  - first\n  - second");
    assert_eq!(SimResult::skip("c", "why").to_string(), "[SKIP] c: why");
    let summary = SimSummary::from_results(vec![SimResult::pass("a", "ok"), failed]);
    assert_eq!(
        summary.to_string(),
        "Simulation Summary\n==================\nTotal:   2\nPassed:  1\nFailed:  1\nSkipped: 0\n\n[PASS] a: ok\n[FAIL] b: not ok\n  - first\n  - second\n"
    );
    assert!(!summary.all_invariants_held());
    let empty = SimSummary::from_results(Vec::new());
    assert!(empty.all_passed());
    assert!(empty.all_invariants_held());
    assert_eq!((empty.total, empty.passed, empty.failed, empty.skipped), (0, 0, 0, 0));
}

fn test_policy() -> Policy {
    let mut policy = Policy::new("test-policy");
    policy.add_rule(Rule::new("keep-errors", "status >= 500", Action::Keep, 100));
    policy.add_rule(Rule::new("fallback", "true", Action::Sample(rate(0.01)), 0));
    policy
}

#[test]
fn replay_log_records_events() {
    let mut log = ReplayLog::new();
    let policy = test_policy();
    let corpus = Corpus::new();

    log.record_policy_change(0, &policy);
    log.record_corpus_change(100, &corpus);
    log.record_verification(200, true, "ok");

    assert_eq!(log.events.len(), 3);
}

#[test]
fn checkpoints_are_compared_by_policy_and_output() {
    let checkpoint = |policy_hash: u64, corpus_hash: u64, compiled_hash: u64| Checkpoint {
        timestamp_ms: 0,
        policy_hash,
        corpus_hash,
        compiled_hash,
    };
    let mut first = ReplayLog::new();
    first.checkpoints.push(checkpoint(1, 2, 3));
    let mut second = ReplayLog::default();
    assert!(!first.verify_replay(&second));
    second.checkpoints.push(checkpoint(1, 9, 3));
    // Same sequence should produce same checkpoints; the corpus does not count.
    assert!(first.verify_replay(&second));
    second.checkpoints[0].compiled_hash = 4;
    assert!(!first.verify_replay(&second));
    second.checkpoints[0] = checkpoint(7, 2, 3);
    assert!(!first.verify_replay(&second));
    assert!(ReplayLog::new().verify_replay(&ReplayLog::new()));
}

#[test]
fn events_hold_what_was_recorded() {
    let mut log = ReplayLog::new();
    let policy = test_policy();
    let corpus = Corpus::from_traces(vec![Trace::new("a").with_status(500), Trace::new("b")]);
    log.record_policy_change(5, &policy);
    log.record_corpus_change(6, &corpus);
    log.record_verification(7, false, "rejected");
    assert_eq!(
        log.events,
        vec![
            ReplayEvent::PolicyChange {
                timestamp_ms: 5,
                policy_hash: policy_hash(&policy),
                rule_count: 2
            },
            ReplayEvent::CorpusChange { timestamp_ms: 6, trace_count: 2, error_count: 1 },
            ReplayEvent::Verification {
                timestamp_ms: 7,
                passed: false,
                message: "rejected".to_string()
            },
        ]
    );
    let mut other = test_policy();
    other.name = "other".to_string();
    assert_ne!(policy_hash(&policy), policy_hash(&other));
    assert_eq!(policy_hash(&policy), policy_hash(&test_policy()));
}

#[test]
fn hash_is_deterministic() {
    let content = "test content";
    let hash1 = hash_content(content);
    let hash2 = hash_content(content);
    assert_eq!(hash1, hash2);
}

#[test]
fn different_content_different_hash() {
    let hash1 = hash_content("content a");
    let hash2 = hash_content("content b");
    assert_ne!(hash1, hash2);
}

#[test]
fn lockfile_creation() {
    let mut policy = Policy::new("test-policy");
    policy.add_rule(Rule::new("keep-errors", "status >= 500", Action::Keep, 100));

    let source = "nectar_policy{...}";
    let compiled = "RulesBasedSampler: ...";

    let lockfile = Lockfile::new(&policy, source, compiled);

    assert_eq!(lockfile.version, 1);
    assert_eq!(lockfile.policy_name, "test-policy");
    assert_eq!(lockfile.rule_count, 1);
    assert!(!lockfile.source_hash.is_empty());
    assert!(!lockfile.compiled_hash.is_empty());
}

#[test]
fn lockfile_verification() {
    let policy = Policy::new("test");
    let source = "source content";
    let compiled = "compiled content";

    let lockfile = Lockfile::new(&policy, source, compiled);

    // Same content should verify
    assert!(lockfile.verify(source, compiled));
    assert!(lockfile.verify_source(source));
    assert!(lockfile.verify_compiled(compiled));

    // Different content should not verify
    assert!(!lockfile.verify("different", compiled));
    assert!(!lockfile.verify(source, "different"));
}

#[test]
fn timestamp_generation() {
    let policy = Policy::new("test");
    let lockfile = Lockfile::new(&policy, "source", "compiled").with_timestamp(1_705_309_200);

    assert!(lockfile.created_at.is_some());
    let ts = lockfile.created_at.unwrap();
    // Should be ISO 8601 format
    assert!(ts.contains('T'));
    assert!(ts.ends_with('Z'));
}

#[test]
fn hashes_and_time_stamps_in_exact_numbers() {
    assert_eq!(hash_content("").len(), 16);
    assert_ne!(hash_content(""), hash_content("\0"));
    assert!(hash_content("x").chars().all(|c| c.is_ascii_digit() || ('a'..='f').contains(&c)));
    assert_eq!(hex16(0), "0000000000000000");
    assert_eq!(hex16(0xABCD), "000000000000abcd");
    assert_eq!(hex16(u64::MAX), "ffffffffffffffff");
    assert_eq!(hex16(0x0123_4567_89ab_cdef), "0123456789abcdef");

    assert_eq!(format_timestamp(0), "1970-01-01T00:00:00Z");
    assert_eq!(format_timestamp(1_705_309_200), "2024-01-15T09:00:00Z");
    assert_eq!(format_timestamp(951_782_399), "2000-02-28T23:59:59Z");
    assert_eq!(format_timestamp(951_782_400), "2000-02-29T00:00:00Z");
    assert_eq!(format_timestamp(951_868_800), "2000-03-01T00:00:00Z");
    assert_eq!(format_timestamp(4_107_542_399), "2100-02-28T23:59:59Z");
    assert_eq!(format_timestamp(4_107_542_400), "2100-03-01T00:00:00Z");
    assert_eq!(format_timestamp(1_735_689_599), "2024-12-31T23:59:59Z");
    assert_eq!(format_timestamp(253_402_300_800), "10000-01-01T00:00:00Z");
    let date = days_to_ymd(365);
    assert_eq!((date.year, date.month, date.day), (1971, 1, 1));
    let date = days_to_ymd(364);
    assert_eq!((date.year, date.month, date.day), (1970, 12, 31));
    assert!(is_leap_year(2024));
    assert!(is_leap_year(2000));
    assert!(!is_leap_year(1900));
    assert!(!is_leap_year(2023));
}

#[test]
fn generate_waggle_report_basic() {
    let mut policy = Policy::new("test-policy");
    policy.add_rule(
        Rule::new("keep-errors", "status >= 500", Action::Keep, 100)
            .with_description("Retain all HTTP 5xx errors for debugging"),
    );
    policy.add_rule(Rule::new("sample-rest", "true", Action::Sample(rate(0.01)), 0));

    let report = generate_waggle_report(&policy);

    assert!(report.contains("# Waggle Report: test-policy"));
    assert!(report.contains("keep-errors"));
    assert!(report.contains("Retain all HTTP 5xx errors"));
    assert!(report.contains("Sample at 1.0%"));
}

#[test]
fn report_in_full() {
    let mut policy = Policy::new("p");
    policy.budget_per_second = Some(500);
    policy.add_rule(Rule::new("errors", "status >= 500", Action::Keep, 9).with_description("Why."));
    policy.add_rule(Rule::new("noise", "service == ping", Action::Drop, 5));
    policy.add_rule(Rule::new("slow", "duration > 1s", Action::Keep, 4));
    policy.add_rule(Rule::new("rest", "true", Action::Sample(125_500), 0));
    assert_eq!(
        generate_waggle_report(&policy),
        "# Waggle Report: p\n\n## Overview\n\n- **Version**: 1\n- **Budget**: 500 traces/second\n- **Rules**: 4\n\n## Rules\n\nRules are evaluated in priority order (highest first).\n\n### 1. errors (priority: 9)\n\nWhy.\n\n- **Match**: `status >= 500`\n- **Action**: Keep all\n\n### 2. noise (priority: 5)\n\n- **Match**: `service == ping`\n- **Action**: Drop all\n\n### 3. slow (priority: 4)\n\n- **Match**: `duration > 1s`\n- **Action**: Keep all\n\n### 4. rest (priority: 0)\n\n- **Match**: `true`\n- **Action**: Sample at 12.6%\n\n## Summary\n\n**Always kept**: errors, slow\n**Sampled**: rest\n**Dropped**: noise\n"
    );
    assert_eq!(
        generate_waggle_report(&Policy::new("empty")),
        "# Waggle Report: empty\n\n## Overview\n\n- **Version**: 1\n- **Rules**: 0\n\n## Rules\n\nRules are evaluated in priority order (highest first).\n\n## Summary\n\n"
    );
    assert_eq!(format_action(&Action::Sample(0)), "Sample at 0.0%");
    assert_eq!(format_action(&Action::Sample(1_000_000)), "Sample at 100.0%");
}

#[test]
fn compile_simple_policy() {
    let mut policy = Policy::new("test");
    policy.add_rule(Rule::new("keep-errors", "http.status >= 500", Action::Keep, 100));
    policy.add_rule(Rule::new("sample-rest", "true", Action::Sample(rate(0.01)), 0));

    let compiler = Compiler::new();
    let config = compiler.to_refinery_config(&policy).unwrap();

    let rules = &config.rules_based_sampler.rules;
    assert_eq!(rules.len(), 2);
    assert_eq!(
        rules[0],
        RefineryRule::keep("keep-errors").with_condition(RefineryCondition {
            field: "http.status".to_string(),
            operator: ">=".to_string(),
            value: ConditionValue::Number(500),
        })
    );
    assert_eq!(rules[1], RefineryRule::sample("sample-rest", rate(0.01)));
    assert_eq!(rules[1].sample_rate, 100);
}

#[test]
fn compiler_is_deterministic() {
    let mut policy = Policy::new("test");
    policy.add_rule(Rule::new("a", "true", Action::Keep, 100));
    policy.add_rule(Rule::new("b", "true", Action::Sample(rate(0.5)), 50));

    let compiler = Compiler::new();
    let output1 = compiler.compile(&policy, &written).unwrap();
    let output2 = compiler.compile(&policy, &written).unwrap();

    assert_eq!(output1, output2, "Compiler must be deterministic");
}

#[test]
fn compiled_rules_are_the_same_each_time() {
    let mut policy = Policy::new("test");
    policy.add_rule(Rule::new("keep-errors", "status >= 500 && duration > 1s", Action::Keep, 100));
    policy.add_rule(Rule::new("either", "status >= 500 || error == true", Action::Drop, 50));
    policy.add_rule(Rule::new("fallback", "true", Action::Sample(rate(0.01)), 0));

    let compiler = Compiler::with_options(CompileOptions {
        format: OutputFormat::Json,
        include_comments: true,
    });
    let first = compiler.to_refinery_config(&policy).unwrap();
    let second = compiler.to_refinery_config(&policy).unwrap();

    assert_eq!(first, second);
    let rules = &first.rules_based_sampler.rules;
    assert_eq!(rules[0].conditions.len(), 2);
    assert_eq!(rules[0].conditions[1].field, "duration_ms");
    // An expression that cannot be lowered leaves its rule without conditions.
    assert_eq!(rules[1], RefineryRule::drop("either"));
    // One that cannot be parsed fails the compilation.
    policy.add_rule(Rule::new("broken", "no operator", Action::Keep, 70));
    policy.add_rule(Rule::new("also-broken", "neither", Action::Keep, 60));
    assert_eq!(
        compiler.to_refinery_config(&policy).unwrap_err(),
        Error::InvalidMatch {
            expr: "no operator".to_string(),
            reason: "no valid operator found".to_string()
        }
    );
    assert_eq!(Compiler::default(), Compiler::new());
    assert_eq!(OutputFormat::default(), OutputFormat::Yaml);
}

fn written(config: &nectar::refinery::RefineryConfig, format: OutputFormat) -> String {
    let rules: Vec<serde_json::Value> = config
        .rules_based_sampler
        .rules
        .iter()
        .map(|r| {
            let mut rule = serde_json::Map::new();
            rule.insert("name".to_string(), serde_json::Value::from(r.name.clone()));
            rule.insert("SampleRate".to_string(), serde_json::Value::from(r.sample_rate));
            serde_json::Value::Object(rule)
        })
        .collect();
    let mut sampler = serde_json::Map::new();
    sampler.insert("rules".to_string(), serde_json::Value::Array(rules));
    let mut root = serde_json::Map::new();
    root.insert("RulesBasedSampler".to_string(), serde_json::Value::Object(sampler));
    let root = serde_json::Value::Object(root);
    match format {
        OutputFormat::Json => serde_json::to_string_pretty(&root).unwrap(),
        OutputFormat::Yaml => serde_yaml::to_string(&root).unwrap(),
    }
}

#[test]
fn compile_to_json() {
    let mut policy = Policy::new("test");
    policy.add_rule(Rule::new("fallback", "true", Action::Sample(rate(0.1)), 0));

    let compiler = Compiler::with_options(CompileOptions {
        format: OutputFormat::Json,
        ..Default::default()
    });
    let output = compiler.compile(&policy, &written).unwrap();

    assert!(output.contains("\"name\": \"fallback\""));
    assert!(output.contains("\"SampleRate\": 10"));
    // The format of the options decides how the rules are written.
    let yaml = Compiler::new().compile(&policy, &written).unwrap();
    assert!(yaml.contains("name: fallback"));
    assert!(!yaml.contains('{'));
}

#[test]
fn serialize_refinery_config() {
    let mut config = nectar::refinery::RefineryConfig::new();
    config.add_rule(RefineryRule::keep("keep-errors"));

    let yaml = written(&config, OutputFormat::Yaml);
    assert!(yaml.contains("keep-errors"));
    assert!(yaml.contains("SampleRate: 1"));
}

#[test]
fn a_policy_that_does_not_compile_is_not_written() {
    let mut policy = Policy::new("test");
    policy.add_rule(Rule::new("unreadable", "status", Action::Keep, 1));
    let refused = Compiler::new().to_refinery_config(&policy).unwrap_err();
    let calls = std::cell::Cell::new(0);
    let counted = |config: &nectar::refinery::RefineryConfig, format: OutputFormat| {
        calls.set(calls.get() + 1);
        written(config, format)
    };
    assert_eq!(Compiler::new().compile(&policy, &counted).unwrap_err(), refused);
    assert_eq!(calls.get(), 0);
}
