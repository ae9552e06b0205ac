use nectar::client::{check_status, Client, ClientConfig, ClientError, MAX_TOKENS};
use nectar::reservoir::SamplingStrategy;
use nectar::response::{ContentBlock, MessageResponse, Usage};
use nectar::trace::Trace;
use nectar::watch::{
    BudgetViolationReport, DriftReport, RefinementSuggestion, WatchAction, WatchConfig,
    WatchEvent, WatchState,
};
use std::time::Duration;

fn answer(text: &str) -> MessageResponse {
    MessageResponse {
        id: "msg_123".to_string(),
        model: "model-1".to_string(),
        stop_reason: Some("end_turn".to_string()),
        content: vec![ContentBlock::Text { text: text.to_string() }],
        usage: Usage { input_tokens: 100, output_tokens: 50 },
    }
}

#[test]
fn client_rejects_empty_api_key() {
    let config = ClientConfig::default();
    assert!(Client::new(config).is_err());
    assert_eq!(Client::new(ClientConfig::default()).unwrap_err(), ClientError::InvalidApiKey);
}

#[test]
fn client_accepts_valid_config() {
    let config = ClientConfig { api_key: "test-key".to_string(), ..Default::default() };
    assert!(Client::new(config).is_ok());
    let config = ClientConfig {
        api_key: "k".to_string(),
        model: "model-1".to_string(),
        timeout_seconds: 5,
    };
    let client = Client::new(config).unwrap();
    assert_eq!(client.api_key, "k");
    assert_eq!(client.model, "model-1");
    assert_eq!(client.timeout_seconds, 5);
    assert_eq!(ClientConfig::default().timeout_seconds, 120);
    assert_eq!(ClientConfig::default().model, "");
}

#[test]
fn parse_policy_from_response() {
    let response = answer(
        r"Here's the policy:

```toon
nectar_policy{version,name,budget_per_second,rules}:
  1
  test-policy
  5000
  rules[2]{name,description,match,action,priority}:
    keep-errors,Keep all errors,http.status >= 500,keep,100
    sample-rest,Sample remaining traffic,true,sample(0.01),0
```
",
    );

    let policy = Client::parse_policy_response(&response).unwrap();
    assert_eq!(policy.name, "test-policy");
    assert_eq!(policy.rules.len(), 2);
    assert!(policy.has_fallback());
}

#[test]
fn rejects_policy_without_fallback() {
    let response = answer(
        r"```toon
nectar_policy{version,name,budget_per_second,rules}:
  1
  test-policy
  5000
  rules[1]{name,description,match,action,priority}:
    keep-errors,Keep all errors,http.status >= 500,keep,100
```",
    );

    let result = Client::parse_policy_response(&response);
    assert!(result.is_err());
    assert_eq!(
        result.unwrap_err(),
        ClientError::ToonValidationError(
            "Generated policy lacks a fallback rule (match: true)".to_string()
        )
    );
}

#[test]
fn answers_without_a_policy_are_refused() {
    assert_eq!(
        Client::parse_policy_response(&answer("no block here")).unwrap_err(),
        ClientError::ParseError("No TOON code block found in response".to_string())
    );
    let unreadable = Client::parse_policy_response(&answer("```toon\nnot a policy\n```")).unwrap_err();
    let reason = nectar::toon::parse("not a policy").unwrap_err().message();
    assert_eq!(
        unreadable,
        ClientError::ToonValidationError(format!("Invalid TOON in the response: {reason}"))
    );
    assert_eq!(
        unreadable.message(),
        format!("TOON validation failed: Invalid TOON in the response: {reason}")
    );
}

#[test]
fn the_status_of_an_answer() {
    assert_eq!(check_status(200, "200 OK", None, ""), Ok(()));
    assert_eq!(check_status(299, "299", Some("5"), "x"), Ok(()));
    assert_eq!(
        check_status(429, "429 Too Many Requests", Some("7"), ""),
        Err(ClientError::RateLimited { retry_after_seconds: 7 })
    );
    assert_eq!(
        check_status(429, "", Some("+12"), ""),
        Err(ClientError::RateLimited { retry_after_seconds: 12 })
    );
    for unreadable in [Some("soon"), Some(""), Some("-3"), Some("1.5"), Some("99999999999999999999"), None] {
        assert_eq!(
            check_status(429, "", unreadable, ""),
            Err(ClientError::RateLimited { retry_after_seconds: 60 })
        );
    }
    assert_eq!(check_status(401, "401 Unauthorized", None, "denied"), Err(ClientError::InvalidApiKey));
    let failed = check_status(500, "500 Internal Server Error", None, "boom").unwrap_err();
    assert_eq!(
        failed,
        ClientError::ApiError(
            "API request failed with status 500 Internal Server Error: boom".to_string()
        )
    );
    assert_eq!(
        failed.message(),
        "API request failed: API request failed with status 500 Internal Server Error: boom"
    );
    assert!(check_status(199, "199", None, "").is_err());
    assert!(check_status(300, "300", None, "").is_err());
    assert_eq!(
        ClientError::RateLimited { retry_after_seconds: 60 }.message(),
        "rate limited, retry after 60s"
    );
    assert_eq!(ClientError::InvalidApiKey.message(), "invalid API key");
    assert_eq!(ClientError::ParseError("x".to_string()).message(), "failed to parse response: x");
}

#[test]
fn the_request_holds_the_prompt() {
    let client = Client::new(ClientConfig {
        api_key: "k".to_string(),
        model: "model-1".to_string(),
        timeout_seconds: 1,
    })
    .unwrap();
    let request = client.request_for("Keep the errors");
    assert_eq!(request.model, "model-1");
    assert_eq!(request.max_tokens, MAX_TOKENS);
    assert_eq!(request.max_tokens, 4096);
    assert_eq!(request.messages.len(), 1);
    assert_eq!(request.messages[0].role, "user");
    assert_eq!(request.messages[0].content, "Keep the errors");
    let system = request.system.unwrap();
    assert!(system.starts_with("You are a sampling policy expert for Honeycomb Refinery.\nYour task"));
    assert!(system.contains("\n\nIMPORTANT:\n- Always output valid TOON format\n"));
    assert!(system.ends_with("- Order rules by priority (highest first)"));
}

#[test]
fn a_watch_starts_empty() {
    let config = WatchConfig::default();
    assert_eq!(config.policy_path, "policy.toon");
    assert_eq!(config.check_interval_secs, 60);
    assert_eq!(config.max_corpus_size, 10_000);
    assert_eq!(config.sampling_strategy, SamplingStrategy::Stratified);
    assert!(config.preserve_errors);
    assert!(!config.dry_run);
    assert_eq!(config.slow_threshold_ms, Some(5000));
    assert!(config.otlp_port.is_none() && config.webhook_url.is_none());

    let state = WatchState::new(&config, 1_700_000_000_000);
    assert_eq!(state.started_at_ms, 1_700_000_000_000);
    assert_eq!((state.drift_events, state.budget_violations), (0, 0));
    assert!(state.reservoir.is_empty());
    assert_eq!(state.reservoir.capacity(), 10_000);
    assert_eq!(state.reservoir.config.strategy, SamplingStrategy::Stratified);
    assert_eq!(state.reservoir.config.slow_threshold, Some(Duration::from_secs(5)));
    let plain = WatchState::new(&WatchConfig { slow_threshold_ms: None, ..config }, 0);
    assert_eq!(plain.reservoir.config.slow_threshold, None);
}

#[test]
fn events_change_the_state_of_a_watch() {
    let config = WatchConfig {
        max_corpus_size: 2,
        sampling_strategy: SamplingStrategy::Uniform,
        preserve_errors: false,
        ..WatchConfig::default()
    };
    let mut state = WatchState::new(&config, 0);
    let mut evictions = 0;
    for i in 0..40 {
        let event = WatchEvent::TraceReceived(Trace::new(&format!("t{i}")));
        match state.handle_event(event) {
            WatchAction::Sampled(Some(eviction)) => {
                evictions += 1;
                assert_eq!(eviction.replacement_trace_id, format!("t{i}"));
            }
            WatchAction::Sampled(None) => {}
            other => panic!("unexpected action {other:?}"),
        }
    }
    assert!(evictions > 0);
    assert_eq!(state.reservoir.len(), 2);
    assert_eq!(state.reservoir.stats().total_seen, 40);
    assert_eq!(state.reservoir.stats().eviction_count, evictions);

    let drift = DriftReport {
        description: "d".to_string(),
        severity: "high".to_string(),
        affected_rules: vec!["r".to_string()],
        detected_at_ms: 1,
    };
    assert!(matches!(state.handle_event(WatchEvent::DriftDetected(drift)), WatchAction::Alert));
    let over = BudgetViolationReport {
        current_throughput: 1_500_000_000,
        budget_limit: 1_000_000_000,
        over_budget_percent: 50_000_000,
        detected_at_ms: 2,
    };
    assert!(matches!(state.handle_event(WatchEvent::BudgetViolation(over)), WatchAction::Alert));
    assert!(matches!(state.handle_event(WatchEvent::BudgetViolation(over)), WatchAction::Alert));
    let suggestion = RefinementSuggestion {
        description: "s".to_string(),
        suggested_change: "c".to_string(),
        reason: "r".to_string(),
        confidence: 900_000,
    };
    assert!(matches!(
        state.handle_event(WatchEvent::RefinementSuggested(suggestion)),
        WatchAction::Suggested
    ));
    assert!(matches!(state.handle_event(WatchEvent::Error("e".to_string())), WatchAction::Continue));
    assert!(matches!(state.handle_event(WatchEvent::Shutdown), WatchAction::Stop));
    assert_eq!((state.drift_events, state.budget_violations), (1, 2));
    assert_eq!(state.reservoir.stats().total_seen, 40);
}
