use nectar::span::{AttributeValue, Span, SpanKind, SpanStatus, StatusCode};
use nectar::trace::Trace;
use std::time::Duration;

#[test]
fn span_builder() {
    let span = Span::new("span-001", "GET /users")
        .with_service("api")
        .with_duration(Duration::from_millis(50))
        .with_kind(SpanKind::Server)
        .with_attribute("http.status_code", AttributeValue::Int(200));

    assert_eq!(span.span_id, "span-001");
    assert_eq!(span.name, "GET /users");
    assert_eq!(span.service, "api");
    assert_eq!(span.kind, SpanKind::Server);
    assert_eq!(span.http_status_code(), Some(200));
    assert!(span.is_root());
}

#[test]
fn span_with_parent() {
    let span = Span::new("span-002", "db.query").with_parent("span-001");

    assert!(!span.is_root());
    assert_eq!(span.parent_span_id, Some("span-001".to_string()));
}

#[test]
fn span_error_detection() {
    let ok = Span::new("ok", "op").with_status(SpanStatus::ok());
    let err = Span::new("err", "op").with_status(SpanStatus::error("failed"));

    assert!(!ok.is_error());
    assert!(err.is_error());
}

#[test]
fn span_kind_from_otlp() {
    assert_eq!(SpanKind::from_otlp(0), SpanKind::Unspecified);
    assert_eq!(SpanKind::from_otlp(1), SpanKind::Internal);
    assert_eq!(SpanKind::from_otlp(2), SpanKind::Server);
    assert_eq!(SpanKind::from_otlp(3), SpanKind::Client);
    assert_eq!(SpanKind::from_otlp(4), SpanKind::Producer);
    assert_eq!(SpanKind::from_otlp(5), SpanKind::Consumer);
}

#[test]
fn status_code_from_otlp() {
    assert_eq!(StatusCode::from_otlp(0), StatusCode::Unset);
    assert_eq!(StatusCode::from_otlp(1), StatusCode::Okay);
    assert_eq!(StatusCode::from_otlp(2), StatusCode::Error);
}

#[test]
fn attribute_value_conversions() {
    let s = AttributeValue::String("hello".to_string());
    assert_eq!(s.as_string(), "hello");

    let i = AttributeValue::Int(42);
    assert_eq!(i.as_i64(), Some(42));
    assert_eq!(i.as_string(), "42");

    let f = AttributeValue::Float(3.14f64.to_string());
    assert!(f.as_string().starts_with("3.14"));

    let b = AttributeValue::Bool(true);
    assert_eq!(b.as_string(), "true");
}

#[test]
fn attribute_values_as_text() {
    assert_eq!(AttributeValue::Int(0).as_string(), "0");
    assert_eq!(AttributeValue::Int(-17).as_string(), "-17");
    assert_eq!(AttributeValue::Int(i64::MIN).as_string(), i64::MIN.to_string());
    assert_eq!(AttributeValue::Int(i64::MAX).as_string(), i64::MAX.to_string());
    assert_eq!(AttributeValue::Bool(false).as_string(), "false");
    assert_eq!(AttributeValue::StringArray(Vec::new()).as_string(), "");
    assert_eq!(
        AttributeValue::StringArray(vec!["a".to_string(), "b".to_string(), "c".to_string()])
            .as_string(),
        "a,b,c"
    );
    assert_eq!(AttributeValue::String("x".to_string()).as_str(), Some("x"));
    assert_eq!(AttributeValue::Int(1).as_str(), None);
    assert_eq!(AttributeValue::Bool(true).as_i64(), None);
}

#[test]
fn span_attributes_replace_by_key() {
    let span = Span::new("s", "op")
        .with_attribute("a", AttributeValue::Int(1))
        .with_attribute("b", AttributeValue::Int(2))
        .with_attribute("a", AttributeValue::Int(3));
    assert_eq!(span.attributes.len(), 2);
    assert_eq!(span.get_attribute("a"), Some(&AttributeValue::Int(3)));
    assert_eq!(span.get_attribute("b"), Some(&AttributeValue::Int(2)));
    assert_eq!(span.get_attribute("c"), None);
}

#[test]
fn http_status_code_must_fit_sixteen_bits() {
    let status = |v: AttributeValue| Span::new("s", "op").with_attribute("http.status_code", v).http_status_code();
    assert_eq!(status(AttributeValue::Int(0)), Some(0));
    assert_eq!(status(AttributeValue::Int(65_535)), Some(65_535));
    assert_eq!(status(AttributeValue::Int(65_536)), None);
    assert_eq!(status(AttributeValue::Int(-1)), None);
    assert_eq!(status(AttributeValue::String("500".to_string())), None);
    assert_eq!(Span::new("s", "op").http_status_code(), None);
    let routed = Span::new("s", "op").with_attribute("http.route", AttributeValue::String("/x".to_string()));
    assert_eq!(routed.http_route(), Some("/x"));
    assert_eq!(Span::new("s", "op").http_route(), None);
}

#[test]
fn span_status_defaults() {
    assert_eq!(SpanStatus::default(), SpanStatus { code: StatusCode::Unset, message: None });
    assert_eq!(SpanStatus::new(StatusCode::Error).message, None);
    assert!(SpanStatus::new(StatusCode::Error).is_error());
    assert!(StatusCode::Error.is_error());
    assert!(!StatusCode::Okay.is_error());
    assert!(!StatusCode::Unset.is_error());
    assert_eq!(SpanKind::default(), SpanKind::Unspecified);
    assert_eq!(SpanKind::from_otlp(-1), SpanKind::Unspecified);
    assert_eq!(SpanKind::from_otlp(6), SpanKind::Unspecified);
    assert_eq!(StatusCode::from_otlp(3), StatusCode::Unset);
}

#[test]
fn trace_builder() {
    let trace = Trace::new("abc123")
        .with_duration(Duration::from_millis(150))
        .with_status(200)
        .with_service("api")
        .with_endpoint("/users");

    assert_eq!(trace.trace_id, "abc123");
    assert_eq!(trace.duration, Duration::from_millis(150));
    assert_eq!(trace.status, Some(200));
    assert!(!trace.is_error);
}

#[test]
fn trace_error_detection() {
    let ok = Trace::new("ok").with_status(200);
    let error = Trace::new("err").with_status(500);

    assert!(!ok.is_error);
    assert!(error.is_error);
}

#[test]
fn trace_from_spans() {
    let start_ns = 1_000_000_000u64; // 1 second
    let spans = vec![
        Span::new("span-1", "GET /api/users")
            .with_service("api-gateway")
            .with_start_time_ns(start_ns)
            .with_duration(Duration::from_millis(100))
            .with_kind(SpanKind::Server)
            .with_attribute("http.status_code", AttributeValue::Int(200))
            .with_attribute("http.route", AttributeValue::String("/api/users".to_string())),
        Span::new("span-2", "db.query")
            .with_parent("span-1")
            .with_service("api-gateway")
            .with_start_time_ns(start_ns + 10_000_000) // 10ms later
            .with_duration(Duration::from_millis(50)),
    ];

    let trace = Trace::from_spans("trace-001", spans);

    assert_eq!(trace.trace_id, "trace-001");
    assert_eq!(trace.span_count, 2);
    assert_eq!(trace.service, Some("api-gateway".to_string()));
    assert_eq!(trace.endpoint, Some("/api/users".to_string()));
    assert_eq!(trace.status, Some(200));
    assert!(!trace.is_error);
    // Duration should be from earliest start to latest end
    assert!(trace.duration >= Duration::from_millis(100));
}

#[test]
fn trace_error_from_span_status() {
    let spans = vec![
        Span::new("span-1", "request")
            .with_service("api")
            .with_start_time_ns(0)
            .with_duration(Duration::from_millis(50)),
        Span::new("span-2", "error-op")
            .with_parent("span-1")
            .with_service("api")
            .with_start_time_ns(10_000_000)
            .with_duration(Duration::from_millis(20))
            .with_status(SpanStatus::error("failed")),
    ];

    let trace = Trace::from_spans("trace-error", spans);
    assert!(trace.is_error);
}

#[test]
fn trace_add_span() {
    let mut trace = Trace::new("trace-001");
    assert_eq!(trace.span_count, 0);

    trace.add_span(
        Span::new("span-1", "op1")
            .with_service("svc")
            .with_start_time_ns(0)
            .with_duration(Duration::from_millis(10)),
    );

    assert_eq!(trace.span_count, 1);
    assert_eq!(trace.spans().len(), 1);
}

#[test]
fn compute_summary_updates_fields() {
    let mut trace = Trace::new("trace-001");
    trace.spans = vec![Span::new("root", "GET /health")
        .with_service("api")
        .with_start_time_ns(0)
        .with_duration(Duration::from_millis(25))
        .with_attribute("http.status_code", AttributeValue::Int(500))];

    trace.compute_summary_from_spans();

    assert_eq!(trace.span_count, 1);
    assert_eq!(trace.service, Some("api".to_string()));
    assert_eq!(trace.endpoint, Some("GET /health".to_string()));
    assert_eq!(trace.status, Some(500));
    assert!(trace.is_error); // 500 status code
}

#[test]
fn summary_spans_from_earliest_start_to_latest_end() {
    let spans = vec![
        Span::new("child", "late")
            .with_parent("root")
            .with_start_time_ns(2_000)
            .with_duration(Duration::from_nanos(5_000)),
        Span::new("root", "early")
            .with_start_time_ns(1_000)
            .with_duration(Duration::from_nanos(500)),
    ];
    let trace = Trace::from_spans("t", spans);
    assert_eq!(trace.duration, Duration::from_nanos(6_000));
    assert_eq!(trace.start_time_ns(), Some(1_000));
    // The root is the first span without parent, not the first span.
    assert_eq!(trace.endpoint, Some("early".to_string()));
    // An empty service name is not taken over.
    assert_eq!(trace.service, None);
    assert_eq!(trace.status, None);
    assert!(!trace.is_error);
}

#[test]
fn summary_keeps_what_is_set_and_resets_the_error_flag() {
    let mut trace = Trace::new("t").with_service("mine").with_endpoint("/mine").with_status(503);
    assert!(trace.is_error);
    trace.is_error = false;
    trace.spans = vec![Span::new("s", "op").with_service("theirs").with_attribute(
        "http.status_code",
        AttributeValue::Int(200),
    )];
    let before = trace.duration;
    trace.compute_summary_from_spans();
    assert_eq!(trace.service, Some("mine".to_string()));
    assert_eq!(trace.endpoint, Some("/mine".to_string()));
    assert_eq!(trace.status, Some(503));
    // The status that was set, not that of the span, marks the error.
    assert!(trace.is_error);
    // A span of no length leaves the duration as it was.
    assert_eq!(trace.duration, before);

    let mut healthy = Trace::new("h");
    healthy.is_error = true;
    healthy.spans = vec![Span::new("s", "op")];
    healthy.compute_summary_from_spans();
    assert!(!healthy.is_error);

    let mut untouched = Trace::new("u").with_status(200);
    untouched.is_error = true;
    let copy = untouched.clone();
    untouched.compute_summary_from_spans();
    assert_eq!(untouched, copy);
}

#[test]
fn trace_attributes_replace_by_key() {
    let trace = Trace::new("t")
        .with_attribute("a", "1")
        .with_attribute("b", "2")
        .with_attribute("a", "3");
    assert_eq!(trace.attributes.len(), 2);
    assert_eq!(trace.attribute("a"), Some("3"));
    assert_eq!(trace.attribute("b"), Some("2"));
    assert_eq!(trace.attribute("c"), None);
    assert_eq!(Trace::new("t").start_time_ns(), None);
}
