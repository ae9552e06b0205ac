use nectar::grouping::{group_traced, TracedSpan};
use nectar::otlp::{
    convert_any_value, convert_span, extract_string_value, hex_encode, ingest_resources,
    service_name, OtlpKeyValue, OtlpResource, OtlpScope, OtlpSpan, OtlpStatus, OtlpValue,
};
use nectar::span::{AttributeValue, Span, SpanKind, StatusCode};
use std::time::Duration;

fn key_value(key: &str, value: OtlpValue) -> OtlpKeyValue {
    OtlpKeyValue { key: key.to_string(), value: Some(value) }
}

fn test_span() -> OtlpSpan {
    OtlpSpan {
        trace_id: vec![
            0x01, 0x02, 0x03, 0x04, 0x05, 0x06, 0x07, 0x08, 0x09, 0x0a, 0x0b, 0x0c, 0x0d, 0x0e,
            0x0f, 0x10,
        ],
        span_id: vec![0x11, 0x12, 0x13, 0x14, 0x15, 0x16, 0x17, 0x18],
        parent_span_id: vec![],
        name: "test-operation".to_string(),
        kind: 2, // Server
        start_time_unix_nano: 1_000_000_000,
        end_time_unix_nano: 1_100_000_000, // 100ms duration
        attributes: vec![key_value("http.status_code", OtlpValue::Int(200))],
        status: Some(OtlpStatus { code: 1, message: String::new() }),
    }
}

fn create_test_request() -> Vec<OtlpResource> {
    vec![OtlpResource {
        attributes: Some(vec![key_value("service.name", OtlpValue::Text("test-service".to_string()))]),
        scopes: vec![OtlpScope { spans: vec![test_span()] }],
    }]
}

#[test]
fn otlp_ingestor_ingest() {
    let data = create_test_request();
    let traces = ingest_resources(&data);

    assert_eq!(traces.len(), 1);

    let trace = &traces[0];
    assert_eq!(trace.trace_id, "0102030405060708090a0b0c0d0e0f10");
    assert_eq!(trace.span_count, 1);
    assert_eq!(trace.service, Some("test-service".to_string()));

    let span = &trace.spans()[0];
    assert_eq!(span.span_id, "1112131415161718");
    assert_eq!(span.name, "test-operation");
    assert_eq!(span.kind, SpanKind::Server);
    assert_eq!(span.duration, Duration::from_nanos(100_000_000)); // 100ms
    assert!(span.is_root());
    assert_eq!(span.status.code, StatusCode::Okay);
    assert_eq!(span.status.message, None);
    assert_eq!(span.start_time_ns, 1_000_000_000);
}

#[test]
fn otlp_ingestor_extracts_attributes() {
    let data = create_test_request();
    let traces = ingest_resources(&data);

    let span = &traces[0].spans()[0];
    assert_eq!(span.get_attribute("http.status_code"), Some(&AttributeValue::Int(200)));
}

#[test]
fn convert_any_value_string() {
    let value = Some(OtlpValue::Text("test".to_string()));
    assert_eq!(convert_any_value(&value), Some(AttributeValue::String("test".to_string())));
}

#[test]
fn convert_any_value_int() {
    let value = Some(OtlpValue::Int(42));
    assert_eq!(convert_any_value(&value), Some(AttributeValue::Int(42)));
}

#[test]
fn convert_any_value_bool() {
    let value = Some(OtlpValue::Bool(true));
    assert_eq!(convert_any_value(&value), Some(AttributeValue::Bool(true)));
}

#[test]
fn values_of_every_kind() {
    assert_eq!(convert_any_value(&None), None);
    assert_eq!(
        convert_any_value(&Some(OtlpValue::Double("2.5".to_string()))),
        Some(AttributeValue::Float("2.5".to_string()))
    );
    assert_eq!(
        convert_any_value(&Some(OtlpValue::Bytes(vec![0x00, 0xab, 0xff]))),
        Some(AttributeValue::String("00abff".to_string()))
    );
    assert_eq!(
        convert_any_value(&Some(OtlpValue::Array(vec![None, Some("a".to_string()), Some("b".to_string())]))),
        Some(AttributeValue::StringArray(vec!["a".to_string(), "b".to_string()]))
    );
    assert_eq!(convert_any_value(&Some(OtlpValue::Array(vec![None]))), None);
    assert_eq!(convert_any_value(&Some(OtlpValue::Array(vec![]))), None);
    assert_eq!(convert_any_value(&Some(OtlpValue::KeyValues)), None);
    assert_eq!(extract_string_value(&Some(OtlpValue::Text("s".to_string()))), Some("s".to_string()));
    assert_eq!(extract_string_value(&Some(OtlpValue::Int(1))), None);
    assert_eq!(extract_string_value(&None), None);
    assert_eq!(hex_encode(&vec![]), "");
    assert_eq!(hex_encode(&vec![0x0f, 0xf0, 0x9a]), "0ff09a");
}

#[test]
fn the_service_of_a_resource() {
    let named = |attributes| OtlpResource { attributes, scopes: vec![] };
    assert_eq!(service_name(&named(None)), "");
    assert_eq!(service_name(&named(Some(vec![]))), "");
    let attributes = vec![
        key_value("other", OtlpValue::Text("x".to_string())),
        key_value("service.name", OtlpValue::Int(3)),
        OtlpKeyValue { key: "service.name".to_string(), value: None },
        key_value("service.name", OtlpValue::Text("first".to_string())),
        key_value("service.name", OtlpValue::Text("second".to_string())),
    ];
    assert_eq!(service_name(&named(Some(attributes))), "first");
}

#[test]
fn a_span_with_everything() {
    let span = OtlpSpan {
        parent_span_id: vec![0xaa],
        kind: 9,
        start_time_unix_nano: 50,
        end_time_unix_nano: 20,
        attributes: vec![
            key_value("a", OtlpValue::Int(1)),
            OtlpKeyValue { key: "gone".to_string(), value: None },
            key_value("b", OtlpValue::Bool(false)),
            key_value("a", OtlpValue::Int(2)),
            key_value("kv", OtlpValue::KeyValues),
        ],
        status: Some(OtlpStatus { code: 2, message: "boom".to_string() }),
        ..test_span()
    };
    let traced = convert_span(&span, "svc");
    assert_eq!(traced.trace_id, "0102030405060708090a0b0c0d0e0f10");
    assert_eq!(traced.span.parent_span_id, Some("aa".to_string()));
    assert_eq!(traced.span.service, "svc");
    assert_eq!(traced.span.kind, SpanKind::Unspecified);
    // A span that ends before it starts lasted no time.
    assert_eq!(traced.span.duration, Duration::ZERO);
    assert_eq!(traced.span.start_time_ns, 50);
    assert_eq!(traced.span.status.code, StatusCode::Error);
    assert_eq!(traced.span.status.message, Some("boom".to_string()));
    let attributes: Vec<(&str, &AttributeValue)> =
        traced.span.attributes.iter().map(|a| (a.key.as_str(), &a.value)).collect();
    assert_eq!(
        attributes,
        vec![("a", &AttributeValue::Int(2)), ("b", &AttributeValue::Bool(false))]
    );
    let bare = convert_span(&OtlpSpan { status: None, ..test_span() }, "");
    assert_eq!(bare.span.status.code, StatusCode::Unset);
    assert_eq!(bare.span.status.message, None);
}

#[test]
fn spans_of_all_resources_and_scopes() {
    let span = |trace: u8, id: u8| OtlpSpan { trace_id: vec![trace], span_id: vec![id], ..test_span() };
    let resources = vec![
        OtlpResource {
            attributes: Some(vec![key_value("service.name", OtlpValue::Text("one".to_string()))]),
            scopes: vec![
                OtlpScope { spans: vec![span(2, 1), span(1, 2)] },
                OtlpScope { spans: vec![] },
                OtlpScope { spans: vec![span(2, 3)] },
            ],
        },
        OtlpResource { attributes: None, scopes: vec![] },
        OtlpResource { attributes: None, scopes: vec![OtlpScope { spans: vec![span(1, 4), span(3, 5)] }] },
    ];
    let traces = ingest_resources(&resources);
    let ids: Vec<&str> = traces.iter().map(|t| t.trace_id.as_str()).collect();
    assert_eq!(ids, vec!["02", "01", "03"]);
    let spans = |k: usize| -> Vec<(String, String)> {
        traces[k].spans.iter().map(|s| (s.span_id.clone(), s.service.clone())).collect()
    };
    let pair = |id: &str, service: &str| (id.to_string(), service.to_string());
    assert_eq!(spans(0), vec![pair("01", "one"), pair("03", "one")]);
    assert_eq!(spans(1), vec![pair("02", "one"), pair("04", "")]);
    assert_eq!(spans(2), vec![pair("05", "")]);
    assert_eq!(traces[1].span_count, 2);
    assert!(ingest_resources(&vec![]).is_empty());
}

#[test]
fn spans_are_grouped_in_the_order_of_their_traces() {
    let traced = |trace: &str, span: &str| TracedSpan {
        trace_id: trace.to_string(),
        span: Span::new(span, "op"),
    };
    let traces = group_traced(vec![
        traced("b", "1"),
        traced("a", "2"),
        traced("b", "3"),
        traced("c", "4"),
        traced("a", "5"),
        traced("b", "6"),
    ]);
    let summary: Vec<(String, Vec<String>)> = traces
        .iter()
        .map(|t| (t.trace_id.clone(), t.spans.iter().map(|s| s.span_id.clone()).collect()))
        .collect();
    let expected = vec![
        ("b".to_string(), vec!["1".to_string(), "3".to_string(), "6".to_string()]),
        ("a".to_string(), vec!["2".to_string(), "5".to_string()]),
        ("c".to_string(), vec!["4".to_string()]),
    ];
    assert_eq!(summary, expected);
    assert!(group_traced(vec![]).is_empty());
}

#[test]
fn an_export_on_the_wire() {
    use_wire();
}

fn use_wire() {
    let request = opentelemetry_proto::tonic::collector::trace::v1::ExportTraceServiceRequest {
        resource_spans: vec![opentelemetry_proto::tonic::trace::v1::ResourceSpans {
            resource: None,
            scope_spans: vec![opentelemetry_proto::tonic::trace::v1::ScopeSpans {
                scope: None,
                spans: vec![opentelemetry_proto::tonic::trace::v1::Span {
                    trace_id: vec![0xab, 0xcd],
                    span_id: vec![0x01],
                    name: "wired".to_string(),
                    kind: 3,
                    start_time_unix_nano: 10,
                    end_time_unix_nano: 35,
                    ..Default::default()
                }],
                schema_url: String::new(),
            }],
            schema_url: String::new(),
        }],
    };
    let bytes = prost::Message::encode_to_vec(&request);
    let decoded: opentelemetry_proto::tonic::collector::trace::v1::ExportTraceServiceRequest =
        prost::Message::decode(bytes.as_slice()).unwrap();
    let resources: Vec<OtlpResource> = decoded
        .resource_spans
        .into_iter()
        .map(|r| OtlpResource {
            attributes: r.resource.map(|_| vec![]),
            scopes: r
                .scope_spans
                .into_iter()
                .map(|s| OtlpScope {
                    spans: s
                        .spans
                        .into_iter()
                        .map(|span| OtlpSpan {
                            trace_id: span.trace_id,
                            span_id: span.span_id,
                            parent_span_id: span.parent_span_id,
                            name: span.name,
                            kind: span.kind,
                            start_time_unix_nano: span.start_time_unix_nano,
                            end_time_unix_nano: span.end_time_unix_nano,
                            attributes: vec![],
                            status: span.status.map(|s| OtlpStatus { code: s.code, message: s.message }),
                        })
                        .collect(),
                })
                .collect(),
        })
        .collect();
    let traces = ingest_resources(&resources);
    assert_eq!(traces.len(), 1);
    assert_eq!(traces[0].trace_id, "abcd");
    assert_eq!(traces[0].spans[0].span_id, "01");
    assert_eq!(traces[0].spans[0].kind, SpanKind::Client);
    assert_eq!(traces[0].spans[0].duration, Duration::from_nanos(25));
}
