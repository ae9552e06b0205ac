use nectar::corpus::Corpus;
use nectar::encoder::{escape_value, ToonEncode};
use nectar::span::Span;
use nectar::trace::Trace;
use std::time::Duration;

fn started(id: &str, start_ns: u64) -> Trace {
    Trace::from_spans(id, vec![Span::new(&format!("{id}-span"), "op").with_start_time_ns(start_ns)])
}

#[test]
fn corpus_add_and_iterate() {
    let mut corpus = Corpus::new();
    corpus.add(Trace::new("a"));
    corpus.add(Trace::new("b"));

    assert_eq!(corpus.len(), 2);
    let ids: Vec<_> = corpus.iter().map(|t| &t.trace_id).collect();
    assert_eq!(ids, vec!["a", "b"]);
}

#[test]
fn corpus_filter_errors() {
    let corpus: Corpus = Corpus::from_traces(vec![
        Trace::new("ok").with_status(200),
        Trace::new("err1").with_status(500),
        Trace::new("err2").with_status(503),
    ]);

    let errors = corpus.errors();
    assert_eq!(errors.len(), 2);
}

#[test]
fn corpus_encode_toon() {
    let corpus: Corpus = Corpus::from_traces(vec![Trace::new("abc")
        .with_duration(Duration::from_millis(150))
        .with_status(200)
        .with_service("api")
        .with_endpoint("/users")]);

    let toon = corpus.encode_toon().unwrap();
    assert!(toon.contains("corpus[1]"));
    assert!(toon.contains("abc,150,200,api,/users,false"));
}

#[test]
fn corpus_text_in_full() {
    let corpus = Corpus::from_traces(vec![
        Trace::new("a").with_duration(Duration::from_micros(1_999)).with_status(500),
        Trace::new("b").with_service("svc"),
    ]);
    assert_eq!(
        corpus.encode_toon().unwrap(),
        "corpus[2]{trace_id,duration_ms,status,service,endpoint,is_error}:\n  a,1,500,-,-,true\n  b,0,-,svc,-,false"
    );
    assert_eq!(
        Corpus::new().encode_toon().unwrap(),
        "corpus[0]{trace_id,duration_ms,status,service,endpoint,is_error}:\n"
    );
}

#[test]
fn errors_come_in_order() {
    let corpus = Corpus::from_traces(vec![
        Trace::new("e1").with_status(500),
        Trace::new("ok").with_status(200),
        Trace::new("e2").with_status(599),
    ]);
    let ids: Vec<&str> = corpus.errors().iter().map(|t| t.trace_id.as_str()).collect();
    assert_eq!(ids, vec!["e1", "e2"]);
    assert_eq!(corpus.error_count(), 2);
    assert!(Corpus::new().is_empty());
    assert!(!corpus.is_empty());
    assert_eq!(corpus.traces().len(), 3);
    assert_eq!(corpus.into_traces().len(), 3);
}

#[test]
fn sorting_by_time_is_stable() {
    let corpus = Corpus::from_traces(vec![
        started("late", 300),
        started("first-at-100", 100),
        Trace::new("no-spans-1"),
        started("second-at-100", 100),
        started("at-zero", 0),
        Trace::new("no-spans-2"),
    ]);
    let ids: Vec<&str> = corpus.sorted_by_time().iter().map(|t| t.trace_id.as_str()).collect();
    assert_eq!(
        ids,
        vec!["no-spans-1", "at-zero", "no-spans-2", "first-at-100", "second-at-100", "late"]
    );
}

#[test]
fn time_range_covers_traces_with_spans() {
    assert_eq!(Corpus::new().time_range_ns(), None);
    assert_eq!(Corpus::from_traces(vec![Trace::new("bare")]).time_range_ns(), None);
    let corpus = Corpus::from_traces(vec![
        started("b", 500),
        Trace::new("bare"),
        started("a", 20),
        started("c", 90),
    ]);
    assert_eq!(corpus.time_range_ns(), Some((20, 500)));
    assert_eq!(
        Corpus::from_traces(vec![started("only", u64::MAX)]).time_range_ns(),
        Some((u64::MAX, u64::MAX))
    );
}

#[test]
fn escape_simple_value() {
    assert_eq!(escape_value("hello"), "hello");
}

#[test]
fn escape_value_with_comma() {
    assert_eq!(escape_value("hello,world"), "\"hello,world\"");
}

#[test]
fn escape_value_with_quote() {
    assert_eq!(escape_value("say \"hi\""), "\"say \\\"hi\\\"\"");
}

#[test]
fn escape_value_edge_cases() {
    assert_eq!(escape_value(""), "");
    assert_eq!(escape_value("line\nbreak"), "\"line\nbreak\"");
    assert_eq!(escape_value("\""), "\"\\\"\"");
    assert_eq!(escape_value("back\\slash"), "back\\slash");
    assert_eq!(escape_value("\u{e9}t\u{e9}, oui"), "\"\u{e9}t\u{e9}, oui\"");
}
