use nectar::fixtures::{
    failure_corpus, latency_corpus, production_corpus, FixtureConfig, FixtureGenerator,
    FixtureScenario,
};
use nectar::rng::Stream;
use nectar::trace::Trace;
use std::collections::HashSet;

fn attribute<'a>(trace: &'a Trace, key: &str) -> Option<&'a str> {
    trace.attributes.iter().find(|a| a.key == key).map(|a| a.value.as_str())
}

#[test]
fn fixture_generation_is_deterministic() {
    let corpus1 = production_corpus(42, 100);
    let corpus2 = production_corpus(42, 100);

    assert_eq!(corpus1.len(), corpus2.len());

    let traces1: Vec<_> = corpus1.iter().collect();
    let traces2: Vec<_> = corpus2.iter().collect();

    for (t1, t2) in traces1.iter().zip(traces2.iter()) {
        assert_eq!(t1.trace_id, t2.trace_id);
        assert_eq!(t1.service, t2.service);
        assert_eq!(t1.status, t2.status);
        assert_eq!(t1.duration, t2.duration);
    }
    assert_eq!(corpus1.traces, corpus2.traces);
    assert_ne!(production_corpus(43, 100).traces, corpus1.traces);
}

#[test]
fn microservices_topology_has_variety() {
    let config = FixtureConfig::default().with_count(1000);
    let mut gen = FixtureGenerator::new(config);
    let corpus = gen.microservices_topology();

    // Should have multiple services
    let services: HashSet<_> = corpus.iter().filter_map(|t| t.service.as_ref()).collect();
    assert!(services.len() >= 5, "Should have at least 5 different services");

    // Should have some errors (3% rate)
    let errors = corpus.errors();
    assert!(!errors.is_empty(), "Should have some errors");
    assert!((10..=60).contains(&errors.len()), "errors: {}", errors.len());
}

#[test]
fn failure_patterns_shows_progression() {
    let config = FixtureConfig::default().with_count(100);
    let mut gen = FixtureGenerator::new(config);
    let corpus = gen.failure_patterns();

    // Should have phase progression
    let phases: Vec<_> = corpus.iter().filter_map(|t| attribute(t, "incident.phase")).collect();
    assert!(!phases.is_empty());

    // Early traces should be pre-incident or degradation
    assert!(phases.first().is_some_and(|p| p.contains("pre") || p.contains("deg")));
}

#[test]
fn latency_distributions_has_outliers() {
    let config = FixtureConfig::default().with_count(1000);
    let mut gen = FixtureGenerator::new(config);
    let corpus = gen.latency_distributions();

    let durations: Vec<_> = corpus.iter().map(|t| t.duration.as_millis()).collect();

    // Should have fast traces (< 10ms)
    let fast = durations.iter().filter(|&&d| d < 10).count();
    assert!(fast > 0, "Should have fast traces");

    // Should have slow traces (> 1000ms)
    let slow = durations.iter().filter(|&&d| d > 1000).count();
    assert!(slow > 0, "Should have slow outliers");
}

#[test]
fn observability_patterns_has_all_patterns() {
    let config = FixtureConfig::default().with_count(100);
    let mut gen = FixtureGenerator::new(config);
    let corpus = gen.observability_patterns();

    let patterns: HashSet<_> = corpus.iter().filter_map(|t| attribute(t, "pattern")).collect();

    assert!(patterns.contains("wide_event"));
    assert!(patterns.contains("deep_trace"));
    assert!(patterns.contains("high_cardinality"));
    assert!(patterns.contains("sampling_decision"));
    assert!(patterns.contains("multi_tenant"));
    assert!(patterns.contains("correlation"));
}

#[test]
fn production_mix_combines_all_scenarios() {
    let corpus = production_corpus(42, 400);

    let scenarios: HashSet<_> = corpus.iter().filter_map(|t| attribute(t, "scenario")).collect();

    assert!(scenarios.contains("microservices_topology"));
    assert!(scenarios.contains("failure_patterns"));
    assert!(scenarios.contains("latency_distributions"));
    assert!(scenarios.contains("observability_patterns"));
    assert_eq!(corpus.len(), 400);
    let prefixes: Vec<&str> = corpus.iter().step_by(100).map(|t| &t.trace_id[..3]).collect();
    assert_eq!(prefixes, vec!["top", "fai", "lat", "obs"]);
    // Sizes that four does not divide lose the rest.
    assert_eq!(production_corpus(1, 403).len(), 400);
    assert!(production_corpus(1, 3).is_empty());
}

#[test]
fn the_mix_starts_the_stream_anew() {
    let mut generator = FixtureGenerator::new(FixtureConfig::default().with_seed(5).with_count(40));
    let first = generator.production_mix();
    assert!(generator.stream.position > 0);
    assert_eq!(generator.config.trace_count, 40);
    let again = generator.production_mix();
    assert_eq!(first.traces, again.traces);
    // The parts of the mix follow each other in one stream.
    let mut parts = FixtureGenerator::new(FixtureConfig::default().with_seed(5).with_count(10));
    let mut expected = parts.microservices_topology().into_traces();
    expected.extend(parts.failure_patterns().into_traces());
    expected.extend(parts.latency_distributions().into_traces());
    expected.extend(parts.observability_patterns().into_traces());
    assert_eq!(first.traces, expected);
    assert_eq!(FixtureConfig::default(), FixtureConfig { seed: 42, trace_count: 100 });
}

#[test]
fn traces_of_the_topology() {
    let mut generator = FixtureGenerator::new(FixtureConfig::default().with_count(2000));
    let corpus = generator.microservices_topology();
    let gateway = ["/api/v2/users/:id", "/api/v2/orders", "/api/v2/products", "/api/v2/checkout", "/health"];
    let mut slow = 0;
    for (i, trace) in corpus.iter().enumerate() {
        assert_eq!(trace.trace_id, format!("topo-{i:08x}"));
        let service = trace.service.as_deref().unwrap();
        let endpoint = trace.endpoint.as_deref().unwrap();
        let (base, spans): (u128, std::ops::Range<u32>) = match service {
            "api-gateway" => (50, 5..25),
            "cache-service" => (5, 2..8),
            "payment-service" => (400, 8..15),
            "user-service" | "order-service" | "product-service" | "notification-service" => (30, 2..8),
            other => panic!("unknown service {other}"),
        };
        if service == "api-gateway" {
            assert!(gateway.contains(&endpoint));
        } else {
            assert!(endpoint.starts_with("/internal/"));
        }
        let millis = trace.duration.as_millis();
        if millis >= base * 50 {
            slow += 1;
            assert!(millis < base * 50 + 5000);
        } else {
            assert!((base..base * 3).contains(&millis), "{service}: {millis}");
        }
        let count: u32 = attribute(trace, "span_count").unwrap().parse().unwrap();
        assert!(spans.contains(&count));
        assert_eq!(attribute(trace, "scenario"), Some("microservices_topology"));
        let status = trace.status.unwrap();
        assert_eq!(trace.is_error, status >= 500);
        assert_eq!(trace.is_error, attribute(trace, "error.type").is_some());
        assert_eq!(trace.attributes.len(), if trace.is_error { 3 } else { 2 });
        if trace.is_error {
            assert!([500, 502, 503, 504].contains(&status));
        } else {
            assert!([200, 201, 204].contains(&status));
        }
    }
    assert!((50..=160).contains(&slow), "slow: {slow}");
}

#[test]
fn traces_of_an_incident() {
    let corpus = failure_corpus(9, 900);
    let names = [
        "pre-incident", "degradation-start", "pool-exhaustion", "cascade-start", "retry-storm",
        "circuit-open", "recovery-start", "circuit-half-open", "recovered",
    ];
    let bases: [u128; 9] = [45, 500, 5000, 10_000, 15_000, 5, 500, 200, 50];
    let mut errors = [0usize; 9];
    for (i, trace) in corpus.iter().enumerate() {
        let phase = i / 100;
        assert_eq!(trace.trace_id, format!("fail-{i:08x}"));
        assert_eq!(attribute(trace, "incident.phase"), Some(names[phase]));
        assert_eq!(trace.endpoint.as_deref(), Some("/api/v2/orders"));
        let millis = trace.duration.as_millis();
        assert!((bases[phase]..bases[phase] * 2).contains(&millis));
        if trace.is_error {
            errors[phase] += 1;
        } else {
            assert_eq!(trace.status, Some(200));
        }
        let message = attribute(trace, "error.message");
        assert_eq!(message.is_some(), trace.is_error);
        match names[phase] {
            "circuit-open" | "circuit-half-open" => {
                let state = attribute(trace, "circuit_breaker.state").unwrap();
                assert_eq!(format!("circuit-{state}"), names[phase]);
                let failures: u32 = attribute(trace, "circuit_breaker.failures").unwrap().parse().unwrap();
                assert!((10..30).contains(&failures));
            }
            "retry-storm" => {
                let attempt: u32 = attribute(trace, "retry.attempt").unwrap().parse().unwrap();
                assert!((1..5).contains(&attempt));
                assert!(["true", "false"].contains(&attribute(trace, "retry.exhausted").unwrap()));
                if let Some(message) = message {
                    assert!(message.starts_with("Retry attempt ") && message.ends_with(" failed"));
                }
            }
            "pool-exhaustion" => {
                assert_eq!(attribute(trace, "db.connection_pool.active"), Some("20"));
                assert_eq!(attribute(trace, "db.connection_pool.max"), Some("20"));
                let waiting: u32 = attribute(trace, "db.connection_pool.waiting").unwrap().parse().unwrap();
                assert!((10..100).contains(&waiting));
                if let Some(message) = message {
                    assert_eq!(message, "Connection pool exhausted: timeout waiting for connection");
                }
            }
            "cascade-start" => assert!(message.is_none() || message == Some("Upstream service unavailable")),
            _ => assert!(message.is_none() || message == Some("Internal server error") || phase == 5),
        }
    }
    // The share of errors follows the phases.
    assert!(errors[0] < 10);
    assert!((70..=100).contains(&errors[4]), "storm: {}", errors[4]);
    assert!(errors[5] >= 90);
    assert!(errors[8] < 12);
    assert!(failure_corpus(9, 0).is_empty());
    // A single trace is in the first phase.
    assert_eq!(attribute(&failure_corpus(9, 1).traces[0], "incident.phase"), Some("pre-incident"));
}

#[test]
fn traces_of_the_distributions() {
    let corpus = latency_corpus(3, 5000);
    let mut tail = HashSet::new();
    let mut pauses = 0;
    for (i, trace) in corpus.iter().enumerate() {
        assert_eq!(trace.trace_id, format!("lat-{i:08x}"));
        assert_eq!(trace.service.as_deref(), Some("latency-test-service"));
        assert_eq!(trace.status, Some(200));
        assert_eq!(trace.attributes.len(), 3);
        let millis = trace.duration.as_millis();
        let flag = |key: &str| attribute(trace, key).map(|v| v == "true");
        match (i % 5, attribute(trace, "latency.distribution").unwrap()) {
            (0, "bimodal") => match flag("cache.hit").unwrap() {
                true => assert!((1..5).contains(&millis)),
                false => assert!((100..300).contains(&millis)),
            },
            (1, "long_tail") => {
                let label = attribute(trace, "latency.percentile").unwrap();
                tail.insert(label.to_string());
                match label {
                    "p50" => assert!((40..60).contains(&millis)),
                    "p90" => assert!((60..150).contains(&millis)),
                    "p99" => assert!((150..500).contains(&millis)),
                    "p99.9" => assert!((500..10_000).contains(&millis)),
                    other => panic!("unknown label {other}"),
                }
            }
            (2, "cold_start") => match flag("faas.cold_start").unwrap() {
                true => assert!((5000..12_000).contains(&millis)),
                false => assert!((200..600).contains(&millis)),
            },
            (3, "gc_pause") => {
                let pause: u128 = attribute(trace, "jvm.gc_pause_ms").unwrap().parse().unwrap();
                if pause > 0 {
                    pauses += 1;
                    assert!((100..15_000).contains(&pause));
                }
                assert!((50 + pause..200 + pause).contains(&millis));
            }
            (4, "database") => match flag("db.index_used").unwrap() {
                true => assert!((1..10).contains(&millis)),
                false => assert!((100..2000).contains(&millis)),
            },
            other => panic!("unexpected distribution {other:?}"),
        }
    }
    assert!(tail.contains("p50") && tail.contains("p90") && tail.contains("p99"));
    assert!((5..=50).contains(&pauses), "pauses: {pauses}");
}

#[test]
fn traces_of_the_patterns() {
    let mut generator = FixtureGenerator::new(FixtureConfig::default().with_seed(1).with_count(600));
    let traces = generator.generate(FixtureScenario::ObservabilityPatterns, 600);
    let hex = |text: &str, prefix: &str, digits: usize| {
        let rest = text.strip_prefix(prefix).unwrap();
        rest.len() == digits && rest.chars().all(|c| c.is_ascii_hexdigit() && !c.is_ascii_uppercase())
    };
    let number = |trace: &Trace, key: &str| -> u32 { attribute(trace, key).unwrap().parse().unwrap() };
    let mut users = HashSet::new();
    for (i, trace) in traces.iter().enumerate() {
        assert_eq!(trace.trace_id, format!("obs-{i:08x}"));
        assert!((50..500).contains(&trace.duration.as_millis()));
        assert_eq!(attribute(trace, "scenario"), Some("observability_patterns"));
        let keys: Vec<&str> = trace.attributes.iter().map(|a| a.key.as_str()).collect();
        match (i % 6, attribute(trace, "pattern").unwrap()) {
            (0, "wide_event") => {
                assert_eq!(
                    keys[2..],
                    ["user.id", "session.id", "request.id", "cart.item_count", "cart.total_cents", "payment.method", "attribute_count"]
                );
                assert!(hex(attribute(trace, "user.id").unwrap(), "usr_", 16));
                assert!(hex(attribute(trace, "session.id").unwrap(), "sess_", 16));
                assert!(hex(attribute(trace, "request.id").unwrap(), "req_", 16));
                users.insert(attribute(trace, "user.id").unwrap().to_string());
                assert!((1..10).contains(&number(trace, "cart.item_count")));
                assert!((1000..50_000).contains(&number(trace, "cart.total_cents")));
                assert!(["card", "paypal", "apple_pay"].contains(&attribute(trace, "payment.method").unwrap()));
                assert_eq!(attribute(trace, "attribute_count"), Some("50+"));
            }
            (1, "deep_trace") => {
                assert_eq!(keys[2..], ["trace.depth", "span_count", "trace.services_involved"]);
                assert!((5..15).contains(&number(trace, "trace.depth")));
                assert!((50..500).contains(&number(trace, "span_count")));
                assert!((5..15).contains(&number(trace, "trace.services_involved")));
            }
            (2, "high_cardinality") => {
                assert!(hex(attribute(trace, "user.id").unwrap(), "usr_", 32));
                assert!(hex(attribute(trace, "request.id").unwrap(), "req_", 32));
                assert_eq!(attribute(trace, "cardinality.warning"), Some("true"));
            }
            (3, "sampling_decision") => {
                let decision = attribute(trace, "sampling.decision").unwrap();
                assert_eq!(attribute(trace, "sampling.rule").unwrap(), format!("{decision}-rule"));
                let rate = match decision {
                    "keep" => "1.0",
                    "sample" => "0.10",
                    "drop" => "0.0",
                    other => panic!("unknown decision {other}"),
                };
                assert_eq!(attribute(trace, "sampling.rate"), Some(rate));
            }
            (4, "multi_tenant") => {
                assert_eq!(keys[2..], ["tenant.id", "tenant.tier", "tenant.isolation"]);
                assert!(hex(attribute(trace, "tenant.id").unwrap(), "tenant_", 8));
                let tier = attribute(trace, "tenant.tier").unwrap();
                assert!(["enterprise", "business", "starter"].contains(&tier));
                let isolation = if tier == "enterprise" { "dedicated" } else { "shared" };
                assert_eq!(attribute(trace, "tenant.isolation"), Some(isolation));
            }
            (5, "correlation") => {
                assert!(hex(attribute(trace, "correlation.order_id").unwrap(), "ord_", 16));
                assert!(hex(attribute(trace, "correlation.user_id").unwrap(), "usr_", 16));
            }
            other => panic!("unexpected pattern {other:?}"),
        }
    }
    assert_eq!(users.len(), 100);
}

#[test]
fn draws_of_a_stream() {
    let mut stream = Stream::new(77);
    let mut again = Stream::new(77);
    let mut seen = HashSet::new();
    for _ in 0..200 {
        let before = stream.position;
        let small = stream.below32(6);
        assert!(small < 6);
        assert!(stream.position > before);
        assert_eq!(again.below32(6), small);
        seen.insert(small);
        let before = stream.position;
        let word = stream.bits32();
        assert_eq!(stream.position, before + 1);
        assert_eq!(again.bits32(), word);
        let before = stream.position;
        let wide = stream.bits();
        assert_eq!(stream.position, before + 2);
        assert_eq!(again.bits(), wide);
        assert!(stream.below(1000) < 1000);
        assert!(again.below(1000) < 1000);
        assert!(stream.pick(3) < 3);
        again.pick(3);
        assert_eq!(stream.toss(500_000), again.toss(500_000));
        assert_eq!(stream, again);
    }
    assert_eq!(seen.len(), 6);
    assert_eq!(Stream::new(1).below32(1), 0);
    assert_ne!(Stream::new(1).bits(), Stream::new(2).bits());
}

#[test]
fn the_stream_draws_what_the_generator_draws() {
    let mut generator = <rand_chacha::ChaCha8Rng as rand::SeedableRng>::seed_from_u64(2024);
    let mut stream = Stream::new(2024);
    let items = ["a", "b", "c", "d", "e", "f", "g"];
    for round in 0..300u64 {
        let bound = 1 + round * 37;
        assert_eq!(stream.below(bound), rand::Rng::gen_range(&mut generator, 0..bound));
        assert_eq!(stream.bits32(), rand::RngCore::next_u32(&mut generator));
        assert_eq!(stream.bits(), rand::RngCore::next_u64(&mut generator));
        let small = 1 + (round as u32 % 90);
        assert_eq!(stream.below32(small), rand::Rng::gen_range(&mut generator, 0..small));
        let chosen = rand::seq::SliceRandom::choose(&items[..], &mut generator).unwrap();
        assert_eq!(items[stream.pick(items.len())], *chosen);
        assert_eq!(stream.toss(500_000), rand::Rng::gen_bool(&mut generator, 0.5));
        assert_eq!(stream.toss(1_000_000), rand::Rng::gen_bool(&mut generator, 1.0));
        assert_eq!(stream.toss(0), rand::Rng::gen_bool(&mut generator, 0.0));
        assert_eq!(stream.bits32(), rand::RngCore::next_u32(&mut generator));
        assert_eq!(stream.position, generator.get_word_pos());
    }
}

#[test]
fn the_reservoir_draws_what_the_generator_draws() {
    // A full reservoir of one slot takes trace `n` if a draw below `n`
    // gives 0.
    let mut generator = <rand_chacha::ChaCha8Rng as rand::SeedableRng>::seed_from_u64(31);
    let mut reservoir = nectar::reservoir::Reservoir::new(
        nectar::reservoir::ReservoirConfig::new(1).with_seed(31),
    );
    reservoir.add(Trace::new("t1"));
    for n in 2..200u64 {
        let taken = reservoir.add(Trace::new(&format!("t{n}"))).is_some();
        assert_eq!(taken, rand::Rng::gen_range(&mut generator, 0..n) == 0, "trace {n}");
    }
}
