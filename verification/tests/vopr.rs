use nectar::chaos::{chaos_campaign, chaos_round, ChaosConfig, ChaosInjector, CorruptionType, INVALID_RATE};
use nectar::compiler::{Compiler, OutputFormat};
use nectar::corpus::Corpus;
use nectar::evolution::{PolicyEvolutionSim, SimAction};
use nectar::harness::{corpus_hash, ReplayEvent, StepResult};
use nectar::policy::{Action, Policy, Rule};
use nectar::refinery::RefineryConfig;
use nectar::rng::{pick, toss};
use nectar::scenario::{
    compile_determinism_verdict, high_cardinality_verdict, same_outcome, summary_hash, Scenario,
    SimConfig, Simulation,
};
use nectar::synthetic::{deterministic_corpus, hex8, SyntheticConfig, SyntheticCorpus};
use nectar::trace::{bare_trace, Trace};
use std::time::Duration;

fn render(config: &RefineryConfig, format: OutputFormat) -> String {
    format!("{format:?}\n{config:#?}")
}

fn test_policy() -> Policy {
    let mut policy = Policy::new("test");
    policy.add_rule(Rule::new("keep-errors", "http.status >= 500", Action::Keep, 100));
    policy.add_rule(Rule::new("fallback", "true", Action::Sample(10_000), 0));
    policy
}

#[test]
fn synthetic_corpus_is_deterministic() {
    let corpus1 = deterministic_corpus(42, 100);
    let corpus2 = deterministic_corpus(42, 100);

    // Same seed should produce identical corpora
    assert_eq!(corpus1.len(), corpus2.len());

    let traces1: Vec<_> = corpus1.iter().collect();
    let traces2: Vec<_> = corpus2.iter().collect();

    for (t1, t2) in traces1.iter().zip(traces2.iter()) {
        assert_eq!(t1.trace_id, t2.trace_id);
        assert_eq!(t1.service, t2.service);
        assert_eq!(t1.status, t2.status);
    }
    assert_eq!(corpus1.traces, corpus2.traces);
}

#[test]
fn different_seeds_produce_different_corpora() {
    let corpus1 = deterministic_corpus(42, 100);
    let corpus2 = deterministic_corpus(43, 100);

    let traces1: Vec<_> = corpus1.iter().collect();
    let traces2: Vec<_> = corpus2.iter().collect();

    // At least some traces should differ (comparing service names, not trace IDs)
    let differences = traces1
        .iter()
        .zip(traces2.iter())
        .filter(|(t1, t2)| t1.service != t2.service || t1.status != t2.status)
        .count();

    assert!(differences > 0);
}

#[test]
fn edge_cases_corpus_has_expected_traces() {
    let mut gen = SyntheticCorpus::new(SyntheticConfig::default());
    let corpus = gen.generate_edge_cases();

    // Should have errors
    assert!(!corpus.errors().is_empty());

    // Should have traces
    assert!(corpus.len() > 20);
}

#[test]
fn error_rate_is_respected() {
    let config =
        SyntheticConfig::default().with_seed(42).with_trace_count(10000).with_error_rate(100_000);

    let mut gen = SyntheticCorpus::new(config);
    let corpus = gen.generate();

    let error_count = corpus.errors().len();
    let error_rate = error_count as f64 / corpus.len() as f64;

    // Should be within 2% of target (statistical tolerance)
    assert!(
        (error_rate - 0.10).abs() < 0.02,
        "Error rate {error_rate} not within tolerance of 0.10"
    );
}

#[test]
fn generated_traces_follow_the_configuration() {
    let config = SyntheticConfig::default().with_seed(7).with_trace_count(500).with_slow_rate(250_000);
    let services = config.services.clone();
    let mut generator = SyntheticCorpus::new(config);
    assert_eq!(generator.routes.len(), 5);
    for routes in &generator.routes {
        assert_eq!(routes.len(), 5);
        for route in routes {
            let known = route == "/health"
                || route == "/metrics"
                || route.starts_with("/api/v1/")
                || route.starts_with("/api/v2/");
            assert!(known, "route {route}");
            assert!(!route.contains('<'));
        }
    }
    let start = generator.position;
    assert!(start > 0);
    let corpus = generator.generate();
    assert!(generator.position > start);
    assert_eq!(corpus.len(), 500);
    let mut slow = 0;
    for (i, trace) in corpus.iter().enumerate() {
        assert_eq!(trace.trace_id, format!("trace-{i:08x}"));
        let service = trace.service.clone().unwrap();
        let home = services.iter().position(|s| *s == service).unwrap();
        assert!(generator.routes[home].contains(trace.endpoint.as_ref().unwrap()));
        let status = trace.status.unwrap();
        if trace.is_error {
            assert!([500, 502, 503, 504].contains(&status));
        } else {
            assert!([200, 201, 204].contains(&status));
        }
        let millis = trace.duration.as_millis();
        assert!((10..15_000).contains(&millis));
        if millis >= 5000 {
            slow += 1;
        }
        assert!(trace.spans.is_empty() && trace.attributes.is_empty());
    }
    assert!((75..=175).contains(&slow), "slow traces: {slow}");
    // No trace is drawn for a count of zero, whatever the configuration.
    let mut none = SyntheticCorpus::new(
        SyntheticConfig { services: Vec::new(), ..SyntheticConfig::default() }.with_trace_count(0),
    );
    assert!(none.generate().is_empty());
}

#[test]
fn rates_of_nothing_and_of_everything() {
    let all = SyntheticConfig::default().with_trace_count(50).with_error_rate(1_000_000);
    assert_eq!(SyntheticCorpus::new(all).generate().errors().len(), 50);
    let none = SyntheticConfig::default().with_trace_count(50).with_error_rate(0);
    assert_eq!(SyntheticCorpus::new(none).generate().errors().len(), 0);
    let slow = SyntheticConfig::default().with_trace_count(50).with_slow_rate(1_000_000);
    for trace in SyntheticCorpus::new(slow).generate().iter() {
        assert!((5000..15_000).contains(&trace.duration.as_millis()));
    }
}

#[test]
fn edge_cases_in_full() {
    let mut generator = SyntheticCorpus::new(SyntheticConfig::default());
    let before = generator.position;
    let corpus = generator.generate_edge_cases();
    assert_eq!(generator.position, before);
    assert_eq!(corpus.len(), 22);
    for i in 0..10 {
        assert_eq!(
            corpus.traces[i],
            bare_trace(&format!("error-{i}"), 100, 500, "error-service", None)
        );
        assert_eq!(
            corpus.traces[10 + i],
            bare_trace(&format!("slow-{i}"), 30_000, 200, "slow-service", None)
        );
    }
    assert_eq!(corpus.traces[20], bare_trace("boundary-499", 4999, 499, "boundary-service", None));
    assert_eq!(corpus.traces[21], bare_trace("boundary-500", 5000, 500, "boundary-service", None));
    assert!(!corpus.traces[20].is_error);
    assert!(corpus.traces[21].is_error);
    assert_eq!(corpus.errors().len(), 11);
}

#[test]
fn many_services_each_of_its_own() {
    let mut generator = SyntheticCorpus::new(SyntheticConfig::default().with_seed(3));
    let corpus = generator.generate_high_cardinality(300);
    assert_eq!(corpus.len(), 300);
    for (i, trace) in corpus.iter().enumerate() {
        assert_eq!(trace.trace_id, format!("hc-{i:08x}"));
        assert_eq!(trace.service, Some(format!("service-{i:08x}")));
        assert_eq!(trace.endpoint, Some(format!("/api/v1/resource-{i}")));
        assert_eq!(trace.status, Some(200));
        assert!((10..1000).contains(&trace.duration.as_millis()));
    }
    let mut again = SyntheticCorpus::new(SyntheticConfig::default().with_seed(3));
    assert_eq!(again.generate_high_cardinality(300).traces, corpus.traces);
    assert!(generator.generate_high_cardinality(0).is_empty());
}

#[test]
fn hexadecimal_numbers_have_eight_digits_or_more() {
    assert_eq!(hex8(0), "00000000");
    assert_eq!(hex8(255), "000000ff");
    assert_eq!(hex8(0xffff_ffff), "ffffffff");
    assert_eq!(hex8(0x1_0000_0000), "100000000");
    assert_eq!(hex8(usize::MAX), format!("{:08x}", usize::MAX));
}

#[test]
fn picks_and_tosses_go_by_seed_and_position() {
    let mut position = 0u128;
    let mut seen = [false; 5];
    for _ in 0..200 {
        let p = pick(9, position, 5);
        assert!(p.index < 5);
        assert!(p.position > position);
        let again = pick(9, position, 5);
        assert_eq!((p.index, p.position), (again.index, again.position));
        seen[p.index] = true;
        position = p.position;
    }
    assert_eq!(seen, [true; 5]);
    assert_eq!(pick(1, 0, 1).index, 0);

    let always = toss(9, 17, 1_000_000);
    assert!(always.hit);
    assert_eq!(always.position, 17);
    let never = toss(9, 17, 0);
    assert!(!never.hit);
    assert_eq!(never.position, 19);
    let mut hits = 0;
    let mut position = 0u128;
    for _ in 0..2000 {
        let t = toss(5, position, 250_000);
        if t.hit {
            hits += 1;
        }
        assert_eq!(t.position, position + 2);
        position = t.position;
    }
    assert!((400..=600).contains(&hits), "hits: {hits}");
}

#[test]
fn chaos_injector_is_deterministic() {
    let config = ChaosConfig::default().with_seed(42);

    let mut injector1 = ChaosInjector::new(config.clone());
    let mut injector2 = ChaosInjector::new(config);

    let policy = test_policy();

    let corrupted1 = injector1.corrupt_policy(&policy);
    let corrupted2 = injector2.corrupt_policy(&policy);

    // Same seed should produce same corruption
    assert_eq!(corrupted1.rules.len(), corrupted2.rules.len());
    assert_eq!(corrupted1, corrupted2);
}

#[test]
fn invalid_policy_is_truly_invalid() {
    let mut injector = ChaosInjector::new(ChaosConfig::default());
    let invalid = injector.generate_invalid_policy();

    // Should not have a fallback
    assert!(!invalid.has_fallback());

    // Should have empty name
    assert!(invalid.name.is_empty());

    assert_eq!(invalid.rules.len(), 2);
    assert_eq!(invalid.rules[0], Rule::new("", "invalid syntax >>>", Action::Keep, 100));
    assert_eq!(
        invalid.rules[1],
        Rule::new("negative-rate", "http.status >= 500", Action::Sample(INVALID_RATE), 50)
    );
    assert!(INVALID_RATE > 1_000_000);
}

#[test]
fn chaos_campaign_runs_to_completion() {
    let policy = test_policy();
    let corpus = Corpus::new();

    let results = chaos_campaign(&policy, &corpus, 10);

    assert_eq!(results.len(), 10);

    // Early iterations (low intensity) should mostly survive
    assert!(results[0].compiler_survived);

    for (i, result) in results.iter().enumerate() {
        assert_eq!(result.iteration, i);
        assert_eq!(result.intensity, (i as u32) * 100_000);
        assert_eq!(result.prover_survived, result.prover_error.is_none());
        assert_eq!(result.compiler_survived, result.compiler_error.is_none());
        assert_eq!(result.fully_survived(), result.prover_survived && result.compiler_survived);
    }
    // Without corruption everything gets through.
    assert!(results[0].fully_survived());
    assert!(chaos_campaign(&policy, &corpus, 0).is_empty());
    assert_eq!(chaos_round(&policy, &corpus, 1, 3).intensity, 333_333);
}

fn injector(types: Vec<CorruptionType>, rate: u32) -> ChaosInjector {
    ChaosInjector::new(ChaosConfig {
        seed: 11,
        trace_corruption_rate: rate,
        rule_corruption_rate: rate,
        corruption_types: types,
    })
}

#[test]
fn each_corruption_of_a_trace() {
    let original = Trace::new("t1")
        .with_service("api")
        .with_endpoint("/x")
        .with_status(201)
        .with_duration(Duration::from_millis(70))
        .with_attribute("k", "v");
    let bare = Trace::new("t2");
    let corpus = Corpus::from_traces(vec![original.clone(), bare.clone()]);

    let out = injector(vec![CorruptionType::InvalidStatus], 1_000_000).corrupt_corpus(&corpus);
    assert_eq!(
        out.traces[0],
        Trace::new("t1").with_service("api").with_status(999).with_duration(Duration::from_millis(70))
    );
    assert!(out.traces[0].is_error);
    assert_eq!(out.traces[1], Trace::new("t2").with_service("unknown").with_status(999));

    let out = injector(vec![CorruptionType::ZeroDuration], 1_000_000).corrupt_corpus(&corpus);
    assert_eq!(out.traces[0], Trace::new("t1").with_service("api").with_status(201));
    assert_eq!(out.traces[1], Trace::new("t2").with_service("unknown").with_status(200));

    let out = injector(vec![CorruptionType::EmptyServiceName], 1_000_000).corrupt_corpus(&corpus);
    assert_eq!(
        out.traces[0],
        Trace::new("t1").with_service("").with_status(201).with_duration(Duration::from_millis(70))
    );

    let out = injector(vec![CorruptionType::ExtremeValues], 1_000_000).corrupt_corpus(&corpus);
    assert_eq!(
        out.traces[0],
        Trace::new("t1")
            .with_service("api")
            .with_status(u16::MAX)
            .with_duration(Duration::from_millis(u64::MAX / 1000))
    );

    // Corruptions of rules, and none at all, leave the traces as they are.
    for types in [vec![CorruptionType::RemoveFallback], vec![CorruptionType::MalformedMatchExpr], vec![]] {
        let out = injector(types, 1_000_000).corrupt_corpus(&corpus);
        assert_eq!(out.traces, corpus.traces);
    }
    let mut untouched = injector(vec![CorruptionType::InvalidStatus], 0);
    assert_eq!(untouched.corrupt_corpus(&corpus).traces, corpus.traces);
    // Each toss that misses draws two words.
    assert_eq!(untouched.position, 4);
}

#[test]
fn each_corruption_of_a_rule() {
    let mut policy = Policy::new("p");
    policy.budget_per_second = Some(500);
    policy.add_rule(Rule::new("a", "status >= 500", Action::Keep, 9).with_description("errors"));
    policy.add_rule(Rule::new("b", "true", Action::Drop, 1));

    let out = injector(vec![CorruptionType::MalformedMatchExpr], 1_000_000).corrupt_policy(&policy);
    assert_eq!(out.name, "p");
    assert_eq!(out.budget_per_second, Some(500));
    assert_eq!(
        out.rules,
        vec![
            Rule::new("a", "((invalid && ||", Action::Keep, 9),
            Rule::new("b", "((invalid && ||", Action::Drop, 1)
        ]
    );

    let out = injector(vec![CorruptionType::RemoveFallback], 1_000_000).corrupt_policy(&policy);
    assert_eq!(out.rules, vec![policy.rules[0].clone()]);
    assert!(!out.has_fallback());

    let out = injector(vec![CorruptionType::DuplicateRuleNames], 1_000_000).corrupt_policy(&policy);
    assert_eq!(
        out.rules,
        vec![
            Rule::new("duplicate-name", "status >= 500", Action::Keep, 9),
            Rule::new("duplicate-name", "true", Action::Drop, 1)
        ]
    );

    let out = injector(vec![CorruptionType::ZeroDuration], 1_000_000).corrupt_policy(&policy);
    assert_eq!(out.rules, policy.rules);
    // With nothing to choose from a rule that is hit is lost.
    let out = injector(vec![], 1_000_000).corrupt_policy(&policy);
    assert!(out.rules.is_empty());
    let out = injector(vec![], 0).corrupt_policy(&policy);
    assert_eq!(out.rules, policy.rules);
}

#[test]
fn copies_hold_what_the_originals_hold() {
    let span = nectar::span::Span::new("s1", "op")
        .with_service("api")
        .with_parent("s0")
        .with_start_time_ns(5)
        .with_duration(Duration::from_millis(3))
        .with_attribute("tags", nectar::span::AttributeValue::StringArray(vec!["a".to_string()]))
        .with_attribute("n", nectar::span::AttributeValue::Int(3));
    let trace = Trace::from_spans("t", vec![span.clone()]).with_attribute("k", "v");
    assert_eq!(span.copy(), span);
    assert_eq!(trace.copy(), trace);
    let corpus = Corpus::from_traces(vec![trace, Trace::new("u").with_status(503)]);
    assert_eq!(corpus.copy().traces, corpus.traces);
    let policy = test_policy();
    assert_eq!(policy.copy(), policy);
    let rule = Rule::new("a", "true", Action::Keep, 1).with_description("d");
    assert_eq!(rule.copy(), rule);
}

#[test]
fn simulation_is_deterministic() {
    let config = SimConfig::default().with_seed(12345);
    let sim = Simulation::new(config);
    assert!(sim.verify_determinism());
    assert!(Simulation::new(SimConfig::default().without_determinism_check()).verify_determinism());
}

#[test]
fn compile_determinism_test_passes() {
    let mut sim = Simulation::new(SimConfig::default());

    let mut policy = Policy::new("test");
    policy.add_rule(Rule::new("keep-errors", "http.status >= 500", Action::Keep, 100));
    policy.add_rule(Rule::new("fallback", "true", Action::Sample(10_000), 0));

    let result = sim.run_scenario(&Scenario::CompileDeterminism { policy }, &render);
    assert!(result.passed, "Result: {result:?}");
    assert_eq!(result.name, "compile_determinism");
    assert_eq!(result.message, "All compilations produced identical output");
}

#[test]
fn outputs_that_differ_fail_the_verdict() {
    let same = vec!["a".to_string(), "a".to_string(), "a".to_string()];
    assert!(compile_determinism_verdict(&same).passed);
    let other = vec!["a".to_string(), "a".to_string(), "b".to_string()];
    let verdict = compile_determinism_verdict(&other);
    assert!(!verdict.passed);
    assert!(!verdict.skipped);
    assert_eq!(verdict.message, "Compilation produced different outputs");
    // A render that never writes the same twice is found out.
    let count = std::cell::Cell::new(0);
    let restless = |_: &RefineryConfig, _: OutputFormat| {
        count.set(count.get() + 1);
        count.get().to_string()
    };
    let mut sim = Simulation::new(SimConfig::default());
    let result = sim.run_scenario(&Scenario::compile_determinism(test_policy()), &restless);
    assert!(!result.passed);
    assert_eq!(count.get(), 10);
}

#[test]
fn scenarios_one_by_one() {
    let corpus = deterministic_corpus(1, 20);
    let scenarios = vec![
        Scenario::prover_consistency(test_policy(), corpus.copy()),
        Scenario::roundtrip(test_policy()),
        Scenario::chaos_resilience(test_policy(), corpus.copy()),
        Scenario::high_cardinality(50),
        Scenario::prover_consistency(Policy::new("empty"), Corpus::new()),
    ];
    let names: Vec<&str> = scenarios.iter().map(|s| s.name()).collect();
    assert_eq!(
        names,
        vec!["prover_consistency", "roundtrip", "chaos_resilience", "high_cardinality", "prover_consistency"]
    );
    let mut sim = Simulation::new(SimConfig::default());
    let results = sim.run_all(&scenarios, &render);
    assert_eq!(results.len(), 5);
    assert!(results[0].passed);
    assert_eq!(results[0].message, "All verifications produced identical results");
    assert!(results[1].passed);
    assert_eq!(results[1].message, "Policy survives roundtrip serialization");
    assert!(results[2].skipped);
    assert_eq!(results[2].message, "Chaos injection not enabled");
    assert!(results[3].passed, "{:?}", results[3]);
    assert!(results[3].message.starts_with("Handled 50 unique services in "));
    assert!(results[4].passed);
    for (result, name) in results.iter().zip(names) {
        assert_eq!(result.name, name);
    }
}

#[test]
fn corruption_in_a_scenario() {
    let corpus = deterministic_corpus(1, 20);
    let mut sim = Simulation::new(SimConfig::default().with_chaos(ChaosConfig::high_chaos()));
    let result = sim.run_scenario(&Scenario::chaos_resilience(test_policy(), corpus.copy()), &render);
    assert!(result.passed && !result.skipped);
    assert_eq!(result.message, "System handled chaos gracefully");
    assert!(sim.chaos.as_ref().unwrap().position > 0);

    let result = sim.run_scenario(&Scenario::chaos_resilience(Policy::new("none"), corpus.copy()), &render);
    assert!(result.passed);
    assert_eq!(
        result.message,
        "Prover correctly rejected chaotic input: invalid policy: policy has no rules"
    );

    let mut unreadable = Policy::new("bad");
    unreadable.add_rule(Rule::new("r", "status >>> 1 ||", Action::Keep, 1));
    let compiled = Compiler::new().to_refinery_config(&unreadable);
    let result = sim.run_scenario(&Scenario::chaos_resilience(unreadable, corpus), &render);
    assert_eq!(result.passed, compiled.is_ok());
    if let Err(e) = compiled {
        assert_eq!(result.message, format!("Compiler failed under chaos: {}", e.message()));
    }
}

#[test]
fn the_time_allowed_decides_the_verdict() {
    let approved = Simulation::new(SimConfig::default())
        .test_prover_consistency(&test_policy(), &Corpus::new());
    assert!(approved.passed);
    let verified = nectar::prover::Prover::default().verify(&test_policy(), &Corpus::new());
    let failed = nectar::prover::Prover::default().verify(&Policy::new("none"), &Corpus::new());
    assert!(same_outcome(&verified, &verified));
    assert!(same_outcome(&failed, &failed));
    assert!(!same_outcome(&verified, &failed));

    let limit = Duration::from_secs(30);
    let quick = high_cardinality_verdict(&verified, &Duration::from_millis(1500), &limit, 3);
    assert!(quick.passed);
    assert_eq!(quick.message, "Handled 3 unique services in 1.5s");
    let at_limit = high_cardinality_verdict(&verified, &limit, &limit, 3);
    assert!(at_limit.passed);
    let late = high_cardinality_verdict(&verified, &Duration::from_millis(30_001), &limit, 3);
    assert!(!late.passed);
    assert_eq!(late.message, "Verification took too long: 30.001s");
    let refused = high_cardinality_verdict(&failed, &Duration::from_micros(250), &limit, 3);
    assert!(!refused.passed);
    assert_eq!(refused.message, "Verification failed: invalid policy: policy has no rules");
}

#[test]
fn summaries_tell_corpora_apart() {
    let a = Corpus::from_traces(vec![Trace::new("t1").with_service("s").with_status(200)]);
    let b = Corpus::from_traces(vec![Trace::new("t1").with_service("s").with_status(201)]);
    let c = Corpus::from_traces(vec![Trace::new("t1").with_service("s").with_status(200)]);
    assert_eq!(summary_hash(&a), summary_hash(&c));
    assert_ne!(summary_hash(&a), summary_hash(&b));
    // The hash of a checkpoint goes by the identifiers alone.
    assert_eq!(corpus_hash(&a), corpus_hash(&b));
    assert_ne!(corpus_hash(&a), corpus_hash(&Corpus::new()));
}

#[test]
fn policy_evolution_sim_runs() {
    let policy = test_policy();
    let corpus = Corpus::new();

    let mut sim = PolicyEvolutionSim::new(policy, corpus);

    let results = sim.run_sequence(
        &[
            SimAction::Checkpoint,
            SimAction::Verify,
            SimAction::Compile,
            SimAction::AddRule {
                name: "new-rule".to_string(),
                match_expr: "duration > 10s".to_string(),
                action: Action::Keep,
                priority: 50,
            },
            SimAction::Verify,
            SimAction::Checkpoint,
        ],
        &render,
    );

    assert_eq!(results.len(), 6);
    assert!(matches!(results[0], StepResult::Checkpointed));
    assert_eq!(
        results[1],
        StepResult::Verified { passed: true, message: "Verification passed".to_string() }
    );
    assert!(matches!(&results[2], StepResult::Compiled { output } if output.starts_with("Yaml")));
    assert_eq!(results[3], StepResult::PolicyChanged);
    assert_eq!(sim.policy.rules.len(), 3);
    assert_eq!(sim.policy.rules[1].name, "new-rule");
    assert_eq!(sim.time.real_time_ms, 6);
    assert_eq!(sim.time.simulated_time_ms, 6000);
    assert_eq!(sim.log.checkpoints.len(), 2);
    assert_eq!(sim.log.checkpoints[0].timestamp_ms, 1000);
    assert_ne!(sim.log.checkpoints[0].policy_hash, sim.log.checkpoints[1].policy_hash);
    assert_ne!(sim.log.checkpoints[0].compiled_hash, sim.log.checkpoints[1].compiled_hash);
    assert_eq!(sim.log.events.len(), 3);
    assert!(matches!(sim.log.events[1], ReplayEvent::PolicyChange { timestamp_ms: 4000, rule_count: 3, .. }));
}

#[test]
fn replay_verification_detects_changes() {
    let policy = test_policy();
    let corpus = Corpus::new();

    let mut sim1 = PolicyEvolutionSim::new(policy.clone(), corpus.clone());
    sim1.step(SimAction::Checkpoint, &render);

    let mut sim2 = PolicyEvolutionSim::new(policy, corpus);
    sim2.step(SimAction::Checkpoint, &render);

    // Same sequence should produce same checkpoints
    assert!(sim1.log.verify_replay(&sim2.log));

    sim2.step(SimAction::RemoveRule { name: "fallback".to_string() }, &render);
    sim1.step(SimAction::Verify, &render);
    sim1.step(SimAction::Checkpoint, &render);
    sim2.step(SimAction::Checkpoint, &render);
    assert!(!sim1.log.verify_replay(&sim2.log));
}

#[test]
fn steps_of_every_kind() {
    let mut sim = PolicyEvolutionSim::new(Policy::new("grows"), Corpus::new());
    let refused = sim.step(SimAction::Verify, &render);
    assert_eq!(
        refused,
        StepResult::Verified {
            passed: false,
            message: "invalid policy: policy has no rules".to_string()
        }
    );
    let add = |name: &str, expr: &str, priority: u8| SimAction::AddRule {
        name: name.to_string(),
        match_expr: expr.to_string(),
        action: Action::Keep,
        priority,
    };
    sim.step(add("low", "true", 1), &render);
    sim.step(add("high", "status >= 500", 9), &render);
    sim.step(add("low", "service == api", 5), &render);
    let names: Vec<&str> = sim.policy.rules.iter().map(|r| r.name.as_str()).collect();
    assert_eq!(names, vec!["high", "low", "low"]);
    assert_eq!(sim.step(SimAction::RemoveRule { name: "low".to_string() }, &render), StepResult::PolicyChanged);
    assert_eq!(sim.policy.rules.len(), 1);
    assert_eq!(sim.policy.rules[0].name, "high");
    // Without a fallback the verdict is a rejection, not an error.
    let rejected = sim.step(SimAction::Verify, &render);
    assert_eq!(
        rejected,
        StepResult::Verified { passed: false, message: "Verification passed".to_string() }
    );
    sim.step(add("bad", "status >>> 1 ||", 0), &render);
    let compiled = Compiler::new().compile(&sim.policy, &render);
    let step = sim.step(SimAction::Compile, &render);
    match compiled {
        Ok(output) => assert_eq!(step, StepResult::Compiled { output }),
        Err(e) => assert_eq!(step, StepResult::CompileFailed { error: e.message() }),
    }
    assert_eq!(sim.log.events.len(), 7);
    assert_eq!(sim.time.real_time_ms, 8);
    let json = Compiler::with_options(nectar::compiler::CompileOptions {
        format: OutputFormat::Json,
        include_comments: false,
    });
    assert!(json.compile(&test_policy(), &render).unwrap().starts_with("Json"));
}
