use nectar::reservoir::{
    weight_of, EvictionReason, Reservoir, ReservoirConfig, SamplingStrategy,
};
use nectar::span::{Span, SpanKind, SpanStatus};
use nectar::trace::Trace;
use std::time::Duration;

#[test]
fn reservoir_add_under_capacity() {
    let mut reservoir = Reservoir::with_capacity(100);

    for i in 0..50 {
        let event = reservoir.add(Trace::new(&format!("trace-{i}")));
        assert!(event.is_none(), "No eviction should occur under capacity");
    }

    assert_eq!(reservoir.len(), 50);
    assert_eq!(reservoir.stats().total_seen, 50);
}

#[test]
fn reservoir_uniform_sampling() {
    let config = ReservoirConfig::new(10).with_seed(42);
    let mut reservoir = Reservoir::new(config);

    // Add 100 traces to a reservoir of size 10
    let mut eviction_count = 0;
    for i in 0..100 {
        if reservoir.add(Trace::new(&format!("trace-{i}"))).is_some() {
            eviction_count += 1;
        }
    }

    assert_eq!(reservoir.len(), 10);
    assert!(eviction_count > 0, "Some evictions should have occurred");
    assert_eq!(reservoir.stats().eviction_count, eviction_count);
}

#[test]
fn reservoir_deterministic_sampling() {
    // Two reservoirs with same seed should produce same results
    let config1 = ReservoirConfig::new(10).with_seed(12345);
    let config2 = ReservoirConfig::new(10).with_seed(12345);

    let mut reservoir1 = Reservoir::new(config1);
    let mut reservoir2 = Reservoir::new(config2);

    for i in 0..100 {
        reservoir1.add(Trace::new(&format!("trace-{i}")));
        reservoir2.add(Trace::new(&format!("trace-{i}")));
    }

    let ids1: Vec<_> = reservoir1.iter().into_iter().map(|t| &t.trace_id).collect();
    let ids2: Vec<_> = reservoir2.iter().into_iter().map(|t| &t.trace_id).collect();

    assert_eq!(ids1, ids2, "Deterministic sampling should produce same results");
}

#[test]
fn reservoir_stratified_preserves_errors() {
    let config = ReservoirConfig::new(100)
        .with_strategy(SamplingStrategy::Stratified)
        .with_preserve_errors(true)
        .with_seed(42);

    let mut reservoir = Reservoir::new(config);

    // Add 80 normal traces and 20 error traces
    for i in 0..80 {
        reservoir.add(Trace::new(&format!("normal-{i}")).with_status(200));
    }
    for i in 0..20 {
        reservoir.add(Trace::new(&format!("error-{i}")).with_status(500));
    }

    let stats = reservoir.stats();
    assert_eq!(stats.error_count, 20, "All errors should be preserved");
}

#[test]
fn reservoir_stratified_preserves_slow() {
    let config = ReservoirConfig::new(100)
        .with_strategy(SamplingStrategy::Stratified)
        .with_slow_threshold(Duration::from_secs(5))
        .with_seed(42);

    let mut reservoir = Reservoir::new(config);

    // Add 90 fast traces and 10 slow traces
    for i in 0..90 {
        reservoir.add(Trace::new(&format!("fast-{i}")).with_duration(Duration::from_millis(100)));
    }
    for i in 0..10 {
        reservoir.add(Trace::new(&format!("slow-{i}")).with_duration(Duration::from_secs(10)));
    }

    let stats = reservoir.stats();
    assert_eq!(stats.slow_count, 10, "All slow traces should be preserved");
}

#[test]
fn reservoir_eviction_callback() {
    let eviction_count = std::sync::Arc::new(std::sync::atomic::AtomicU64::new(0));
    let count_clone = std::sync::Arc::clone(&eviction_count);
    let observer = move |_event: &nectar::reservoir::EvictionEvent| {
        count_clone.fetch_add(1, std::sync::atomic::Ordering::SeqCst);
    };

    let config = ReservoirConfig::new(10).with_seed(42);
    let mut reservoir = Reservoir::new(config);

    let mut reported = 0u64;
    for i in 0..100 {
        if reservoir.add_observed(Trace::new(&format!("trace-{i}")), &observer).is_some() {
            reported += 1;
        }
    }

    let observed = eviction_count.load(std::sync::atomic::Ordering::SeqCst);
    assert!(observed > 0, "Eviction callback should have been called");
    assert_eq!(observed, reported);
    assert_eq!(observed, reservoir.stats().eviction_count);
}

#[test]
fn the_observer_sees_what_is_reported() {
    let seen = std::cell::RefCell::new(Vec::new());
    let observer = |event: &nectar::reservoir::EvictionEvent| {
        seen.borrow_mut().push((event.evicted_trace_id.clone(), event.total_seen));
    };
    let mut observed = Reservoir::new(ReservoirConfig::new(3).with_seed(7));
    let mut plain = Reservoir::new(ReservoirConfig::new(3).with_seed(7));
    let mut reported = Vec::new();
    for i in 0..50 {
        let id = format!("t{i}");
        let event = observed.add_observed(Trace::new(&id), &observer);
        let same = plain.add(Trace::new(&id));
        assert_eq!(event.is_some(), same.is_some());
        if let Some(event) = event {
            reported.push((event.evicted_trace_id, event.total_seen));
        }
    }
    assert!(!reported.is_empty());
    assert_eq!(*seen.borrow(), reported);
    let left: Vec<String> = observed.iter().iter().map(|t| t.trace_id.clone()).collect();
    let right: Vec<String> = plain.iter().iter().map(|t| t.trace_id.clone()).collect();
    assert_eq!(left, right);
}

fn spanned(id: &str, start_time_ns: u64) -> Trace {
    let mut trace = Trace::new(id);
    trace.spans.push(Span {
        span_id: format!("span-{id}"),
        parent_span_id: None,
        name: "test".to_string(),
        service: "test".to_string(),
        duration: Duration::from_millis(100),
        start_time_ns,
        kind: SpanKind::Internal,
        status: SpanStatus::default(),
        attributes: Vec::new(),
    });
    trace
}

#[test]
fn reservoir_time_decay_favors_recent() {
    let config = ReservoirConfig::new(10)
        .with_strategy(SamplingStrategy::TimeDecay)
        .with_decay_half_life(Duration::from_secs(1))
        .with_seed(42);

    let mut reservoir = Reservoir::new(config);

    // Add old traces first
    for i in 0..10 {
        reservoir.add(spanned(&format!("old-{i}"), 1_000_000_000)); // 1 second
    }

    // Add new traces
    for i in 0..50 {
        reservoir.add(spanned(&format!("new-{i}"), 100_000_000_000)); // 100 seconds
    }

    // Count how many "new" traces are in the reservoir
    let new_count =
        reservoir.iter().into_iter().filter(|t| t.trace_id.starts_with("new-")).count();

    // With time decay, more recent traces should dominate
    assert!(new_count > 5, "Time decay should favor recent traces, got {new_count}");
}

#[test]
fn reservoir_stats() {
    let config =
        ReservoirConfig::new(100).with_slow_threshold(Duration::from_secs(5)).with_seed(42);

    let mut reservoir = Reservoir::new(config);

    // Add mixed traces
    for i in 0..30 {
        reservoir.add(
            Trace::new(&format!("normal-{i}"))
                .with_status(200)
                .with_duration(Duration::from_millis(100)),
        );
    }
    for i in 0..10 {
        reservoir.add(
            Trace::new(&format!("error-{i}"))
                .with_status(500)
                .with_duration(Duration::from_millis(100)),
        );
    }
    for i in 0..5 {
        reservoir.add(
            Trace::new(&format!("slow-{i}")).with_status(200).with_duration(Duration::from_secs(10)),
        );
    }

    let stats = reservoir.stats();
    assert_eq!(stats.total_seen, 45);
    assert_eq!(stats.current_size, 45);
    assert_eq!(stats.error_count, 10);
    assert_eq!(stats.slow_count, 5);
}

#[test]
fn reservoir_into_traces() {
    let mut reservoir = Reservoir::with_capacity(100);

    for i in 0..10 {
        reservoir.add(Trace::new(&format!("trace-{i}")));
    }

    let traces = reservoir.into_traces();
    assert_eq!(traces.len(), 10);
}

fn ids(reservoir: &Reservoir) -> Vec<String> {
    reservoir.iter().into_iter().map(|t| t.trace_id.clone()).collect()
}

#[test]
fn equal_seeds_give_equal_samples_and_evictions() {
    for strategy in
        [SamplingStrategy::Uniform, SamplingStrategy::Stratified, SamplingStrategy::TimeDecay]
    {
        let config = ReservoirConfig::new(20)
            .with_strategy(strategy)
            .with_preserve_errors(true)
            .with_slow_threshold(Duration::from_millis(500))
            .with_decay_half_life(Duration::from_secs(2))
            .with_seed(7);
        let mut first = Reservoir::new(config);
        let mut second = Reservoir::new(config);
        let mut other_seed = Reservoir::new(config.with_seed(8));
        let mut differs = false;
        for i in 0..400u64 {
            let make = || {
                spanned(&format!("t-{i}"), i * 10_000_000)
                    .with_status(if i % 7 == 0 { 500 } else { 200 })
                    .with_duration(Duration::from_millis(i % 900))
            };
            let a = first.add(make());
            let b = second.add(make());
            let c = other_seed.add(make());
            assert_eq!(a.is_some(), b.is_some());
            if let (Some(a), Some(b)) = (&a, &b) {
                assert_eq!(a.evicted_trace_id, b.evicted_trace_id);
                assert_eq!(a.replacement_trace_id, b.replacement_trace_id);
                assert_eq!(a.reason, b.reason);
                assert_eq!(a.reservoir_size, b.reservoir_size);
                assert_eq!(a.total_seen, b.total_seen);
            }
            assert_eq!(first.stats(), second.stats());
            differs |= a.map(|e| e.evicted_trace_id) != c.map(|e| e.evicted_trace_id);
        }
        assert_eq!(ids(&first), ids(&second));
        assert_eq!(first.stream_position, second.stream_position);
        assert!(differs, "another seed gives another sample ({strategy:?})");
    }
}

#[test]
fn capacity_is_kept_after_every_add() {
    for strategy in
        [SamplingStrategy::Uniform, SamplingStrategy::Stratified, SamplingStrategy::TimeDecay]
    {
        for max_size in [0usize, 1, 3, 9, 10, 25] {
            let config = ReservoirConfig::new(max_size)
                .with_strategy(strategy)
                .with_preserve_errors(true)
                .with_slow_threshold(Duration::from_millis(400))
                .with_seed(max_size as u64);
            let mut reservoir = Reservoir::new(config);
            assert!(reservoir.is_empty());
            for i in 0..200u64 {
                let trace = Trace::new(&format!("t-{i}"))
                    .with_status(if i % 3 == 0 { 503 } else { 200 })
                    .with_duration(Duration::from_millis((i * 37) % 800));
                let event = reservoir.add(trace);
                assert!(reservoir.len() <= max_size);
                assert_eq!(reservoir.capacity(), max_size);
                assert_eq!(reservoir.stats().total_seen, i + 1);
                if strategy == SamplingStrategy::Stratified {
                    assert!(reservoir.error_stratum.len() <= max_size / 5);
                    assert!(reservoir.slow_stratum.len() <= max_size / 10);
                    assert!(reservoir.traces.len() <= max_size - max_size / 5 - max_size / 10);
                } else {
                    assert!(reservoir.error_stratum.is_empty());
                    assert!(reservoir.slow_stratum.is_empty());
                }
                if let Some(event) = event {
                    assert_eq!(event.replacement_trace_id, format!("t-{i}"));
                    assert_eq!(event.reservoir_size, reservoir.len());
                    assert_eq!(event.total_seen, i + 1);
                    assert!(ids(&reservoir).contains(&event.replacement_trace_id));
                    assert!(!ids(&reservoir).contains(&event.evicted_trace_id));
                }
            }
            assert_eq!(reservoir.config().max_size, max_size);
        }
    }
}

#[test]
fn algorithm_r_includes_each_trace_equally_often() {
    let capacity = 5usize;
    let stream = 20usize;
    let trials = 4_000u64;
    let mut included = vec![0u64; stream];
    for seed in 0..trials {
        let mut reservoir = Reservoir::new(ReservoirConfig::new(capacity).with_seed(seed));
        for i in 0..stream {
            reservoir.add(Trace::new(&i.to_string()));
        }
        for trace in reservoir.into_traces() {
            included[trace.trace_id.parse::<usize>().unwrap()] += 1;
        }
    }
    let expected = capacity as f64 / stream as f64;
    for (i, count) in included.iter().enumerate() {
        let share = *count as f64 / trials as f64;
        assert!(
            (share - expected).abs() < 0.04,
            "trace {i} was included with share {share}, expected about {expected}"
        );
    }
    assert_eq!(included.iter().sum::<u64>(), trials * capacity as u64);
}

#[test]
fn eviction_reasons_by_strategy() {
    let fill = |config: ReservoirConfig, make: &dyn Fn(u64) -> Trace| {
        let mut reservoir = Reservoir::new(config);
        let mut reasons = Vec::new();
        for i in 0..300 {
            if let Some(event) = reservoir.add(make(i)) {
                reasons.push(event.reason);
            }
        }
        reasons
    };
    let uniform = fill(ReservoirConfig::new(10).with_seed(1), &|i| Trace::new(&i.to_string()));
    assert!(!uniform.is_empty());
    assert!(uniform.iter().all(|r| *r == EvictionReason::RandomSample));

    let stratified = ReservoirConfig::new(10)
        .with_strategy(SamplingStrategy::Stratified)
        .with_preserve_errors(true)
        .with_seed(1);
    let errors = fill(stratified, &|i| Trace::new(&i.to_string()).with_status(500));
    assert!(!errors.is_empty());
    assert!(errors.iter().all(|r| *r == EvictionReason::StratifiedRebalance));
    let normal = fill(stratified, &|i| Trace::new(&i.to_string()));
    assert!(normal.iter().all(|r| *r == EvictionReason::RandomSample));
    // Errors that are not preserved go to the stratum of normal traces.
    let unpreserved = fill(stratified.with_preserve_errors(false), &|i| {
        Trace::new(&i.to_string()).with_status(500)
    });
    assert!(unpreserved.iter().all(|r| *r == EvictionReason::RandomSample));

    let decay = ReservoirConfig::new(10).with_strategy(SamplingStrategy::TimeDecay).with_seed(1);
    let decayed = fill(decay, &|i| spanned(&i.to_string(), i * 1_000));
    assert!(!decayed.is_empty());
    assert!(decayed.iter().all(|r| *r == EvictionReason::TimeDecay));
}

#[test]
fn stratified_sample_is_handed_out_by_strata() {
    let config = ReservoirConfig::new(10)
        .with_strategy(SamplingStrategy::Stratified)
        .with_preserve_errors(true)
        .with_slow_threshold(Duration::from_secs(1));
    let mut reservoir = Reservoir::new(config);
    reservoir.add(Trace::new("slow").with_duration(Duration::from_secs(1)));
    reservoir.add(Trace::new("error").with_status(500));
    reservoir.add(Trace::new("normal"));
    reservoir.add(Trace::new("slow-error").with_status(500).with_duration(Duration::from_secs(9)));
    reservoir.add(Trace::new("almost-slow").with_duration(Duration::from_nanos(999_999_999)));
    assert_eq!(ids(&reservoir), vec!["normal", "almost-slow", "error", "slow-error", "slow"]);
    let stats = reservoir.stats();
    assert_eq!((stats.current_size, stats.error_count, stats.slow_count), (5, 2, 1));
    assert_eq!((reservoir.error_seen, reservoir.slow_seen, reservoir.normal_seen), (2, 1, 2));
    let handed: Vec<String> = reservoir.into_traces().into_iter().map(|t| t.trace_id).collect();
    assert_eq!(handed, vec!["normal", "almost-slow", "error", "slow-error", "slow"]);
}

#[test]
fn weights_halve_with_each_half_life() {
    let one = 1u64 << 32;
    assert_eq!(weight_of(0, 1_000), one);
    assert_eq!(weight_of(1_000, 1_000), one / 2);
    assert_eq!(weight_of(2_000, 1_000), one / 4);
    assert_eq!(weight_of(32_000, 1_000), 1);
    assert_eq!(weight_of(33_000, 1_000), 0);
    assert_eq!(weight_of(u64::MAX, 1_000), 0);
    // Between whole half-lives the weight lies on the straight line.
    assert_eq!(weight_of(500, 1_000), one - one / 4);
    assert_eq!(weight_of(1_500, 1_000), one / 2 - one / 8);
    assert_eq!(weight_of(250, 1_000), one - one / 8);
    // Without a half-life only a trace of no age at all has weight.
    assert_eq!(weight_of(0, 0), one);
    assert_eq!(weight_of(1, 0), 0);
    assert_eq!(weight_of(u64::MAX, u64::MAX), one / 2);
    assert_eq!(weight_of(u64::MAX - 1, u64::MAX), one / 2 + 1);
}

#[test]
fn configuration_builders() {
    let config = ReservoirConfig::default();
    assert_eq!(config.max_size, 10_000);
    assert_eq!(config.strategy, SamplingStrategy::Uniform);
    assert!(!config.preserve_errors);
    assert_eq!(config.slow_threshold, None);
    assert_eq!(config.decay_half_life_ns, None);
    assert_eq!(config.seed, 0);
    assert_eq!(SamplingStrategy::default(), SamplingStrategy::Uniform);
    let config = ReservoirConfig::new(3)
        .with_decay_half_life(Duration::from_micros(5))
        .with_slow_threshold(Duration::from_secs(2));
    assert_eq!(config.decay_half_life_ns, Some(5_000));
    assert_eq!(config.slow_threshold, Some(Duration::from_secs(2)));
    assert_eq!(config.max_size, 3);
}

#[test]
fn the_weight_halves_with_each_half_life() {
    let half_life = 1_000u64;
    let one = 1u64 << 32;
    for k in 0..=32u64 {
        assert_eq!(nectar::reservoir::weight_of(k * half_life, half_life), one >> k, "{k}");
    }
    assert_eq!(nectar::reservoir::weight_of(33 * half_life, half_life), 0);
    // Between two half-lives the weight falls along a straight line.
    assert_eq!(nectar::reservoir::weight_of(500, half_life), one - one / 4);
    assert_eq!(nectar::reservoir::weight_of(1_500, half_life), one / 2 - one / 8);
    let mut before = one;
    for age in (0..40_000u64).step_by(7) {
        let weight = nectar::reservoir::weight_of(age, half_life);
        assert!(weight <= before, "age {age}");
        before = weight;
    }
    // Without a half-life only a trace of no age weighs anything.
    assert_eq!(nectar::reservoir::weight_of(0, 0), one);
    assert_eq!(nectar::reservoir::weight_of(1, 0), 0);
}
