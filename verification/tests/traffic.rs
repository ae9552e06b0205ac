use nectar::simulation::hour_of;
use nectar::traffic::{TrafficPattern, TrafficPoint};

fn rate(share: f64) -> u32 {
    (share * 1_000_000.0).round() as u32
}

fn micros(value: u128) -> f64 {
    value as f64 / 1_000_000.0
}

/// 2024-01-15 09:00:00 UTC in milliseconds since the Unix epoch.
const BASE_MS: i64 = 1_705_309_200_000;
const MINUTE_MS: i64 = 60_000;

fn minute_of(timestamp_ms: i64) -> i64 {
    timestamp_ms.div_euclid(MINUTE_MS).rem_euclid(60)
}

fn sample_pattern() -> TrafficPattern {
    TrafficPattern::from_points(vec![
        TrafficPoint::new(BASE_MS, 5000).with_error_rate(rate(0.02)),
        TrafficPoint::new(BASE_MS + MINUTE_MS, 8500).with_error_rate(rate(0.01)),
        TrafficPoint::new(BASE_MS + 2 * MINUTE_MS, 12000).with_error_rate(rate(0.03)),
        TrafficPoint::new(BASE_MS + 3 * MINUTE_MS, 7000).with_error_rate(rate(0.01)),
        TrafficPoint::new(BASE_MS + 4 * MINUTE_MS, 4000).with_error_rate(rate(0.02)),
    ])
}

#[test]
fn traffic_pattern_stats() {
    let pattern = sample_pattern();
    let stats = pattern.stats();

    assert_eq!(stats.point_count, 5);
    assert!((stats.peak_eps as f64 - 12000.0).abs() < f64::EPSILON);
    assert!((stats.min_eps as f64 - 4000.0).abs() < f64::EPSILON);
    assert!((micros(stats.avg_eps) - 7300.0).abs() < f64::EPSILON);
}

#[test]
fn traffic_pattern_peak() {
    let pattern = sample_pattern();
    assert_eq!(pattern.peak_eps(), 12000);
    assert_eq!(pattern.find_peak_index(), Some(2));
}

#[test]
fn traffic_pattern_time_range() {
    let pattern = sample_pattern();
    let (start, end) = pattern.time_range().unwrap();

    assert_eq!(hour_of(start), 9);
    assert_eq!(minute_of(start), 0);
    assert_eq!(minute_of(end), 4);
}

#[test]
fn traffic_point_builder() {
    let point = TrafficPoint::new(BASE_MS, 1000).with_error_rate(rate(0.05)).with_p99_latency(2_500_000);

    assert_eq!(point.events_per_second, 1000);
    assert!((f64::from(point.error_rate) / 1_000_000.0 - 0.05).abs() < f64::EPSILON);
    assert!((point.p99_latency as f64 / 1_000_000.0 - 2.5).abs() < f64::EPSILON);
}

#[test]
fn points_are_put_in_time_order_and_equal_times_keep_theirs() {
    let pattern = TrafficPattern::from_points(vec![
        TrafficPoint::new(30, 1),
        TrafficPoint::new(10, 2),
        TrafficPoint::new(-5, 3),
        TrafficPoint::new(10, 4),
        TrafficPoint::new(i64::MIN, 5),
        TrafficPoint::new(10, 6),
        TrafficPoint::new(i64::MAX, 7),
    ]);
    let order: Vec<(i64, u64)> =
        pattern.points().iter().map(|p| (p.timestamp, p.events_per_second)).collect();
    assert_eq!(
        order,
        vec![(i64::MIN, 5), (-5, 3), (10, 2), (10, 4), (10, 6), (30, 1), (i64::MAX, 7)]
    );
    assert_eq!(pattern.name, None);
    assert_eq!(pattern.time_range(), Some((i64::MIN, i64::MAX)));
}

#[test]
fn statistics_in_exact_numbers() {
    let stats = sample_pattern().stats();
    assert_eq!(stats.total_events, 36_500);
    assert_eq!(stats.avg_eps, 7_300_000_000);
    // Squared distances from 7300: 2300², 1200², 4700², 300², 3300².
    // Their mean is 7,960,000; its root lies between 2821.3 and 2821.4.
    assert_eq!(stats.std_dev_eps, 2_821_347_195);
    assert_eq!(stats.avg_error_rate, 18_000);
    assert_eq!(stats.max_error_rate, 30_000);

    let empty = TrafficPattern::new().stats();
    assert_eq!(empty.point_count, 0);
    assert_eq!((empty.peak_eps, empty.min_eps, empty.avg_eps), (0, 0, 0));
    assert_eq!(empty.std_dev_eps, 0);

    let single = TrafficPattern::from_points(vec![TrafficPoint::new(0, u64::MAX)]).stats();
    assert_eq!(single.avg_eps, u128::from(u64::MAX) * 1_000_000);
    assert_eq!(single.std_dev_eps, 0);
    assert_eq!((single.peak_eps, single.min_eps), (u64::MAX, u64::MAX));
}

#[test]
fn pattern_accessors() {
    let mut pattern = TrafficPattern::with_name("peak day");
    assert_eq!(pattern.name.as_deref(), Some("peak day"));
    assert!(pattern.is_empty());
    assert_eq!(pattern.time_range(), None);
    assert_eq!(pattern.find_peak_index(), None);
    assert_eq!(pattern.peak_eps(), 0);
    assert_eq!(pattern.average_eps(), 0);
    // Points that are added stay where they are put.
    pattern.add_point(TrafficPoint::new(20, 7));
    pattern.add_point(TrafficPoint::new(10, 7));
    pattern.add_point(TrafficPoint::new(15, 3));
    assert_eq!(pattern.len(), 3);
    assert_eq!(pattern.time_range(), Some((20, 15)));
    // Of equal peaks the last is found.
    assert_eq!(pattern.find_peak_index(), Some(1));
    assert_eq!(pattern.total_events(), 17);
    assert_eq!(pattern.average_eps(), 5_666_666);
}
