//! Traffic patterns: event rates over time.
//!
//! Time stamps are milliseconds since the Unix epoch (UTC). Error rates are
//! counted in millionths, latencies in microseconds.

use vstd::prelude::*;
use crate::order::{
    comes_before, is_stable_order, lemma_order_of_first, lemma_slot_for, lemma_stable_positions,
    order_of_first, slot_for, stable_order, stable_positions,
};
use crate::fixed::{add_capped, capped128, is_sqrt_of, isqrt, mul_capped};
use crate::policy::RATE_ONE;

verus! {

/// One data point of a traffic pattern.
#[derive(Debug, Clone, Copy, PartialEq, Eq, Structural)]
pub struct TrafficPoint {
    /// Time of the data point, in milliseconds since the Unix epoch.
    pub timestamp: i64,
    /// Events per second at this time.
    pub events_per_second: u64,
    /// Share of events that are errors, in millionths.
    pub error_rate: u32,
    /// 99th percentile of the latency, in microseconds.
    pub p99_latency: u64,
}

impl TrafficPoint {
    /// An error rate is a share between 0 and 1.
    pub open spec fn well_formed(self) -> bool {
        self.error_rate <= RATE_ONE
    }

    /// Creates a data point without errors and without latency.
    pub fn new(timestamp: i64, events_per_second: u64) -> (p: Self)
        ensures
            p == (TrafficPoint { timestamp, events_per_second, error_rate: 0, p99_latency: 0 }),
    {
        TrafficPoint { timestamp, events_per_second, error_rate: 0, p99_latency: 0 }
    }

    /// Sets the error rate, in millionths.
    pub fn with_error_rate(self, error_rate: u32) -> (p: Self)
        ensures
            p == (TrafficPoint { error_rate, ..self }),
    {
        TrafficPoint { error_rate, ..self }
    }

    /// Sets the 99th percentile of the latency, in microseconds.
    pub fn with_p99_latency(self, p99_latency: u64) -> (p: Self)
        ensures
            p == (TrafficPoint { p99_latency, ..self }),
    {
        TrafficPoint { p99_latency, ..self }
    }
}

/// The time stamps of the points, as ordering keys.
pub open spec fn timestamps(points: Seq<TrafficPoint>) -> Seq<i128> {
    Seq::new(points.len(), |i: int| points[i].timestamp as i128)
}

/// Whether the points stand in ascending order of time.
pub open spec fn chronological(points: Seq<TrafficPoint>) -> bool {
    forall|i: int, j: int| 0 <= i < j < points.len() ==> points[i].timestamp <= points[j].timestamp
}

/// The points in ascending order of time, points of equal time in the order
/// in which they stood.
pub open spec fn in_time_order(points: Seq<TrafficPoint>) -> Seq<TrafficPoint> {
    let p = stable_positions(timestamps(points));
    Seq::new(points.len(), |i: int| points[p[i] as int])
}

/// The sum of the event rates of the first `n` points.
pub open spec fn sum_eps(points: Seq<TrafficPoint>, n: nat) -> nat
    decreases n,
{
    if n == 0 || n > points.len() {
        0
    } else {
        sum_eps(points, (n - 1) as nat) + points[n - 1].events_per_second as nat
    }
}

/// The highest event rate among the first `n` points, 0 if there is none.
pub open spec fn max_eps(points: Seq<TrafficPoint>, n: nat) -> nat
    decreases n,
{
    if n == 0 || n > points.len() {
        0
    } else {
        let rest = max_eps(points, (n - 1) as nat);
        let here = points[n - 1].events_per_second as nat;
        if here > rest {
            here
        } else {
            rest
        }
    }
}

/// Whether `i` is the last position that holds the highest event rate.
pub open spec fn is_last_peak(points: Seq<TrafficPoint>, i: int) -> bool {
    &&& 0 <= i < points.len()
    &&& forall|j: int|
        0 <= j < points.len() ==> (#[trigger] points[j]).events_per_second
            <= points[i].events_per_second
    &&& forall|j: int|
        i < j < points.len() ==> (#[trigger] points[j]).events_per_second
            < points[i].events_per_second
}

/// The events of `n` points sum to no more than `n` times the largest `u64`.
pub proof fn lemma_sum_eps_bound(points: Seq<TrafficPoint>, n: nat)
    requires
        n <= points.len(),
    ensures
        sum_eps(points, n) <= n * u64::MAX,
    decreases n,
{
    if n > 0 {
        lemma_sum_eps_bound(points, (n - 1) as nat);
        assert((n - 1) * u64::MAX + u64::MAX == n * u64::MAX) by (nonlinear_arith);
    }
}

/// The peak over the first `n` points bounds each of them, and one of them
/// reaches it.
pub proof fn lemma_max_eps(points: Seq<TrafficPoint>, n: nat)
    requires
        n <= points.len(),
    ensures
        max_eps(points, n) <= u64::MAX,
        forall|j: int| 0 <= j < n ==> (#[trigger] points[j]).events_per_second <= max_eps(points, n),
        n > 0 ==> exists|j: int| 0 <= j < n && (#[trigger] points[j]).events_per_second == max_eps(points, n),
    decreases n,
{
    if n > 0 {
        lemma_max_eps(points, (n - 1) as nat);
        if n > 1 {
            let j = choose|j: int|
                0 <= j < n - 1 && (#[trigger] points[j]).events_per_second == max_eps(
                    points,
                    (n - 1) as nat,
                );
            if points[n - 1].events_per_second as nat > max_eps(points, (n - 1) as nat) {
                assert(points[n - 1].events_per_second == max_eps(points, n));
            } else {
                assert(points[j].events_per_second == max_eps(points, n));
            }
        } else {
            assert(points[0].events_per_second == max_eps(points, n));
        }
    }
}

/// A time series of traffic.
#[derive(Debug, Clone)]
pub struct TrafficPattern {
    /// The data points.
    pub points: Vec<TrafficPoint>,
    /// Optional name or description.
    pub name: Option<String>,
}

impl View for TrafficPattern {
    type V = Seq<TrafficPoint>;

    open spec fn view(&self) -> Seq<TrafficPoint> {
        self.points@
    }
}

impl TrafficPattern {
    /// Every error rate is a share between 0 and 1.
    pub open spec fn well_formed(&self) -> bool {
        forall|i: int| 0 <= i < self@.len() ==> (#[trigger] self@[i]).well_formed()
    }

    /// Creates an empty pattern without a name.
    pub fn new() -> (p: Self)
        ensures
            p@.len() == 0,
            p.name is None,
    {
        TrafficPattern { points: Vec::new(), name: None }
    }

    /// Creates an empty pattern with a name.
    pub fn with_name(name: &str) -> (p: Self)
        ensures
            p@.len() == 0,
            p.name is Some,
            p.name->0@ == name@,
    {
        TrafficPattern { points: Vec::new(), name: Some(name.to_owned()) }
    }

    /// Appends a data point.
    pub fn add_point(&mut self, point: TrafficPoint)
        ensures
            final(self)@ == old(self)@.push(point),
            final(self).name == old(self).name,
    {
        self.points.push(point);
    }

    /// The data points.
    pub fn points(&self) -> (r: &[TrafficPoint])
        ensures
            r@ == self@,
    {
        self.points.as_slice()
    }

    /// The number of data points.
    pub fn len(&self) -> (n: usize)
        ensures
            n == self@.len(),
    {
        self.points.len()
    }

    /// Whether the pattern holds no data point.
    pub fn is_empty(&self) -> (r: bool)
        ensures
            r == (self@.len() == 0),
    {
        self.points.len() == 0
    }

    /// The time stamps of the first and of the last data point.
    pub fn time_range(&self) -> (r: Option<(i64, i64)>)
        ensures
            self@.len() == 0 ==> r is None,
            self@.len() > 0 ==> r == Some((self@.first().timestamp, self@.last().timestamp)),
    {
        let n = self.points.len();
        if n == 0 {
            return None;
        }
        Some((self.points[0].timestamp, self.points[n - 1].timestamp))
    }

    /// The highest event rate, 0 for an empty pattern.
    pub fn peak_eps(&self) -> (r: u64)
        ensures
            r == max_eps(self@, self@.len()),
    {
        let mut peak: u64 = 0;
        let mut i: usize = 0;
        while i < self.points.len()
            invariant
                i <= self.points@.len(),
                peak == max_eps(self.points@, i as nat),
            decreases self.points.len() - i,
        {
            if self.points[i].events_per_second > peak {
                peak = self.points[i].events_per_second;
            }
            i += 1;
        }
        peak
    }

    /// The sum of the event rates: the number of events if each point stands
    /// for one second.
    pub fn total_events(&self) -> (r: u128)
        ensures
            r == sum_eps(self@, self@.len()),
    {
        let mut sum: u128 = 0;
        let mut i: usize = 0;
        while i < self.points.len()
            invariant
                i <= self.points@.len(),
                sum == sum_eps(self.points@, i as nat),
            decreases self.points.len() - i,
        {
            proof {
                lemma_sum_eps_bound(self.points@, i as nat);
                assert(i * u64::MAX + u64::MAX <= u128::MAX) by (nonlinear_arith)
                    requires
                        i <= usize::MAX,
                ;
            }
            sum = sum + self.points[i].events_per_second as u128;
            i += 1;
        }
        sum
    }

    /// The mean event rate in millionths of an event per second, rounded
    /// down; 0 for an empty pattern.
    pub fn average_eps(&self) -> (r: u128)
        ensures
            self@.len() == 0 ==> r == 0,
            self@.len() > 0 ==> r == (sum_eps(self@, self@.len()) * 1_000_000) / self@.len(),
    {
        let n = self.points.len();
        if n == 0 {
            return 0;
        }
        let sum = self.total_events();
        let n128: u128 = n as u128;
        let q = sum / n128;
        let rem = sum % n128;
        proof {
            lemma_sum_eps_bound(self.points@, n as nat);
            assert(q <= u64::MAX) by (nonlinear_arith)
                requires
                    sum <= n128 * u64::MAX,
                    n128 > 0,
                    q == sum / n128,
            ;
            assert((sum * 1_000_000) / (n128 as int) == q * 1_000_000 + (rem * 1_000_000) / (
            n128 as int)) by (nonlinear_arith)
                requires
                    n128 > 0,
                    q == sum / n128,
                    rem == sum % n128,
            ;
        }
        q * 1_000_000 + (rem * 1_000_000) / n128
    }

    /// Creates a pattern from data points, put in ascending order of time;
    /// points of equal time keep their order.
    pub fn from_points(points: Vec<TrafficPoint>) -> (p: Self)
        ensures
            p@ == in_time_order(points@),
            chronological(p@),
            p@.to_multiset() == points@.to_multiset(),
            p.name is None,
    {
        let n = points.len();
        let mut keys: Vec<i128> = Vec::new();
        let mut i: usize = 0;
        while i < n
            invariant
                n == points@.len(),
                i <= n,
                keys@ == timestamps(points@).subrange(0, i as int),
            decreases n - i,
        {
            keys.push(points[i].timestamp as i128);
            assert(keys@ == timestamps(points@).subrange(0, i as int + 1));
            i += 1;
        }
        assert(keys@ == timestamps(points@));
        let order = stable_order(&keys);
        let mut sorted: Vec<TrafficPoint> = Vec::new();
        let mut k: usize = 0;
        while k < n
            invariant
                n == points@.len(),
                k <= n,
                order@ == stable_positions(timestamps(points@)),
                is_stable_order(timestamps(points@), order@),
                sorted@ == in_time_order(points@).subrange(0, k as int),
            decreases n - k,
        {
            sorted.push(points[order[k]]);
            assert(sorted@ == in_time_order(points@).subrange(0, k as int + 1));
            k += 1;
        }
        assert(sorted@ == in_time_order(points@));
        proof {
            lemma_time_order(points@);
        }
        TrafficPattern { points: sorted, name: None }
    }

    /// The position of the highest event rate; among equal rates the last.
    pub fn find_peak_index(&self) -> (r: Option<usize>)
        ensures
            self@.len() == 0 ==> r is None,
            self@.len() > 0 ==> r is Some && is_last_peak(self@, r->0 as int),
    {
        let n = self.points.len();
        if n == 0 {
            return None;
        }
        let mut best: usize = 0;
        let mut i: usize = 1;
        while i < n
            invariant
                n == self.points@.len(),
                1 <= i <= n,
                best < i,
                forall|j: int|
                    0 <= j < i ==> (#[trigger] self.points@[j]).events_per_second
                        <= self.points@[best as int].events_per_second,
                forall|j: int|
                    best < j < i ==> (#[trigger] self.points@[j]).events_per_second
                        < self.points@[best as int].events_per_second,
            decreases n - i,
        {
            if self.points[i].events_per_second >= self.points[best].events_per_second {
                best = i;
            }
            i += 1;
        }
        Some(best)
    }
}

/// Statistics of a traffic pattern. Rates that are means carry six
/// decimals.
#[derive(Debug, Clone, Copy, PartialEq, Eq, Structural)]
pub struct TrafficStats {
    /// Number of data points.
    pub point_count: usize,
    /// Highest event rate, in events per second.
    pub peak_eps: u64,
    /// Lowest event rate, in events per second.
    pub min_eps: u64,
    /// Mean event rate, in millionths of an event per second, rounded down.
    pub avg_eps: u128,
    /// Standard deviation of the event rate, in millionths, rounded down.
    pub std_dev_eps: u64,
    /// Mean error rate, in millionths, rounded down.
    pub avg_error_rate: u32,
    /// Highest error rate, in millionths.
    pub max_error_rate: u32,
    /// The sum of the event rates.
    pub total_events: u128,
}

/// The lowest event rate among the first `n` points; the highest number
/// if none.
pub open spec fn min_eps(points: Seq<TrafficPoint>, n: nat) -> u64
    decreases n,
{
    if n == 0 || n > points.len() {
        u64::MAX
    } else {
        let rest = min_eps(points, (n - 1) as nat);
        if points[n - 1].events_per_second < rest {
            points[n - 1].events_per_second
        } else {
            rest
        }
    }
}

/// The sum of the error rates of the first `n` points.
pub open spec fn sum_error_rates(points: Seq<TrafficPoint>, n: nat) -> nat
    decreases n,
{
    if n == 0 || n > points.len() {
        0
    } else {
        sum_error_rates(points, (n - 1) as nat) + points[n - 1].error_rate as nat
    }
}

/// The highest error rate among the first `n` points, 0 if none.
pub open spec fn max_error_rate(points: Seq<TrafficPoint>, n: nat) -> u32
    decreases n,
{
    if n == 0 || n > points.len() {
        0
    } else {
        let rest = max_error_rate(points, (n - 1) as nat);
        if points[n - 1].error_rate > rest {
            points[n - 1].error_rate
        } else {
            rest
        }
    }
}

/// The distance of an event rate from a mean in millionths.
pub open spec fn eps_distance(eps: u64, mean: u128) -> nat {
    let scaled = eps as nat * 1_000_000;
    if scaled >= mean {
        (scaled - mean) as nat
    } else {
        (mean - scaled) as nat
    }
}

/// The squared distances of the first `n` event rates from a mean,
/// together.
pub open spec fn squared_eps_deviations(points: Seq<TrafficPoint>, mean: u128, n: nat) -> nat
    decreases n,
{
    if n == 0 || n > points.len() {
        0
    } else {
        squared_eps_deviations(points, mean, (n - 1) as nat) + eps_distance(
            points[n - 1].events_per_second,
            mean,
        ) * eps_distance(points[n - 1].events_per_second, mean)
    }
}

/// The statistics of an empty pattern.
pub open spec fn empty_stats() -> TrafficStats {
    TrafficStats {
        point_count: 0,
        peak_eps: 0,
        min_eps: 0,
        avg_eps: 0,
        std_dev_eps: 0,
        avg_error_rate: 0,
        max_error_rate: 0,
        total_events: 0,
    }
}

/// Whether `stats` are the statistics of the points: the standard
/// deviation is the square root of the mean squared distance from the mean
/// rate, rounded down, where the sum of the squares is capped at the
/// highest 128-bit number.
pub open spec fn describes(stats: TrafficStats, points: Seq<TrafficPoint>) -> bool {
    let n = points.len();
    if n == 0 {
        stats == empty_stats()
    } else {
        let mean = ((sum_eps(points, n) * 1_000_000) / n) as u128;
        &&& stats.point_count == n
        &&& stats.peak_eps == max_eps(points, n)
        &&& stats.min_eps == min_eps(points, n)
        &&& stats.avg_eps == mean
        &&& is_sqrt_of(
            stats.std_dev_eps as nat,
            (capped128(squared_eps_deviations(points, mean, n)) / (n as u128)) as nat,
        )
        &&& stats.avg_error_rate == sum_error_rates(points, n) / n
        &&& stats.max_error_rate == max_error_rate(points, n)
        &&& stats.total_events == sum_eps(points, n)
    }
}

/// The error rates of `n` points sum to no more than `n` times the largest
/// `u32`.
pub proof fn lemma_error_rates_bound(points: Seq<TrafficPoint>, n: nat)
    requires
        n <= points.len(),
    ensures
        sum_error_rates(points, n) <= n * u32::MAX,
    decreases n,
{
    if n > 0 {
        lemma_error_rates_bound(points, (n - 1) as nat);
        assert((n - 1) * u32::MAX + u32::MAX == n * u32::MAX) by (nonlinear_arith);
    }
}

impl TrafficPattern {
    /// Statistics of the pattern.
    pub fn stats(&self) -> (r: TrafficStats)
        ensures
            describes(r, self@),
    {
        let n = self.points.len();
        if n == 0 {
            return TrafficStats::default();
        }
        let total_events = self.total_events();
        let avg_eps = self.average_eps();
        let peak_eps = self.peak_eps();
        let mut lowest: u64 = u64::MAX;
        let mut rate_sum: u128 = 0;
        let mut rate_max: u32 = 0;
        let mut squares: u128 = 0;
        let mut i: usize = 0;
        while i < n
            invariant
                n == self.points@.len(),
                i <= n,
                lowest == min_eps(self.points@, i as nat),
                rate_sum == sum_error_rates(self.points@, i as nat),
                rate_max == max_error_rate(self.points@, i as nat),
                squares == capped128(squared_eps_deviations(self.points@, avg_eps, i as nat)),
            decreases n - i,
        {
            let p = &self.points[i];
            if p.events_per_second < lowest {
                lowest = p.events_per_second;
            }
            proof {
                lemma_error_rates_bound(self.points@, i as nat);
                assert(i * u32::MAX + u32::MAX <= u128::MAX) by (nonlinear_arith)
                    requires
                        i <= usize::MAX,
                ;
            }
            rate_sum = rate_sum + p.error_rate as u128;
            if p.error_rate > rate_max {
                rate_max = p.error_rate;
            }
            let scaled: u128 = p.events_per_second as u128 * 1_000_000;
            let d: u128 = if scaled >= avg_eps {
                scaled - avg_eps
            } else {
                avg_eps - scaled
            };
            squares = add_capped(squares, mul_capped(d, d));
            i += 1;
        }
        proof {
            lemma_error_rates_bound(self.points@, n as nat);
            assert(rate_sum / (n as u128) <= u32::MAX) by (nonlinear_arith)
                requires
                    rate_sum <= n * u32::MAX,
                    n > 0,
            ;
        }
        let variance: u128 = squares / (n as u128);
        TrafficStats {
            point_count: n,
            peak_eps,
            min_eps: lowest,
            avg_eps,
            std_dev_eps: isqrt(variance),
            avg_error_rate: (rate_sum / (n as u128)) as u32,
            max_error_rate: rate_max,
            total_events,
        }
    }
}

/// Putting points in time order rearranges them, loses none, and leaves
/// them chronological.
pub proof fn lemma_time_order(points: Seq<TrafficPoint>)
    requires
        points.len() <= usize::MAX,
    ensures
        chronological(in_time_order(points)),
        in_time_order(points).to_multiset() == points.to_multiset(),
{
    let keys = timestamps(points);
    let p = stable_positions(keys);
    lemma_stable_positions(keys);
    let out = in_time_order(points);
    assert forall|i: int, j: int| 0 <= i < j < out.len() implies out[i].timestamp
        <= out[j].timestamp by {
        assert(comes_before(keys, p[i] as int, p[j] as int));
    }
    lemma_order_keeps_points(points, points.len());
    assert(out == Seq::new(points.len(), |i: int| points[p[i] as int]));
    assert(points.subrange(0, points.len() as int) == points);
}

/// Reading the first `n` points in their stable order loses none of them.
pub proof fn lemma_order_keeps_points(points: Seq<TrafficPoint>, n: nat)
    requires
        n <= points.len(),
        points.len() <= usize::MAX,
    ensures
        Seq::new(n, |i: int| points[order_of_first(timestamps(points), n)[i] as int]).to_multiset()
            == points.subrange(0, n as int).to_multiset(),
    decreases n,
{
    broadcast use vstd::seq_lib::group_to_multiset_ensures;

    let keys = timestamps(points);
    let p = order_of_first(keys, n);
    let out = Seq::new(n, |i: int| points[p[i] as int]);
    if n == 0 {
        assert(out == points.subrange(0, 0));
    } else {
        let m = (n - 1) as nat;
        let before = order_of_first(keys, m);
        let prev = Seq::new(m, |i: int| points[before[i] as int]);
        lemma_order_keeps_points(points, m);
        lemma_order_of_first(keys, m);
        lemma_order_of_first(keys, n);
        lemma_slot_for(keys, before, n - 1);
        let pos = slot_for(keys, before, n - 1);
        assert(p == before.insert(pos, m as usize));
        assert(out == prev.insert(pos, points[n - 1]));
        vstd::seq_lib::to_multiset_insert(prev, pos, points[n - 1]);
        assert(points.subrange(0, n as int) == points.subrange(0, m as int).push(points[n - 1]));
    }
}

impl Default for TrafficPattern {
    /// The empty pattern without a name.
    fn default() -> (p: Self)
        ensures
            p@.len() == 0,
            p.name is None,
    {
        TrafficPattern::new()
    }
}

impl Default for TrafficStats {
    /// The statistics of no points: nothing but zeros.
    fn default() -> (s: Self)
        ensures
            s == (TrafficStats {
                point_count: 0,
                peak_eps: 0,
                min_eps: 0,
                avg_eps: 0,
                std_dev_eps: 0,
                avg_error_rate: 0,
                max_error_rate: 0,
                total_events: 0,
            }),
    {
        TrafficStats {
            point_count: 0,
            peak_eps: 0,
            min_eps: 0,
            avg_eps: 0,
            std_dev_eps: 0,
            avg_error_rate: 0,
            max_error_rate: 0,
            total_events: 0,
        }
    }
}

} // verus!
