//! Reservoir sampling: a sample of bounded size from a stream of traces.
//!
//! Three strategies are offered: uniform sampling by Algorithm R, sampling
//! by strata that set room aside for errors and slow traces, and sampling
//! that favours recent traces. All randomness comes from one seeded
//! stream, so that equal seeds and equal inputs give equal samples.

use std::time::Duration;
use vstd::arithmetic::power2::{lemma2_to64, lemma_pow2_unfold, pow2};
use vstd::prelude::*;
use crate::rng::{
    after_bits, chacha8_below, chacha8_next, chacha8_position_after_below, draw_below, draw_bits,
    two_words_on,
};
use crate::time::nanos_of;
use crate::trace::Trace;

verus! {

/// Sampling strategy of a reservoir.
#[derive(Debug, Clone, Copy, PartialEq, Eq, Structural)]
pub enum SamplingStrategy {
    /// Uniform random sampling (Algorithm R).
    Uniform,
    /// Sampling by strata that preserve errors and slow traces.
    Stratified,
    /// Sampling that favours recent traces.
    TimeDecay,
}

impl Default for SamplingStrategy {
    fn default() -> (s: Self)
        ensures
            s == SamplingStrategy::Uniform,
    {
        SamplingStrategy::Uniform
    }
}

/// Configuration of a reservoir.
#[derive(Debug, Clone, Copy)]
pub struct ReservoirConfig {
    /// Highest number of traces to keep.
    pub max_size: usize,
    /// Sampling strategy.
    pub strategy: SamplingStrategy,
    /// Whether errors get a stratum of their own.
    pub preserve_errors: bool,
    /// From which duration on a trace counts as slow.
    pub slow_threshold: Option<Duration>,
    /// Half-life of the weight of a trace, in nanoseconds.
    pub decay_half_life_ns: Option<u64>,
    /// Seed of the random stream.
    pub seed: u64,
}

impl ReservoirConfig {
    /// Creates a configuration for uniform sampling with seed 0.
    pub fn new(max_size: usize) -> (c: Self)
        ensures
            c == (ReservoirConfig {
                max_size,
                strategy: SamplingStrategy::Uniform,
                preserve_errors: false,
                slow_threshold: None,
                decay_half_life_ns: None,
                seed: 0,
            }),
    {
        ReservoirConfig {
            max_size,
            strategy: SamplingStrategy::Uniform,
            preserve_errors: false,
            slow_threshold: None,
            decay_half_life_ns: None,
            seed: 0,
        }
    }

    /// Sets the sampling strategy.
    pub fn with_strategy(self, strategy: SamplingStrategy) -> (c: Self)
        ensures
            c == (ReservoirConfig { strategy, ..self }),
    {
        ReservoirConfig { strategy, ..self }
    }

    /// Sets whether errors get a stratum of their own.
    pub fn with_preserve_errors(self, preserve: bool) -> (c: Self)
        ensures
            c == (ReservoirConfig { preserve_errors: preserve, ..self }),
    {
        ReservoirConfig { preserve_errors: preserve, ..self }
    }

    /// Sets the duration from which on a trace counts as slow.
    pub fn with_slow_threshold(self, threshold: Duration) -> (c: Self)
        ensures
            c == (ReservoirConfig { slow_threshold: Some(threshold), ..self }),
    {
        ReservoirConfig { slow_threshold: Some(threshold), ..self }
    }

    /// Sets the half-life of time decay; of its nanoseconds the lowest 64
    /// bits count.
    pub fn with_decay_half_life(self, half_life: Duration) -> (c: Self)
        ensures
            c == (ReservoirConfig {
                decay_half_life_ns: Some(
                    (nanos_of(half_life) % 0x1_0000_0000_0000_0000) as u64,
                ),
                ..self
            }),
    {
        let nanos = half_life.as_nanos();
        ReservoirConfig {
            decay_half_life_ns: Some((nanos % 0x1_0000_0000_0000_0000) as u64),
            ..self
        }
    }

    /// Sets the seed of the random stream.
    pub fn with_seed(self, seed: u64) -> (c: Self)
        ensures
            c == (ReservoirConfig { seed, ..self }),
    {
        ReservoirConfig { seed, ..self }
    }
}

impl Default for ReservoirConfig {
    fn default() -> (c: Self)
        ensures
            c == (ReservoirConfig {
                max_size: 10_000,
                strategy: SamplingStrategy::Uniform,
                preserve_errors: false,
                slow_threshold: None,
                decay_half_life_ns: None,
                seed: 0,
            }),
    {
        ReservoirConfig {
            max_size: 10_000,
            strategy: SamplingStrategy::Uniform,
            preserve_errors: false,
            slow_threshold: None,
            decay_half_life_ns: None,
            seed: 0,
        }
    }
}

/// Why a trace was evicted.
#[derive(Debug, Clone, Copy, PartialEq, Eq, Structural)]
pub enum EvictionReason {
    /// Random eviction (Algorithm R).
    RandomSample,
    /// Eviction by time decay.
    TimeDecay,
    /// Rebalancing of a stratum.
    StratifiedRebalance,
}

/// An eviction: one trace left the reservoir, another took its place.
#[derive(Debug, Clone)]
pub struct EvictionEvent {
    /// The trace that was evicted.
    pub evicted_trace_id: String,
    /// The trace that replaced it.
    pub replacement_trace_id: String,
    /// Why the trace was evicted.
    pub reason: EvictionReason,
    /// Size of the reservoir after the eviction.
    pub reservoir_size: usize,
    /// Traces seen so far.
    pub total_seen: u64,
}

/// An eviction, by what it says.
pub struct EvictionText {
    pub evicted_trace_id: Seq<char>,
    pub replacement_trace_id: Seq<char>,
    pub reason: EvictionReason,
    pub reservoir_size: usize,
    pub total_seen: u64,
}

impl View for EvictionEvent {
    type V = EvictionText;

    open spec fn view(&self) -> EvictionText {
        EvictionText {
            evicted_trace_id: self.evicted_trace_id@,
            replacement_trace_id: self.replacement_trace_id@,
            reason: self.reason,
            reservoir_size: self.reservoir_size,
            total_seen: self.total_seen,
        }
    }
}

/// Statistics of a reservoir.
#[derive(Debug, Clone, Copy, PartialEq, Eq, Structural)]
pub struct ReservoirStats {
    /// Traces seen.
    pub total_seen: u64,
    /// Traces in the reservoir.
    pub current_size: usize,
    /// Error traces in the reservoir.
    pub error_count: usize,
    /// Slow traces in the reservoir.
    pub slow_count: usize,
    /// Evictions made.
    pub eviction_count: u64,
}

/// A reservoir: a sample of bounded size from the traces that were added.
#[derive(Debug)]
pub struct Reservoir {
    /// The configuration.
    pub config: ReservoirConfig,
    /// The sample; with strata, the stratum of normal traces.
    pub traces: Vec<Trace>,
    /// The stratum of error traces.
    pub error_stratum: Vec<Trace>,
    /// The stratum of slow traces.
    pub slow_stratum: Vec<Trace>,
    /// Traces seen.
    pub total_seen: u64,
    /// Traces seen by the stratum of normal traces.
    pub normal_seen: u64,
    /// Traces seen by the stratum of error traces.
    pub error_seen: u64,
    /// Traces seen by the stratum of slow traces.
    pub slow_seen: u64,
    /// Evictions made.
    pub eviction_count: u64,
    /// Position in the random stream, in 32-bit words.
    pub stream_position: u128,
}

/// The state of a reservoir.
pub struct ReservoirState {
    pub config: ReservoirConfig,
    pub traces: Seq<Trace>,
    pub error_stratum: Seq<Trace>,
    pub slow_stratum: Seq<Trace>,
    pub total_seen: u64,
    pub normal_seen: u64,
    pub error_seen: u64,
    pub slow_seen: u64,
    pub eviction_count: u64,
    pub stream_position: u128,
}

impl View for Reservoir {
    type V = ReservoirState;

    open spec fn view(&self) -> ReservoirState {
        ReservoirState {
            config: self.config,
            traces: self.traces@,
            error_stratum: self.error_stratum@,
            slow_stratum: self.slow_stratum@,
            total_seen: self.total_seen,
            normal_seen: self.normal_seen,
            error_seen: self.error_seen,
            slow_seen: self.slow_seen,
            eviction_count: self.eviction_count,
            stream_position: self.stream_position,
        }
    }
}

/// The room of the error stratum: a fifth of the capacity.
pub open spec fn error_capacity(max_size: usize) -> usize {
    (max_size / 5) as usize
}

/// The room of the slow stratum: a tenth of the capacity.
pub open spec fn slow_capacity(max_size: usize) -> usize {
    (max_size / 10) as usize
}

/// The room of the stratum of normal traces: what the others leave.
pub open spec fn normal_capacity(max_size: usize) -> usize {
    (max_size - max_size / 5 - max_size / 10) as usize
}

/// What one step of a reservoir yields: the new state, and the eviction
/// if there was one.
pub struct Step {
    pub state: ReservoirState,
    pub event: Option<EvictionText>,
}

impl ReservoirState {
    /// The number of traces in the reservoir.
    pub open spec fn size(self) -> nat {
        match self.config.strategy {
            SamplingStrategy::Stratified => self.traces.len() + self.error_stratum.len()
                + self.slow_stratum.len(),
            _ => self.traces.len(),
        }
    }

    /// The state is sound: no part of the sample holds more than its room,
    /// and no more was evicted than seen.
    pub open spec fn well_formed(self) -> bool {
        &&& self.eviction_count <= self.total_seen
        &&& self.normal_seen <= self.total_seen
        &&& self.error_seen <= self.total_seen
        &&& self.slow_seen <= self.total_seen
        &&& match self.config.strategy {
            SamplingStrategy::Stratified => {
                &&& self.traces.len() <= normal_capacity(self.config.max_size)
                &&& self.error_stratum.len() <= error_capacity(self.config.max_size)
                &&& self.slow_stratum.len() <= slow_capacity(self.config.max_size)
            },
            _ => {
                &&& self.traces.len() <= self.config.max_size
                &&& self.error_stratum.len() == 0
                &&& self.slow_stratum.len() == 0
            },
        }
    }
}

/// The state of a new reservoir.
pub open spec fn initial_state(config: ReservoirConfig) -> ReservoirState {
    ReservoirState {
        config,
        traces: Seq::empty(),
        error_stratum: Seq::empty(),
        slow_stratum: Seq::empty(),
        total_seen: 0,
        normal_seen: 0,
        error_seen: 0,
        slow_seen: 0,
        eviction_count: 0,
        stream_position: 0,
    }
}

/// What Algorithm R does with a trace that arrives at a part of the sample
/// with room for `capacity` traces, as the `seen`-th trace of that part:
/// while there is room the trace is appended; else a slot is drawn from all
/// `seen` traces, and if the slot lies in the sample, the trace takes it.
pub struct Placement {
    pub sample: Seq<Trace>,
    pub evicted: Option<Seq<char>>,
    pub stream_position: u128,
}

/// See [`Placement`].
pub open spec fn placed(
    sample: Seq<Trace>,
    capacity: usize,
    seen: u64,
    seed: u64,
    position: u128,
    trace: Trace,
) -> Placement {
    if sample.len() < capacity {
        Placement { sample: sample.push(trace), evicted: None, stream_position: position }
    } else {
        let slot = chacha8_below(seed, position, seen);
        let after = chacha8_position_after_below(seed, position, seen);
        if slot < capacity && slot < sample.len() {
            Placement {
                sample: sample.update(slot as int, trace),
                evicted: Some(sample[slot as int].trace_id@),
                stream_position: after,
            }
        } else {
            Placement { sample, evicted: None, stream_position: after }
        }
    }
}

/// Whether a trace counts as slow under a configuration.
pub open spec fn is_slow(config: ReservoirConfig, trace: Trace) -> bool {
    config.slow_threshold is Some && nanos_of(trace.duration) >= nanos_of(config.slow_threshold->0)
}

/// `v + 1` as a count of 64 bits.
pub open spec fn next_count(v: u64) -> u64 {
    (v + 1) as u64
}

/// The step of uniform sampling.
pub open spec fn uniform_step(s: ReservoirState, trace: Trace) -> Step {
    let seen = next_count(s.total_seen);
    let p = placed(s.traces, s.config.max_size, seen, s.config.seed, s.stream_position, trace);
    Step {
        state: ReservoirState {
            traces: p.sample,
            total_seen: seen,
            eviction_count: if p.evicted is Some {
                next_count(s.eviction_count)
            } else {
                s.eviction_count
            },
            stream_position: p.stream_position,
            ..s
        },
        event: match p.evicted {
            Some(evicted) => Some(
                EvictionText {
                    evicted_trace_id: evicted,
                    replacement_trace_id: trace.trace_id@,
                    reason: EvictionReason::RandomSample,
                    reservoir_size: p.sample.len() as usize,
                    total_seen: seen,
                },
            ),
            None => None,
        },
    }
}

/// The step of stratified sampling: an error goes to the error stratum if
/// errors are preserved, else a slow trace to the slow stratum, any other
/// trace to the stratum of normal traces. Each stratum is sampled by
/// Algorithm R over the traces that it has seen itself.
pub open spec fn stratified_step(s: ReservoirState, trace: Trace) -> Step {
    let seen = next_count(s.total_seen);
    let max_size = s.config.max_size;
    if trace.is_error && s.config.preserve_errors {
        let stratum_seen = next_count(s.error_seen);
        let p = placed(
            s.error_stratum,
            error_capacity(max_size),
            stratum_seen,
            s.config.seed,
            s.stream_position,
            trace,
        );
        stratum_outcome(
            ReservoirState { error_stratum: p.sample, error_seen: stratum_seen, ..s },
            p,
            trace,
            EvictionReason::StratifiedRebalance,
        )
    } else if is_slow(s.config, trace) {
        let stratum_seen = next_count(s.slow_seen);
        let p = placed(
            s.slow_stratum,
            slow_capacity(max_size),
            stratum_seen,
            s.config.seed,
            s.stream_position,
            trace,
        );
        stratum_outcome(
            ReservoirState { slow_stratum: p.sample, slow_seen: stratum_seen, ..s },
            p,
            trace,
            EvictionReason::StratifiedRebalance,
        )
    } else {
        let stratum_seen = next_count(s.normal_seen);
        let p = placed(
            s.traces,
            normal_capacity(max_size),
            stratum_seen,
            s.config.seed,
            s.stream_position,
            trace,
        );
        stratum_outcome(
            ReservoirState { traces: p.sample, normal_seen: stratum_seen, ..s },
            p,
            trace,
            EvictionReason::RandomSample,
        )
    }
}

/// The step that follows from a placement in a stratum; `s` holds the
/// stratum as the placement left it.
pub open spec fn stratum_outcome(
    s: ReservoirState,
    p: Placement,
    trace: Trace,
    reason: EvictionReason,
) -> Step {
    let seen = next_count(s.total_seen);
    let state = ReservoirState {
        total_seen: seen,
        eviction_count: if p.evicted is Some {
            next_count(s.eviction_count)
        } else {
            s.eviction_count
        },
        stream_position: p.stream_position,
        ..s
    };
    Step {
        state,
        event: match p.evicted {
            Some(evicted) => Some(
                EvictionText {
                    evicted_trace_id: evicted,
                    replacement_trace_id: trace.trace_id@,
                    reason,
                    reservoir_size: state.size() as usize,
                    total_seen: seen,
                },
            ),
            None => None,
        },
    }
}

/// The weight 1 in the fixed-point form of weights: 32 binary places.
pub open spec fn weight_one() -> nat {
    0x1_0000_0000
}

/// `base` halved `times` times, each time rounded down.
pub open spec fn halved(base: nat, times: nat) -> nat
    decreases times,
{
    if times == 0 {
        base
    } else {
        halved(base / 2, (times - 1) as nat)
    }
}

/// The weight of a trace of the given age under a half-life: 1 for age 0,
/// halved with each half-life, and between whole half-lives on the straight
/// line between the weights at either end; in fixed-point form, rounded
/// down. With half-life 0 every trace of an age above 0 weighs nothing.
pub open spec fn decay_weight(age: u64, half_life: u64) -> nat {
    if half_life == 0 {
        if age > 0 {
            0
        } else {
            weight_one()
        }
    } else {
        let whole = (age / half_life) as nat;
        let part = (age % half_life) as nat;
        let base = if whole > 32 {
            0
        } else {
            halved(weight_one(), whole)
        };
        (base - (base * part) / (2 * half_life as nat)) as nat
    }
}

/// Halving once more halves what the halvings before have left.
pub proof fn lemma_halved_step(base: nat, times: nat)
    ensures
        halved(base, times + 1) == halved(base, times) / 2,
    decreases times,
{
    assert(halved(base, times + 1) == halved(base / 2, times));
    if times > 0 {
        assert(halved(base, times) == halved(base / 2, (times - 1) as nat));
        lemma_halved_step(base / 2, (times - 1) as nat);
    } else {
        assert(halved(base / 2, 0) == base / 2);
        assert(halved(base, 0) == base);
    }
}

/// More halvings leave no more.
pub proof fn lemma_halved_falls(base: nat, fewer: nat, more: nat)
    requires
        fewer <= more,
    ensures
        halved(base, more) <= halved(base, fewer),
    decreases more - fewer,
{
    if fewer < more {
        lemma_halved_falls(base, fewer, (more - 1) as nat);
        lemma_halved_step(base, (more - 1) as nat);
    }
}

/// A power of two halved `times` times is the power of two that many
/// places lower.
pub proof fn lemma_halved_power(places: nat, times: nat)
    requires
        times <= places,
    ensures
        halved(pow2(places), times) == pow2((places - times) as nat),
    decreases times,
{
    if times > 0 {
        lemma_pow2_unfold(places);
        assert(pow2(places) / 2 == pow2((places - 1) as nat));
        lemma_halved_power((places - 1) as nat, (times - 1) as nat);
    }
}

/// The weight of time decay goes with the exponential
/// `2^(-age / half_life)` where the two can be held together: a trace of
/// age 0 weighs 1; after `k` whole half-lives, up to 32, a trace weighs
/// exactly `2^(-k)`, in fixed-point form `2^(32 - k)`; and the weight never
/// rises with age, so that between two whole half-lives it lies between
/// the weights at either end.
pub proof fn decay_halves_and_never_rises(age: u64, older: u64, k: nat, half_life: u64)
    requires
        age <= older,
    ensures
        decay_weight(0, half_life) == weight_one(),
        decay_weight(older, half_life) <= decay_weight(age, half_life),
        decay_weight(age, half_life) <= weight_one(),
        half_life > 0 && k <= 32 && k * half_life <= u64::MAX ==> decay_weight(
            (k * half_life) as u64,
            half_life,
        ) == pow2((32 - k) as nat),
        half_life > 0 && k < 32 && (k + 1) * half_life <= u64::MAX ==> 2 * decay_weight(
            ((k + 1) * half_life) as u64,
            half_life,
        ) == decay_weight((k * half_life) as u64, half_life),
{
    lemma2_to64();
    assert(weight_one() == pow2(32));
    if half_life > 0 {
        let h = half_life as nat;
        lemma_weight_at_most_base(age, half_life);
        lemma_weight_at_most_base(older, half_life);
        lemma_halved_falls(weight_one(), 0, (age / half_life) as nat);
        lemma_weight_falls(age, older, half_life);
        assert(0 * h == 0) by (nonlinear_arith);
        lemma_weight_at_whole(0, half_life);
        if k <= 32 && k * h <= u64::MAX {
            lemma_weight_at_whole(k, half_life);
        }
        if k < 32 && (k + 1) * h <= u64::MAX {
            assert(k * h <= (k + 1) * h) by (nonlinear_arith);
            lemma_weight_at_whole(k, half_life);
            lemma_weight_at_whole(k + 1, half_life);
            lemma_pow2_unfold((32 - k) as nat);
        }
    }
}

/// The base of a weight: what the whole half-lives of an age leave of 1.
pub open spec fn decay_base(age: u64, half_life: u64) -> nat {
    if (age / half_life) as nat > 32 {
        0
    } else {
        halved(weight_one(), (age / half_life) as nat)
    }
}

/// A weight lies between half its base and its base.
pub proof fn lemma_weight_at_most_base(age: u64, half_life: u64)
    requires
        half_life > 0,
    ensures
        decay_weight(age, half_life) <= decay_base(age, half_life),
        decay_base(age, half_life) / 2 <= decay_weight(age, half_life),
{
    let base = decay_base(age, half_life);
    let h = half_life as nat;
    let part = (age % half_life) as nat;
    assert(part < h);
    assert((base * part) / (2 * h) <= base / 2) by (nonlinear_arith)
        requires
            part < h,
            h > 0,
    ;
    assert(base - base / 2 >= base / 2);
}

/// After `k` whole half-lives, up to 32, the weight is `2^(32 - k)`.
pub proof fn lemma_weight_at_whole(k: nat, half_life: u64)
    requires
        half_life > 0,
        k <= 32,
        k * half_life <= u64::MAX,
    ensures
        decay_weight((k * half_life) as u64, half_life) == pow2((32 - k) as nat),
{
    let h = half_life as nat;
    assert((k * h) / h == k && (k * h) % h == 0) by (nonlinear_arith)
        requires
            h > 0,
    ;
    lemma2_to64();
    lemma_halved_power(32, k);
    let base = halved(weight_one(), k);
    assert((base * 0) / (2 * h) == 0) by (nonlinear_arith)
        requires
            h > 0,
    ;
}

/// The weight never rises with age.
pub proof fn lemma_weight_falls(age: u64, older: u64, half_life: u64)
    requires
        half_life > 0,
        age <= older,
    ensures
        decay_weight(older, half_life) <= decay_weight(age, half_life),
{
    let h = half_life as nat;
    let wa = (age / half_life) as nat;
    let wo = (older / half_life) as nat;
    let pa = (age % half_life) as nat;
    let po = (older % half_life) as nat;
    assert(wa <= wo) by (nonlinear_arith)
        requires
            age <= older,
            half_life > 0,
            wa == (age / half_life) as nat,
            wo == (older / half_life) as nat,
    ;
    lemma_weight_at_most_base(age, half_life);
    lemma_weight_at_most_base(older, half_life);
    if wa == wo {
        let base = decay_base(age, half_life);
        assert(age as nat == wa * h + pa && older as nat == wo * h + po) by (nonlinear_arith)
            requires
                h == half_life as nat,
                half_life > 0,
                wa == (age / half_life) as nat,
                wo == (older / half_life) as nat,
                pa == (age % half_life) as nat,
                po == (older % half_life) as nat,
        ;
        assert(pa <= po);
        assert((base * pa) / (2 * h) <= (base * po) / (2 * h)) by (nonlinear_arith)
            requires
                pa <= po,
                h > 0,
        ;
        assert(decay_base(older, half_life) == base);
        let xa = (base * pa) / (2 * h);
        let xo = (base * po) / (2 * h);
        assert(xo <= base / 2) by (nonlinear_arith)
            requires
                xo == (base * po) / (2 * h),
                po < h,
                h > 0,
        ;
        assert(decay_weight(age, half_life) == (base - xa) as nat);
        assert(decay_weight(older, half_life) == (base - xo) as nat);
        assert(decay_weight(older, half_life) <= decay_weight(age, half_life));
    } else if wo <= 32 {
        lemma_halved_falls(weight_one(), wa + 1, wo);
        lemma_halved_step(weight_one(), wa);
        assert(decay_base(older, half_life) <= decay_base(age, half_life) / 2);
        assert(decay_weight(older, half_life) <= decay_weight(age, half_life));
    } else {
        assert(decay_base(older, half_life) == 0);
        assert(decay_weight(older, half_life) <= decay_weight(age, half_life));
    }
}

/// The time from which ages are counted when a trace arrives: its start,
/// or without spans a million nanoseconds for each trace seen, at most
/// `u64::MAX`.
pub open spec fn arrival_time(trace: Trace, seen: u64) -> u64 {
    match trace.start_time() {
        Some(t) => t,
        None => if seen as nat * 1_000_000 > u64::MAX {
            u64::MAX
        } else {
            (seen as nat * 1_000_000) as u64
        },
    }
}

/// The age of a resident trace at a time: a trace without spans counts
/// as started at 0, and no age is negative.
pub open spec fn age_at(resident: Trace, now: u64) -> u64 {
    let start = match resident.start_time() {
        Some(t) => t,
        None => 0,
    };
    if now >= start {
        (now - start) as u64
    } else {
        0
    }
}

/// The half-life that counts: the configured one, or a day.
pub open spec fn half_life_of(config: ReservoirConfig) -> u64 {
    match config.decay_half_life_ns {
        Some(h) => h,
        None => 86_400_000_000_000,
    }
}

/// The weight of the resident at position `i` at a time.
pub open spec fn resident_weight(sample: Seq<Trace>, i: int, now: u64, half_life: u64) -> nat {
    decay_weight(age_at(sample[i], now), half_life)
}

/// The first position among the first `n` residents that has the lowest
/// weight.
pub open spec fn lightest(sample: Seq<Trace>, n: nat, now: u64, half_life: u64) -> int
    decreases n,
{
    if n <= 1 || n > sample.len() {
        0
    } else {
        let before = lightest(sample, (n - 1) as nat, now, half_life);
        if resident_weight(sample, n - 1, now, half_life) < resident_weight(
            sample,
            before,
            now,
            half_life,
        ) {
            n - 1
        } else {
            before
        }
    }
}

/// Whether a draw of 64 bits replaces a resident of the given weight: the
/// upper 53 bits of the draw, as a share of 2^53, lie below `1/(1 + weight)`.
pub open spec fn replaces(bits: u64, weight: nat) -> bool {
    (bits as nat / 2048) * (weight_one() + weight) < 0x20_0000_0000_0000 * weight_one()
}

/// The step of sampling with time decay: while there is room the trace is
/// appended; else the resident of the lowest weight is found, the first of
/// several, and the trace replaces it with probability `1/(1 + weight)`.
pub open spec fn decay_step(s: ReservoirState, trace: Trace) -> Step {
    let seen = next_count(s.total_seen);
    if s.traces.len() < s.config.max_size {
        Step {
            state: ReservoirState { traces: s.traces.push(trace), total_seen: seen, ..s },
            event: None,
        }
    } else if s.traces.len() == 0 {
        Step { state: ReservoirState { total_seen: seen, ..s }, event: None }
    } else {
        let now = arrival_time(trace, seen);
        let half_life = half_life_of(s.config);
        let victim = lightest(s.traces, s.traces.len(), now, half_life);
        let weight = resident_weight(s.traces, victim, now, half_life);
        let bits = chacha8_next(s.config.seed, s.stream_position);
        let after = two_words_on(s.stream_position);
        if replaces(bits, weight) {
            Step {
                state: ReservoirState {
                    traces: s.traces.update(victim, trace),
                    total_seen: seen,
                    eviction_count: next_count(s.eviction_count),
                    stream_position: after,
                    ..s
                },
                event: Some(
                    EvictionText {
                        evicted_trace_id: s.traces[victim].trace_id@,
                        replacement_trace_id: trace.trace_id@,
                        reason: EvictionReason::TimeDecay,
                        reservoir_size: s.traces.len() as usize,
                        total_seen: seen,
                    },
                ),
            }
        } else {
            Step {
                state: ReservoirState { total_seen: seen, stream_position: after, ..s },
                event: None,
            }
        }
    }
}

/// The step of a reservoir by its strategy.
pub open spec fn step(s: ReservoirState, trace: Trace) -> Step {
    match s.config.strategy {
        SamplingStrategy::Uniform => uniform_step(s, trace),
        SamplingStrategy::Stratified => stratified_step(s, trace),
        SamplingStrategy::TimeDecay => decay_step(s, trace),
    }
}

/// What a placement did: the identifier of the evicted trace if there
/// was one, and where the random stream stands.
struct Placed {
    evicted: Option<String>,
    stream_position: u128,
}

/// Places a trace in a part of the sample by Algorithm R.
fn place(
    sample: &mut Vec<Trace>,
    capacity: usize,
    seen: u64,
    seed: u64,
    position: u128,
    trace: Trace,
) -> (r: Placed)
    requires
        seen > 0,
    ensures
        final(sample)@ == placed(old(sample)@, capacity, seen, seed, position, trace).sample,
        r.stream_position == placed(
            old(sample)@,
            capacity,
            seen,
            seed,
            position,
            trace,
        ).stream_position,
        match placed(old(sample)@, capacity, seen, seed, position, trace).evicted {
            Some(id) => r.evicted is Some && r.evicted->0@ == id,
            None => r.evicted is None,
        },
{
    if sample.len() < capacity {
        sample.push(trace);
        return Placed { evicted: None, stream_position: position };
    }
    let draw = draw_below(seed, position, seen);
    if draw.value < capacity as u64 && draw.value < sample.len() as u64 {
        let slot = draw.value as usize;
        let evicted = sample[slot].trace_id.clone();
        sample[slot] = trace;
        Placed { evicted: Some(evicted), stream_position: draw.position }
    } else {
        Placed { evicted: None, stream_position: draw.position }
    }
}

/// The weight of a trace of the given age under a half-life.
pub fn weight_of(age: u64, half_life: u64) -> (w: u64)
    ensures
        w == decay_weight(age, half_life),
        w <= weight_one(),
{
    if half_life == 0 {
        return if age > 0 {
            0
        } else {
            0x1_0000_0000
        };
    }
    let whole = age / half_life;
    let part = age % half_life;
    let mut base: u128 = 0x1_0000_0000;
    if whole > 32 {
        base = 0;
    } else {
        let mut t: u64 = 0;
        while t < whole
            invariant
                t <= whole <= 32,
                base <= 0x1_0000_0000,
                halved(base as nat, (whole - t) as nat) == halved(weight_one(), whole as nat),
            decreases whole - t,
        {
            base = base / 2;
            t += 1;
        }
    }
    proof {
        assert(base * part <= 0x1_0000_0000 * u64::MAX) by (nonlinear_arith)
            requires
                base <= 0x1_0000_0000,
                part <= u64::MAX,
        ;
        assert((base * part) / (2 * half_life as int) <= base) by (nonlinear_arith)
            requires
                part < half_life,
                half_life > 0,
                base >= 0,
        ;
    }
    let slope: u128 = (base * part as u128) / (2 * half_life as u128);
    (base - slope) as u64
}

/// The number of error traces among the first `n` of a sample.
pub open spec fn errors_in(sample: Seq<Trace>, n: nat) -> nat
    decreases n,
{
    if n == 0 || n > sample.len() {
        0
    } else {
        errors_in(sample, (n - 1) as nat) + if sample[n - 1].is_error {
            1nat
        } else {
            0nat
        }
    }
}

/// The number of slow traces among the first `n` of a sample.
pub open spec fn slow_in(sample: Seq<Trace>, config: ReservoirConfig, n: nat) -> nat
    decreases n,
{
    if n == 0 || n > sample.len() {
        0
    } else {
        slow_in(sample, config, (n - 1) as nat) + if is_slow(config, sample[n - 1]) {
            1nat
        } else {
            0nat
        }
    }
}

/// The statistics of a state: with strata, the strata count the errors
/// and the slow traces; else the traces of the sample are counted.
pub open spec fn stats_of(s: ReservoirState) -> ReservoirStats {
    ReservoirStats {
        total_seen: s.total_seen,
        current_size: s.size() as usize,
        error_count: match s.config.strategy {
            SamplingStrategy::Stratified => s.error_stratum.len() as usize,
            _ => errors_in(s.traces, s.traces.len()) as usize,
        },
        slow_count: match s.config.strategy {
            SamplingStrategy::Stratified => s.slow_stratum.len() as usize,
            _ => slow_in(s.traces, s.config, s.traces.len()) as usize,
        },
        eviction_count: s.eviction_count,
    }
}

/// The traces of a state in the order in which they are handed out: the
/// sample, then the error stratum, then the slow stratum.
pub open spec fn residents(s: ReservoirState) -> Seq<Trace> {
    match s.config.strategy {
        SamplingStrategy::Stratified => s.traces + s.error_stratum + s.slow_stratum,
        _ => s.traces,
    }
}

impl Reservoir {
    /// Creates an empty reservoir.
    pub fn new(config: ReservoirConfig) -> (r: Self)
        ensures
            r@ == initial_state(config),
            r@.well_formed(),
    {
        Reservoir {
            config,
            traces: Vec::new(),
            error_stratum: Vec::new(),
            slow_stratum: Vec::new(),
            total_seen: 0,
            normal_seen: 0,
            error_seen: 0,
            slow_seen: 0,
            eviction_count: 0,
            stream_position: 0,
        }
    }

    /// Creates an empty reservoir for uniform sampling with seed 0.
    pub fn with_capacity(max_size: usize) -> (r: Self)
        ensures
            r@ == initial_state(
                ReservoirConfig {
                    max_size,
                    strategy: SamplingStrategy::Uniform,
                    preserve_errors: false,
                    slow_threshold: None,
                    decay_half_life_ns: None,
                    seed: 0,
                },
            ),
            r@.well_formed(),
    {
        Reservoir::new(ReservoirConfig::new(max_size))
    }

    /// The number of traces in the reservoir.
    pub fn len(&self) -> (n: usize)
        requires
            self@.well_formed(),
        ensures
            n == self@.size(),
            n <= self.config.max_size,
    {
        match self.config.strategy {
            SamplingStrategy::Stratified => self.traces.len() + self.error_stratum.len()
                + self.slow_stratum.len(),
            _ => self.traces.len(),
        }
    }

    /// Whether the reservoir holds no trace.
    pub fn is_empty(&self) -> (r: bool)
        requires
            self@.well_formed(),
        ensures
            r == (self@.size() == 0),
    {
        self.len() == 0
    }

    /// The highest number of traces that the reservoir keeps.
    pub fn capacity(&self) -> (n: usize)
        ensures
            n == self.config.max_size,
    {
        self.config.max_size
    }

    /// The configuration.
    pub fn config(&self) -> (c: &ReservoirConfig)
        ensures
            *c == self.config,
    {
        &self.config
    }

    /// Statistics of the reservoir.
    pub fn stats(&self) -> (r: ReservoirStats)
        requires
            self@.well_formed(),
        ensures
            r == stats_of(self@),
    {
        let mut error_count: usize = 0;
        let mut slow_count: usize = 0;
        match self.config.strategy {
            SamplingStrategy::Stratified => {
                error_count = self.error_stratum.len();
                slow_count = self.slow_stratum.len();
            },
            _ => {
                let mut i: usize = 0;
                while i < self.traces.len()
                    invariant
                        i <= self.traces@.len(),
                        error_count == errors_in(self.traces@, i as nat),
                        slow_count == slow_in(self.traces@, self.config, i as nat),
                        error_count <= i,
                        slow_count <= i,
                    decreases self.traces.len() - i,
                {
                    if self.traces[i].is_error {
                        error_count += 1;
                    }
                    if let Some(threshold) = self.config.slow_threshold {
                        if self.traces[i].duration.as_nanos() >= threshold.as_nanos() {
                            slow_count += 1;
                        }
                    }
                    i += 1;
                }
            },
        }
        ReservoirStats {
            total_seen: self.total_seen,
            current_size: self.len(),
            error_count,
            slow_count,
            eviction_count: self.eviction_count,
        }
    }

    /// Adds a trace by the strategy of the reservoir and reports the
    /// eviction if a trace had to leave for it. The reservoir never holds
    /// more than its capacity.
    pub fn add(&mut self, trace: Trace) -> (r: Option<EvictionEvent>)
        requires
            old(self)@.well_formed(),
            old(self).total_seen < u64::MAX,
        ensures
            final(self)@ == step(old(self)@, trace).state,
            match step(old(self)@, trace).event {
                Some(event) => r is Some && r->0@ == event,
                None => r is None,
            },
            final(self)@.well_formed(),
            final(self)@.size() <= final(self).config.max_size,
            final(self).config == old(self).config,
            final(self).total_seen == old(self).total_seen + 1,
    {
        match self.config.strategy {
            SamplingStrategy::Uniform => self.add_uniform(trace),
            SamplingStrategy::Stratified => self.add_stratified(trace),
            SamplingStrategy::TimeDecay => self.add_time_decay(trace),
        }
    }

    /// Adds a trace as `add` does and shows the eviction, if a trace had to
    /// leave, to the observer, once the reservoir has changed. The observer
    /// sees the event alone and cannot reach the reservoir.
    pub fn add_observed<F: Fn(&EvictionEvent)>(&mut self, trace: Trace, observer: &F) -> (r: Option<
        EvictionEvent,
    >)
        requires
            old(self)@.well_formed(),
            old(self).total_seen < u64::MAX,
            forall|e: &EvictionEvent| #[trigger] observer.requires((e,)),
        ensures
            final(self)@ == step(old(self)@, trace).state,
            match step(old(self)@, trace).event {
                Some(event) => r is Some && r->0@ == event,
                None => r is None,
            },
            final(self)@.well_formed(),
            final(self)@.size() <= final(self).config.max_size,
            final(self).config == old(self).config,
            final(self).total_seen == old(self).total_seen + 1,
    {
        let r = self.add(trace);
        match &r {
            Some(event) => observer(event),
            None => {},
        }
        r
    }

    /// The step of uniform sampling (Algorithm R).
    fn add_uniform(&mut self, trace: Trace) -> (r: Option<EvictionEvent>)
        requires
            old(self)@.well_formed(),
            old(self).total_seen < u64::MAX,
            old(self).config.strategy == SamplingStrategy::Uniform,
        ensures
            final(self)@ == uniform_step(old(self)@, trace).state,
            match uniform_step(old(self)@, trace).event {
                Some(event) => r is Some && r->0@ == event,
                None => r is None,
            },
            final(self)@.well_formed(),
    {
        self.total_seen = self.total_seen + 1;
        let replacement = trace.trace_id.clone();
        let p = place(
            &mut self.traces,
            self.config.max_size,
            self.total_seen,
            self.config.seed,
            self.stream_position,
            trace,
        );
        self.stream_position = p.stream_position;
        match p.evicted {
            Some(evicted) => {
                self.eviction_count = self.eviction_count + 1;
                Some(
                    EvictionEvent {
                        evicted_trace_id: evicted,
                        replacement_trace_id: replacement,
                        reason: EvictionReason::RandomSample,
                        reservoir_size: self.traces.len(),
                        total_seen: self.total_seen,
                    },
                )
            },
            None => None,
        }
    }

    /// The step of stratified sampling.
    fn add_stratified(&mut self, trace: Trace) -> (r: Option<EvictionEvent>)
        requires
            old(self)@.well_formed(),
            old(self).total_seen < u64::MAX,
            old(self).config.strategy == SamplingStrategy::Stratified,
        ensures
            final(self)@ == stratified_step(old(self)@, trace).state,
            match stratified_step(old(self)@, trace).event {
                Some(event) => r is Some && r->0@ == event,
                None => r is None,
            },
            final(self)@.well_formed(),
    {
        let is_error = trace.is_error;
        let is_slow = match self.config.slow_threshold {
            Some(threshold) => trace.duration.as_nanos() >= threshold.as_nanos(),
            None => false,
        };
        let error_capacity = self.config.max_size / 5;
        let slow_capacity = self.config.max_size / 10;
        let normal_capacity = self.config.max_size - error_capacity - slow_capacity;
        if is_error && self.config.preserve_errors {
            self.add_to_error_stratum(trace, error_capacity)
        } else if is_slow {
            self.add_to_slow_stratum(trace, slow_capacity)
        } else {
            self.add_to_normal_stratum(trace, normal_capacity)
        }
    }

    /// Adds a trace to the error stratum.
    fn add_to_error_stratum(&mut self, trace: Trace, capacity: usize) -> (r: Option<EvictionEvent>)
        requires
            old(self)@.well_formed(),
            old(self).total_seen < u64::MAX,
            old(self).config.strategy == SamplingStrategy::Stratified,
            capacity == error_capacity(old(self).config.max_size),
        ensures
            ({
                let s = old(self)@;
                let stratum_seen = next_count(s.error_seen);
                let p = placed(
                    s.error_stratum,
                    capacity,
                    stratum_seen,
                    s.config.seed,
                    s.stream_position,
                    trace,
                );
                let out = stratum_outcome(
                    ReservoirState { error_stratum: p.sample, error_seen: stratum_seen, ..s },
                    p,
                    trace,
                    EvictionReason::StratifiedRebalance,
                );
                &&& final(self)@ == out.state
                &&& match out.event {
                    Some(event) => r is Some && r->0@ == event,
                    None => r is None,
                }
            }),
            final(self)@.well_formed(),
    {
        self.total_seen = self.total_seen + 1;
        self.error_seen = self.error_seen + 1;
        let replacement = trace.trace_id.clone();
        let p = place(
            &mut self.error_stratum,
            capacity,
            self.error_seen,
            self.config.seed,
            self.stream_position,
            trace,
        );
        self.stream_position = p.stream_position;
        self.report(p.evicted, replacement, EvictionReason::StratifiedRebalance)
    }

    /// Adds a trace to the slow stratum.
    fn add_to_slow_stratum(&mut self, trace: Trace, capacity: usize) -> (r: Option<EvictionEvent>)
        requires
            old(self)@.well_formed(),
            old(self).total_seen < u64::MAX,
            old(self).config.strategy == SamplingStrategy::Stratified,
            capacity == slow_capacity(old(self).config.max_size),
        ensures
            ({
                let s = old(self)@;
                let stratum_seen = next_count(s.slow_seen);
                let p = placed(
                    s.slow_stratum,
                    capacity,
                    stratum_seen,
                    s.config.seed,
                    s.stream_position,
                    trace,
                );
                let out = stratum_outcome(
                    ReservoirState { slow_stratum: p.sample, slow_seen: stratum_seen, ..s },
                    p,
                    trace,
                    EvictionReason::StratifiedRebalance,
                );
                &&& final(self)@ == out.state
                &&& match out.event {
                    Some(event) => r is Some && r->0@ == event,
                    None => r is None,
                }
            }),
            final(self)@.well_formed(),
    {
        self.total_seen = self.total_seen + 1;
        self.slow_seen = self.slow_seen + 1;
        let replacement = trace.trace_id.clone();
        let p = place(
            &mut self.slow_stratum,
            capacity,
            self.slow_seen,
            self.config.seed,
            self.stream_position,
            trace,
        );
        self.stream_position = p.stream_position;
        self.report(p.evicted, replacement, EvictionReason::StratifiedRebalance)
    }

    /// Adds a trace to the stratum of normal traces.
    fn add_to_normal_stratum(&mut self, trace: Trace, capacity: usize) -> (r: Option<EvictionEvent>)
        requires
            old(self)@.well_formed(),
            old(self).total_seen < u64::MAX,
            old(self).config.strategy == SamplingStrategy::Stratified,
            capacity == normal_capacity(old(self).config.max_size),
        ensures
            ({
                let s = old(self)@;
                let stratum_seen = next_count(s.normal_seen);
                let p = placed(
                    s.traces,
                    capacity,
                    stratum_seen,
                    s.config.seed,
                    s.stream_position,
                    trace,
                );
                let out = stratum_outcome(
                    ReservoirState { traces: p.sample, normal_seen: stratum_seen, ..s },
                    p,
                    trace,
                    EvictionReason::RandomSample,
                );
                &&& final(self)@ == out.state
                &&& match out.event {
                    Some(event) => r is Some && r->0@ == event,
                    None => r is None,
                }
            }),
            final(self)@.well_formed(),
    {
        self.total_seen = self.total_seen + 1;
        self.normal_seen = self.normal_seen + 1;
        let replacement = trace.trace_id.clone();
        let p = place(
            &mut self.traces,
            capacity,
            self.normal_seen,
            self.config.seed,
            self.stream_position,
            trace,
        );
        self.stream_position = p.stream_position;
        self.report(p.evicted, replacement, EvictionReason::RandomSample)
    }

    /// Counts an eviction in a stratum, if there was one, and makes its
    /// event.
    fn report(&mut self, evicted: Option<String>, replacement: String, reason: EvictionReason) -> (r:
        Option<EvictionEvent>)
        requires
            old(self).config.strategy == SamplingStrategy::Stratified,
            old(self).eviction_count < old(self).total_seen,
            old(self).traces@.len() + old(self).error_stratum@.len() + old(self).slow_stratum@.len()
                <= usize::MAX,
        ensures
            final(self)@ == (ReservoirState {
                eviction_count: if evicted is Some {
                    next_count(old(self).eviction_count)
                } else {
                    old(self).eviction_count
                },
                ..old(self)@
            }),
            match evicted {
                Some(id) => r is Some && r->0@ == (EvictionText {
                    evicted_trace_id: id@,
                    replacement_trace_id: replacement@,
                    reason,
                    reservoir_size: old(self)@.size() as usize,
                    total_seen: old(self).total_seen,
                }),
                None => r is None,
            },
    {
        match evicted {
            Some(id) => {
                self.eviction_count = self.eviction_count + 1;
                Some(
                    EvictionEvent {
                        evicted_trace_id: id,
                        replacement_trace_id: replacement,
                        reason,
                        reservoir_size: self.traces.len() + self.error_stratum.len()
                            + self.slow_stratum.len(),
                        total_seen: self.total_seen,
                    },
                )
            },
            None => None,
        }
    }

    /// The step of sampling with time decay.
    fn add_time_decay(&mut self, trace: Trace) -> (r: Option<EvictionEvent>)
        requires
            old(self)@.well_formed(),
            old(self).total_seen < u64::MAX,
            old(self).config.strategy == SamplingStrategy::TimeDecay,
        ensures
            final(self)@ == decay_step(old(self)@, trace).state,
            match decay_step(old(self)@, trace).event {
                Some(event) => r is Some && r->0@ == event,
                None => r is None,
            },
            final(self)@.well_formed(),
    {
        self.total_seen = self.total_seen + 1;
        if self.traces.len() < self.config.max_size {
            self.traces.push(trace);
            return None;
        }
        let n = self.traces.len();
        if n == 0 {
            return None;
        }
        let now: u64 = match trace.start_time_ns() {
            Some(t) => t,
            None => {
                let scaled: u128 = self.total_seen as u128 * 1_000_000;
                if scaled > u64::MAX as u128 {
                    u64::MAX
                } else {
                    scaled as u64
                }
            },
        };
        let half_life: u64 = match self.config.decay_half_life_ns {
            Some(h) => h,
            None => 86_400_000_000_000,
        };
        let mut victim: usize = 0;
        let mut lowest: u64 = self.weight_at(0, now, half_life);
        let mut i: usize = 1;
        while i < n
            invariant
                n == self.traces@.len(),
                1 <= i <= n,
                victim < i,
                victim == lightest(self.traces@, i as nat, now, half_life),
                lowest == resident_weight(self.traces@, victim as int, now, half_life),
                lowest <= weight_one(),
            decreases n - i,
        {
            let weight = self.weight_at(i, now, half_life);
            if weight < lowest {
                lowest = weight;
                victim = i;
            }
            i += 1;
        }
        let bits = draw_bits(self.config.seed, self.stream_position);
        self.stream_position = after_bits(self.stream_position);
        let share: u128 = (bits / 2048) as u128;
        proof {
            assert(share * (0x1_0000_0000 + lowest) <= u64::MAX * 0x2_0000_0000)
                by (nonlinear_arith)
                requires
                    share <= u64::MAX,
                    lowest <= 0x1_0000_0000,
            ;
        }
        let replace = share * (0x1_0000_0000 + lowest as u128) < 0x20_0000_0000_0000
            * 0x1_0000_0000;
        if replace {
            let evicted = self.traces[victim].trace_id.clone();
            let replacement = trace.trace_id.clone();
            self.traces[victim] = trace;
            self.eviction_count = self.eviction_count + 1;
            Some(
                EvictionEvent {
                    evicted_trace_id: evicted,
                    replacement_trace_id: replacement,
                    reason: EvictionReason::TimeDecay,
                    reservoir_size: self.traces.len(),
                    total_seen: self.total_seen,
                },
            )
        } else {
            None
        }
    }

    /// The weight of the resident at position `i` at a time.
    fn weight_at(&self, i: usize, now: u64, half_life: u64) -> (w: u64)
        requires
            i < self.traces@.len(),
        ensures
            w == resident_weight(self.traces@, i as int, now, half_life),
            w <= weight_one(),
    {
        let start: u64 = match self.traces[i].start_time_ns() {
            Some(t) => t,
            None => 0,
        };
        weight_of(now.saturating_sub(start), half_life)
    }

    /// The traces of the reservoir: the sample, then the error stratum,
    /// then the slow stratum.
    pub fn iter(&self) -> (r: Vec<&Trace>)
        ensures
            r@.len() == residents(self@).len(),
            forall|k: int| 0 <= k < r@.len() ==> *(#[trigger] r@[k]) == residents(self@)[k],
    {
        let mut out: Vec<&Trace> = Vec::new();
        let mut i: usize = 0;
        while i < self.traces.len()
            invariant
                i <= self.traces@.len(),
                out@.len() == i,
                forall|k: int| 0 <= k < i ==> *(#[trigger] out@[k]) == self.traces@[k],
            decreases self.traces.len() - i,
        {
            out.push(&self.traces[i]);
            i += 1;
        }
        match self.config.strategy {
            SamplingStrategy::Stratified => {
                let a = self.traces.len();
                let mut j: usize = 0;
                while j < self.error_stratum.len()
                    invariant
                        a == self.traces@.len(),
                        j <= self.error_stratum@.len(),
                        out@.len() == a + j,
                        forall|k: int| 0 <= k < a ==> *(#[trigger] out@[k]) == self.traces@[k],
                        forall|k: int|
                            a <= k < a + j ==> *(#[trigger] out@[k]) == self.error_stratum@[k - a],
                    decreases self.error_stratum.len() - j,
                {
                    out.push(&self.error_stratum[j]);
                    j += 1;
                }
                let b = self.error_stratum.len();
                let mut l: usize = 0;
                while l < self.slow_stratum.len()
                    invariant
                        a == self.traces@.len(),
                        b == self.error_stratum@.len(),
                        l <= self.slow_stratum@.len(),
                        out@.len() == a + b + l,
                        forall|k: int| 0 <= k < a ==> *(#[trigger] out@[k]) == self.traces@[k],
                        forall|k: int|
                            a <= k < a + b ==> *(#[trigger] out@[k]) == self.error_stratum@[k - a],
                        forall|k: int|
                            a + b <= k < a + b + l ==> *(#[trigger] out@[k])
                                == self.slow_stratum@[k - a - b],
                    decreases self.slow_stratum.len() - l,
                {
                    out.push(&self.slow_stratum[l]);
                    l += 1;
                }
            },
            _ => {},
        }
        out
    }

    /// Hands out the traces: the sample, then the error stratum, then the
    /// slow stratum.
    pub fn into_traces(self) -> (r: Vec<Trace>)
        ensures
            r@ == residents(self@),
    {
        let Reservoir { config, traces, error_stratum, slow_stratum, .. } = self;
        match config.strategy {
            SamplingStrategy::Stratified => {
                let mut all = traces;
                let mut errors = error_stratum;
                let mut slow = slow_stratum;
                all.append(&mut errors);
                all.append(&mut slow);
                all
            },
            _ => traces,
        }
    }
}

/// The state of a reservoir after the first `n` of the traces are added
/// one after the other.
pub open spec fn fed(s: ReservoirState, traces: Seq<Trace>, n: nat) -> ReservoirState
    decreases n,
{
    if n == 0 || n > traces.len() {
        s
    } else {
        step(fed(s, traces, (n - 1) as nat), traces[n - 1]).state
    }
}

/// The evictions that adding the first `n` of the traces reports, one
/// entry for each trace.
pub open spec fn evictions(s: ReservoirState, traces: Seq<Trace>, n: nat) -> Seq<
    Option<EvictionText>,
>
    decreases n,
{
    if n == 0 || n > traces.len() {
        Seq::empty()
    } else {
        evictions(s, traces, (n - 1) as nat).push(
            step(fed(s, traces, (n - 1) as nat), traces[n - 1]).event,
        )
    }
}

/// Sampling is deterministic: two reservoirs with equal configurations,
/// and so with equal seeds, that are fed the same traces hold the same
/// sample, have counted the same evictions and have reported the same
/// evictions, each after every single trace. Nothing but the configuration
/// and the traces goes into a step.
pub proof fn equal_seeds_give_equal_samples(
    first: ReservoirConfig,
    second: ReservoirConfig,
    traces: Seq<Trace>,
    n: nat,
)
    requires
        first == second,
        n <= traces.len(),
    ensures
        fed(initial_state(first), traces, n) == fed(initial_state(second), traces, n),
        fed(initial_state(first), traces, n).traces == fed(initial_state(second), traces, n).traces,
        fed(initial_state(first), traces, n).eviction_count == fed(
            initial_state(second),
            traces,
            n,
        ).eviction_count,
        evictions(initial_state(first), traces, n) == evictions(initial_state(second), traces, n),
{
}

/// The capacity is kept by every step of every strategy: a sound state
/// stays sound, so that the sample never holds more than the configured
/// size, and with strata no stratum holds more than its share.
pub proof fn capacity_is_kept(s: ReservoirState, trace: Trace)
    requires
        s.well_formed(),
        s.total_seen < u64::MAX,
    ensures
        step(s, trace).state.well_formed(),
        step(s, trace).state.config == s.config,
        step(s, trace).state.size() <= s.config.max_size,
        s.config.strategy == SamplingStrategy::Stratified ==> {
            &&& step(s, trace).state.traces.len() <= normal_capacity(s.config.max_size)
            &&& step(s, trace).state.error_stratum.len() <= error_capacity(s.config.max_size)
            &&& step(s, trace).state.slow_stratum.len() <= slow_capacity(s.config.max_size)
        },
        step(s, trace).state.total_seen == s.total_seen + 1,
{
    match s.config.strategy {
        SamplingStrategy::Uniform => {},
        SamplingStrategy::Stratified => {},
        SamplingStrategy::TimeDecay => {
            let seen = next_count(s.total_seen);
            if s.traces.len() > 0 {
                lemma_lightest_bounds(
                    s.traces,
                    s.traces.len(),
                    arrival_time(trace, seen),
                    half_life_of(s.config),
                );
            }
        },
    }
}

/// The lightest resident is one of the residents.
pub proof fn lemma_lightest_bounds(sample: Seq<Trace>, n: nat, now: u64, half_life: u64)
    requires
        0 < n <= sample.len(),
    ensures
        0 <= lightest(sample, n, now, half_life) < n,
    decreases n,
{
    if n > 1 {
        lemma_lightest_bounds(sample, (n - 1) as nat, now, half_life);
    }
}

/// The capacity is kept however many traces are added: after each of them
/// the sample holds no more than the configured size.
pub proof fn capacity_is_kept_throughout(config: ReservoirConfig, traces: Seq<Trace>, n: nat)
    requires
        n <= traces.len(),
        traces.len() < u64::MAX,
    ensures
        fed(initial_state(config), traces, n).well_formed(),
        fed(initial_state(config), traces, n).config == config,
        fed(initial_state(config), traces, n).size() <= config.max_size,
        fed(initial_state(config), traces, n).total_seen == n,
    decreases n,
{
    if n > 0 {
        capacity_is_kept_throughout(config, traces, (n - 1) as nat);
        capacity_is_kept(fed(initial_state(config), traces, (n - 1) as nat), traces[n - 1]);
    }
}

impl Default for ReservoirStats {
    /// The statistics of a reservoir that has seen nothing.
    fn default() -> (s: Self)
        ensures
            s == (ReservoirStats {
                total_seen: 0,
                current_size: 0,
                error_count: 0,
                slow_count: 0,
                eviction_count: 0,
            }),
    {
        ReservoirStats {
            total_seen: 0,
            current_size: 0,
            error_count: 0,
            slow_count: 0,
            eviction_count: 0,
        }
    }
}

} // verus!
