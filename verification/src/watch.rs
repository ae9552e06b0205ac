//! The state of a watch over incoming traces and what each event does to
//! it. Whoever runs the watch receives the events and hands them in, one
//! by one.

use core::time::Duration;
use vstd::prelude::*;
use crate::reservoir::{
    step, EvictionEvent, Reservoir, ReservoirConfig, SamplingStrategy,
};
use crate::trace::Trace;

verus! {

/// What a watch is made with.
#[derive(Debug, Clone)]
pub struct WatchConfig {
    /// Path of the policy file.
    pub policy_path: String,
    /// Port on which traces are received.
    pub otlp_port: Option<u16>,
    /// Dataset from which traces are fetched.
    pub honeycomb_dataset: Option<String>,
    /// Key for the dataset.
    pub honeycomb_api_key: Option<String>,
    /// Whether changes are only suggested.
    pub dry_run: bool,
    /// Seconds between two checks for drift.
    pub check_interval_secs: u64,
    /// Most traces that the corpus holds.
    pub max_corpus_size: usize,
    /// Path of the corpus to start from and to save to.
    pub corpus_path: Option<String>,
    /// Where alerts are sent.
    pub webhook_url: Option<String>,
    /// How the corpus is sampled.
    pub sampling_strategy: SamplingStrategy,
    /// Whether errors get a stratum of their own.
    pub preserve_errors: bool,
    /// From how many milliseconds on a trace is slow.
    pub slow_threshold_ms: Option<u64>,
}

impl Default for WatchConfig {
    /// A check a minute over a stratified corpus of ten thousand traces,
    /// slow from five seconds on.
    fn default() -> (c: Self)
        ensures
            c.policy_path@ == "policy.toon"@,
            c.otlp_port is None,
            c.honeycomb_dataset is None,
            c.honeycomb_api_key is None,
            !c.dry_run,
            c.check_interval_secs == 60,
            c.max_corpus_size == 10_000,
            c.corpus_path is None,
            c.webhook_url is None,
            c.sampling_strategy == SamplingStrategy::Stratified,
            c.preserve_errors,
            c.slow_threshold_ms == Some(5000u64),
    {
        WatchConfig {
            policy_path: "policy.toon".to_owned(),
            otlp_port: None,
            honeycomb_dataset: None,
            honeycomb_api_key: None,
            dry_run: false,
            check_interval_secs: 60,
            max_corpus_size: 10_000,
            corpus_path: None,
            webhook_url: None,
            sampling_strategy: SamplingStrategy::Stratified,
            preserve_errors: true,
            slow_threshold_ms: Some(5000),
        }
    }
}

/// A report that the policy has drifted from the traffic.
#[derive(Debug, Clone)]
pub struct DriftReport {
    /// What has drifted.
    pub description: String,
    /// How severe the drift is.
    pub severity: String,
    /// The rules concerned.
    pub affected_rules: Vec<String>,
    /// When the drift was found, in milliseconds since the Unix epoch.
    pub detected_at_ms: i64,
}

/// A report that the budget is exceeded.
#[derive(Debug, Clone, Copy, PartialEq, Eq, Structural)]
pub struct BudgetViolationReport {
    /// Kept events per second, in millionths.
    pub current_throughput: u64,
    /// The budget in events per second, in millionths.
    pub budget_limit: u64,
    /// By how much the budget is exceeded, in millionths of a percent.
    pub over_budget_percent: u64,
    /// When the violation was found, in milliseconds since the Unix epoch.
    pub detected_at_ms: i64,
}

/// A suggestion to change the policy.
#[derive(Debug, Clone)]
pub struct RefinementSuggestion {
    /// What is suggested.
    pub description: String,
    /// The change to the policy.
    pub suggested_change: String,
    /// Why it is suggested.
    pub reason: String,
    /// How sure the suggestion is, in millionths.
    pub confidence: u32,
}

/// What can happen during a watch.
#[derive(Debug, Clone)]
pub enum WatchEvent {
    /// A trace was received.
    TraceReceived(Trace),
    /// Drift was found.
    DriftDetected(DriftReport),
    /// The budget is exceeded.
    BudgetViolation(BudgetViolationReport),
    /// A change is suggested.
    RefinementSuggested(RefinementSuggestion),
    /// Something went wrong.
    Error(String),
    /// The watch is to end.
    Shutdown,
}

/// What whoever runs the watch does after an event.
#[derive(Debug, Clone)]
pub enum WatchAction {
    /// Nothing but to go on.
    Continue,
    /// To go on; the trace was taken, and another trace left the corpus
    /// for it if an eviction is given.
    Sampled(Option<EvictionEvent>),
    /// To go on, and to send an alert where alerts are sent.
    Alert,
    /// To go on; the suggestion is not applied, as the watch only
    /// suggests or cannot apply it yet.
    Suggested,
    /// To end the watch.
    Stop,
}

/// The state of a watch.
#[derive(Debug)]
pub struct WatchState {
    /// The sample of the traces received.
    pub reservoir: Reservoir,
    /// Number of drift reports.
    pub drift_events: u64,
    /// Number of budget violations.
    pub budget_violations: u64,
    /// When the watch started, in milliseconds since the Unix epoch.
    pub started_at_ms: i64,
}

/// The configuration of the reservoir of a watch.
pub open spec fn reservoir_config_of(config: WatchConfig, threshold: Option<Duration>) -> ReservoirConfig {
    ReservoirConfig {
        max_size: config.max_corpus_size,
        strategy: config.sampling_strategy,
        preserve_errors: config.preserve_errors,
        slow_threshold: threshold,
        decay_half_life_ns: None,
        seed: 0,
    }
}

impl WatchState {
    /// Whether the state can take another event: its counters have room.
    pub open spec fn has_room(&self) -> bool {
        &&& self.reservoir@.well_formed()
        &&& self.reservoir.total_seen < u64::MAX
        &&& self.drift_events < u64::MAX
        &&& self.budget_violations < u64::MAX
    }

    /// Creates the state of a watch that starts at the given time: nothing
    /// is counted, and the reservoir is empty and made as the
    /// configuration says.
    pub fn new(config: &WatchConfig, started_at_ms: i64) -> (s: Self)
        ensures
            s.drift_events == 0,
            s.budget_violations == 0,
            s.started_at_ms == started_at_ms,
            s.has_room(),
            s.reservoir@.size() == 0,
            s.reservoir.config.max_size == config.max_corpus_size,
            s.reservoir.config.strategy == config.sampling_strategy,
            s.reservoir.config.preserve_errors == config.preserve_errors,
            s.reservoir.config.seed == 0,
            s.reservoir.config.decay_half_life_ns is None,
            match config.slow_threshold_ms {
                Some(ms) => s.reservoir.config.slow_threshold is Some && crate::time::nanos_of(
                    s.reservoir.config.slow_threshold->0,
                ) == ms * 1_000_000,
                None => s.reservoir.config.slow_threshold is None,
            },
    {
        let mut reservoir_config = ReservoirConfig::new(config.max_corpus_size).with_strategy(
            config.sampling_strategy,
        ).with_preserve_errors(config.preserve_errors);
        match config.slow_threshold_ms {
            Some(threshold_ms) => {
                reservoir_config = reservoir_config.with_slow_threshold(
                    Duration::from_millis(threshold_ms),
                );
            },
            None => {},
        }
        WatchState {
            reservoir: Reservoir::new(reservoir_config),
            drift_events: 0,
            budget_violations: 0,
            started_at_ms,
        }
    }

    /// Whether `self` and `action` are what an event makes of `before`:
    /// a trace goes to the reservoir; a report of drift or of a budget
    /// violation is counted and calls for an alert; a suggestion and an
    /// error change nothing; a shutdown ends the watch.
    pub open spec fn is_next(&self, before: &Self, event: WatchEvent, action: WatchAction) -> bool {
        &&& self.started_at_ms == before.started_at_ms
        &&& match event {
            WatchEvent::TraceReceived(trace) => {
                &&& self.reservoir@ == step(before.reservoir@, trace).state
                &&& self.drift_events == before.drift_events
                &&& self.budget_violations == before.budget_violations
                &&& match action {
                    WatchAction::Sampled(eviction) => match step(before.reservoir@, trace).event {
                        Some(e) => eviction is Some && eviction->0@ == e,
                        None => eviction is None,
                    },
                    _ => false,
                }
            },
            WatchEvent::DriftDetected(_) => {
                &&& self.reservoir == before.reservoir
                &&& self.drift_events == before.drift_events + 1
                &&& self.budget_violations == before.budget_violations
                &&& action is Alert
            },
            WatchEvent::BudgetViolation(_) => {
                &&& self.reservoir == before.reservoir
                &&& self.drift_events == before.drift_events
                &&& self.budget_violations == before.budget_violations + 1
                &&& action is Alert
            },
            WatchEvent::RefinementSuggested(_) => {
                &&& *self == *before
                &&& action is Suggested
            },
            WatchEvent::Error(_) => {
                &&& *self == *before
                &&& action is Continue
            },
            WatchEvent::Shutdown => {
                &&& *self == *before
                &&& action is Stop
            },
        }
    }

    /// Takes an event and says what is to be done after it.
    pub fn handle_event(&mut self, event: WatchEvent) -> (action: WatchAction)
        requires
            old(self).has_room(),
        ensures
            final(self).is_next(old(self), event, action),
            final(self).reservoir@.well_formed(),
    {
        match event {
            WatchEvent::TraceReceived(trace) => {
                let eviction = self.reservoir.add(trace);
                WatchAction::Sampled(eviction)
            },
            WatchEvent::DriftDetected(_) => {
                self.drift_events = self.drift_events + 1;
                WatchAction::Alert
            },
            WatchEvent::BudgetViolation(_) => {
                self.budget_violations = self.budget_violations + 1;
                WatchAction::Alert
            },
            WatchEvent::RefinementSuggested(_) => WatchAction::Suggested,
            WatchEvent::Error(_) => WatchAction::Continue,
            WatchEvent::Shutdown => WatchAction::Stop,
        }
    }
}

} // verus!
