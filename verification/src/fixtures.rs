//! Seeded corpora that look like the traffic of real systems: a topology
//! of services, an incident in its phases, distributions of latency, and
//! patterns of instrumentation.

use vstd::prelude::*;
use vstd::string::StringExecFns;
use crate::corpus::Corpus;
use crate::lockfile::{hex16, hex_digits};
use crate::rng::{
    after_choice, chacha8_below, chacha8_below32, chacha8_next, chacha8_next32,
    chacha8_position_after_below, chacha8_position_after_below32, chacha8_position_after_next32,
    choice_index, toss_of, two_words_on, Stream,
};
use crate::synthetic::{error_status, hex8, hex_text, success_status};
use crate::text::{append_decimal, decimal_text};
use crate::time::nanos_of;
use crate::trace::{bare_trace, Trace, TraceAttribute};

verus! {

/// What a generator of fixtures is made with.
#[derive(Debug, Clone, Copy, PartialEq, Eq, Structural)]
pub struct FixtureConfig {
    /// Seed of the random stream.
    pub seed: u64,
    /// Number of traces to generate.
    pub trace_count: usize,
}

impl Default for FixtureConfig {
    /// A hundred traces under seed 42.
    fn default() -> (c: Self)
        ensures
            c == (FixtureConfig { seed: 42, trace_count: 100 }),
    {
        FixtureConfig { seed: 42, trace_count: 100 }
    }
}

impl FixtureConfig {
    /// Sets the seed.
    pub fn with_seed(self, seed: u64) -> (c: Self)
        ensures
            c == (FixtureConfig { seed, ..self }),
    {
        FixtureConfig { seed, ..self }
    }

    /// Sets the number of traces.
    pub fn with_count(self, count: usize) -> (c: Self)
        ensures
            c == (FixtureConfig { trace_count: count, ..self }),
    {
        FixtureConfig { trace_count: count, ..self }
    }
}

/// An attribute, by its name and its value.
pub struct Pair {
    pub key: Seq<char>,
    pub value: Seq<char>,
}

/// The attributes, each by its name and its value.
pub open spec fn pairs_of(attrs: Seq<TraceAttribute>) -> Seq<Pair> {
    Seq::new(attrs.len(), |i: int| Pair { key: attrs[i].key@, value: attrs[i].value@ })
}

/// What is drawn for a trace, and the position of the stream behind it.
pub struct Fixture {
    pub service: Seq<char>,
    pub endpoint: Seq<char>,
    pub status: u16,
    pub millis: nat,
    pub attributes: Seq<Pair>,
    pub position: u128,
}

/// Whether a trace is the one of the given identifier that holds what was
/// drawn: it has no spans, and is an error from status 500 on.
pub open spec fn is_fixture(t: Trace, id: Seq<char>, f: Fixture) -> bool {
    &&& t.trace_id@ == id
    &&& t.service is Some
    &&& t.service->0@ == f.service
    &&& t.endpoint is Some
    &&& t.endpoint->0@ == f.endpoint
    &&& t.status == Some(f.status)
    &&& t.is_error == (f.status >= 500)
    &&& nanos_of(t.duration) == f.millis * 1_000_000
    &&& pairs_of(t.attributes@) == f.attributes
    &&& t.spans@.len() == 0
    &&& t.span_count == 0
}

/// Appends an attribute.
fn push_pair(attrs: &mut Vec<TraceAttribute>, key: &str, value: &str)
    ensures
        pairs_of(final(attrs)@) == pairs_of(old(attrs)@).push(Pair { key: key@, value: value@ }),
{
    attrs.push(TraceAttribute { key: key.to_owned(), value: value.to_owned() });
    assert(pairs_of(attrs@) =~= pairs_of(old(attrs)@).push(Pair { key: key@, value: value@ }));
}

/// Appends an attribute whose value is a number.
fn push_number(attrs: &mut Vec<TraceAttribute>, key: &str, value: u128)
    ensures
        pairs_of(final(attrs)@) == pairs_of(old(attrs)@).push(
            Pair { key: key@, value: decimal_text(value as nat) },
        ),
{
    let mut text = String::new();
    append_decimal(&mut text, value);
    assert(text@ =~= decimal_text(value as nat));
    push_pair(attrs, key, text.as_str());
}

/// The text of a truth value.
pub open spec fn bool_text(b: bool) -> Seq<char> {
    if b {
        "true"@
    } else {
        "false"@
    }
}

/// Appends an attribute whose value is a truth value.
fn push_flag(attrs: &mut Vec<TraceAttribute>, key: &str, value: bool)
    ensures
        pairs_of(final(attrs)@) == pairs_of(old(attrs)@).push(
            Pair { key: key@, value: bool_text(value) },
        ),
{
    if value {
        push_pair(attrs, key, "true");
    } else {
        push_pair(attrs, key, "false");
    }
}

/// The trace of the given values.
fn fixture_trace(
    id: &str,
    service: &str,
    endpoint: &str,
    status: u16,
    millis: u64,
    attributes: Vec<TraceAttribute>,
) -> (t: Trace)
    ensures
        t.trace_id@ == id@,
        t.service is Some,
        t.service->0@ == service@,
        t.endpoint is Some,
        t.endpoint->0@ == endpoint@,
        t.status == Some(status),
        t.is_error == (status >= 500),
        nanos_of(t.duration) == millis * 1_000_000,
        t.attributes == attributes,
        t.spans@.len() == 0,
        t.span_count == 0,
{
    let mut trace = bare_trace(id, millis, status, service, Some(endpoint));
    trace.attributes = attributes;
    trace
}

/// The identifier of trace `i` behind a prefix.
pub open spec fn id_text(prefix: Seq<char>, i: nat) -> Seq<char> {
    prefix + hex_text(i)
}

/// The identifier of trace `i` behind a prefix.
fn trace_id(prefix: &str, i: usize) -> (s: String)
    ensures
        s@ == id_text(prefix@, i as nat),
{
    let mut id = String::new();
    id.append(prefix);
    id.append(hex8(i).as_str());
    assert(id@ =~= prefix@ + hex_text(i as nat));
    id
}

/// The status of an error or of a success, by a number.
fn status_for(error: bool, k: usize) -> (s: u16)
    ensures
        s == if error {
            error_status(k as nat)
        } else {
            success_status(k as nat)
        },
{
    if error {
        if k == 0 {
            500
        } else if k == 1 {
            502
        } else if k == 2 {
            503
        } else {
            504
        }
    } else {
        if k == 0 {
            200
        } else if k == 1 {
            201
        } else {
            204
        }
    }
}

/// The services of the topology, by a number below seven.
pub open spec fn topology_service(k: nat) -> Seq<char> {
    if k == 0 {
        "api-gateway"@
    } else if k == 1 {
        "user-service"@
    } else if k == 2 {
        "order-service"@
    } else if k == 3 {
        "product-service"@
    } else if k == 4 {
        "payment-service"@
    } else if k == 5 {
        "notification-service"@
    } else {
        "cache-service"@
    }
}

/// The number of routes of a service of the topology.
pub open spec fn route_count(service: nat) -> nat {
    if service == 0 {
        5
    } else {
        3
    }
}

/// The routes of the services of the topology.
pub open spec fn topology_route(service: nat, k: nat) -> Seq<char> {
    if service == 0 {
        if k == 0 {
            "/api/v2/users/:id"@
        } else if k == 1 {
            "/api/v2/orders"@
        } else if k == 2 {
            "/api/v2/products"@
        } else if k == 3 {
            "/api/v2/checkout"@
        } else {
            "/health"@
        }
    } else if service == 1 {
        if k == 0 {
            "/internal/users/:id"@
        } else if k == 1 {
            "/internal/users/lookup"@
        } else {
            "/internal/auth/validate"@
        }
    } else if service == 2 {
        if k == 0 {
            "/internal/orders"@
        } else if k == 1 {
            "/internal/orders/:id"@
        } else {
            "/internal/orders/history"@
        }
    } else if service == 3 {
        if k == 0 {
            "/internal/products/:id"@
        } else if k == 1 {
            "/internal/products/search"@
        } else {
            "/internal/inventory"@
        }
    } else if service == 4 {
        if k == 0 {
            "/internal/charge"@
        } else if k == 1 {
            "/internal/refund"@
        } else {
            "/internal/verify"@
        }
    } else if service == 5 {
        if k == 0 {
            "/internal/send"@
        } else if k == 1 {
            "/internal/batch"@
        } else {
            "/internal/templates"@
        }
    } else {
        if k == 0 {
            "/internal/get"@
        } else if k == 1 {
            "/internal/set"@
        } else {
            "/internal/invalidate"@
        }
    }
}

/// The usual latency of a service of the topology, in milliseconds.
pub open spec fn base_latency(service: nat) -> u64 {
    if service == 0 {
        50
    } else if service == 6 {
        5
    } else if service == 4 {
        400
    } else {
        30
    }
}

/// The least number of spans of a trace of a service.
pub open spec fn least_spans(service: nat) -> u32 {
    if service == 0 {
        5
    } else if service == 4 {
        8
    } else {
        2
    }
}

/// How many numbers of spans a trace of a service can have.
pub open spec fn span_choices(service: nat) -> u32 {
    if service == 0 {
        20
    } else if service == 4 {
        7
    } else {
        6
    }
}

/// The kinds of error, by a number below eight.
pub open spec fn error_type(k: nat) -> Seq<char> {
    if k == 0 {
        "ConnectionTimeout"@
    } else if k == 1 {
        "ServiceUnavailable"@
    } else if k == 2 {
        "InternalServerError"@
    } else if k == 3 {
        "DatabaseError"@
    } else if k == 4 {
        "AuthenticationFailed"@
    } else if k == 5 {
        "RateLimitExceeded"@
    } else if k == 6 {
        "InvalidRequest"@
    } else {
        "ResourceNotFound"@
    }
}

/// The name of a service of the topology.
fn service_name(k: usize) -> (s: &'static str)
    ensures
        s@ == topology_service(k as nat),
{
    if k == 0 {
        "api-gateway"
    } else if k == 1 {
        "user-service"
    } else if k == 2 {
        "order-service"
    } else if k == 3 {
        "product-service"
    } else if k == 4 {
        "payment-service"
    } else if k == 5 {
        "notification-service"
    } else {
        "cache-service"
    }
}

/// A route of a service of the topology.
fn route_name(service: usize, k: usize) -> (s: &'static str)
    ensures
        s@ == topology_route(service as nat, k as nat),
{
    if service == 0 {
        if k == 0 {
            "/api/v2/users/:id"
        } else if k == 1 {
            "/api/v2/orders"
        } else if k == 2 {
            "/api/v2/products"
        } else if k == 3 {
            "/api/v2/checkout"
        } else {
            "/health"
        }
    } else if service == 1 {
        if k == 0 {
            "/internal/users/:id"
        } else if k == 1 {
            "/internal/users/lookup"
        } else {
            "/internal/auth/validate"
        }
    } else if service == 2 {
        if k == 0 {
            "/internal/orders"
        } else if k == 1 {
            "/internal/orders/:id"
        } else {
            "/internal/orders/history"
        }
    } else if service == 3 {
        if k == 0 {
            "/internal/products/:id"
        } else if k == 1 {
            "/internal/products/search"
        } else {
            "/internal/inventory"
        }
    } else if service == 4 {
        if k == 0 {
            "/internal/charge"
        } else if k == 1 {
            "/internal/refund"
        } else {
            "/internal/verify"
        }
    } else if service == 5 {
        if k == 0 {
            "/internal/send"
        } else if k == 1 {
            "/internal/batch"
        } else {
            "/internal/templates"
        }
    } else {
        if k == 0 {
            "/internal/get"
        } else if k == 1 {
            "/internal/set"
        } else {
            "/internal/invalidate"
        }
    }
}

/// A kind of error.
fn error_type_name(k: usize) -> (s: &'static str)
    ensures
        s@ == error_type(k as nat),
{
    if k == 0 {
        "ConnectionTimeout"
    } else if k == 1 {
        "ServiceUnavailable"
    } else if k == 2 {
        "InternalServerError"
    } else if k == 3 {
        "DatabaseError"
    } else if k == 4 {
        "AuthenticationFailed"
    } else if k == 5 {
        "RateLimitExceeded"
    } else if k == 6 {
        "InvalidRequest"
    } else {
        "ResourceNotFound"
    }
}

/// What is drawn for a trace of the topology of services, in this order:
/// the service, among seven; one of its routes; whether the trace is an
/// error, three times in a hundred; whether it is slow, five times in a
/// hundred; its status; its duration, around the usual latency of the
/// service, or fifty times that and up to five seconds more for a slow
/// trace; the number of its spans; and for an error the kind of error.
pub open spec fn topology(seed: u64, p0: u128) -> Fixture {
    let s = choice_index(seed, p0, 7);
    let p1 = after_choice(seed, p0, 7);
    let r = choice_index(seed, p1, route_count(s));
    let p2 = after_choice(seed, p1, route_count(s));
    let error = toss_of(seed, p2, 30_000);
    let slow = toss_of(seed, error.position, 50_000);
    let kinds: nat = if error.hit {
        4
    } else {
        3
    };
    let c = choice_index(seed, slow.position, kinds);
    let p3 = after_choice(seed, slow.position, kinds);
    let base = base_latency(s);
    let bound: u64 = if slow.hit {
        5000
    } else {
        (base * 2) as u64
    };
    let extra = chacha8_below(seed, p3, bound);
    let p4 = chacha8_position_after_below(seed, p3, bound);
    let spans = least_spans(s) + chacha8_below32(seed, p4, span_choices(s));
    let p5 = chacha8_position_after_below32(seed, p4, span_choices(s));
    let common = seq![
        Pair { key: "span_count"@, value: decimal_text(spans as nat) },
        Pair { key: "scenario"@, value: "microservices_topology"@ },
    ];
    Fixture {
        service: topology_service(s),
        endpoint: topology_route(s, r),
        status: if error.hit {
            error_status(c)
        } else {
            success_status(c)
        },
        millis: if slow.hit {
            (base * 50 + extra) as nat
        } else {
            (base + extra) as nat
        },
        attributes: if error.hit {
            common.push(Pair { key: "error.type"@, value: error_type(choice_index(seed, p5, 8)) })
        } else {
            common
        },
        position: if error.hit {
            after_choice(seed, p5, 8)
        } else {
            p5
        },
    }
}

/// Draws a trace of the topology of services.
fn topology_trace(stream: &mut Stream, i: usize) -> (t: Trace)
    ensures
        final(stream).seed == old(stream).seed,
        is_fixture(t, id_text("topo-"@, i as nat), topology(old(stream).seed, old(stream).position)),
        final(stream).position == topology(old(stream).seed, old(stream).position).position,
{
    let s = stream.pick(7);
    let r = if s == 0 {
        stream.pick(5)
    } else {
        stream.pick(3)
    };
    let is_error = stream.toss(30_000);
    let is_slow = stream.toss(50_000);
    let c = if is_error {
        stream.pick(4)
    } else {
        stream.pick(3)
    };
    let base: u64 = if s == 0 {
        50
    } else if s == 6 {
        5
    } else if s == 4 {
        400
    } else {
        30
    };
    let extra = if is_slow {
        stream.below(5000)
    } else {
        stream.below(base * 2)
    };
    let millis = if is_slow {
        base * 50 + extra
    } else {
        base + extra
    };
    let spans: u32 = if s == 0 {
        5 + stream.below32(20)
    } else if s == 4 {
        8 + stream.below32(7)
    } else {
        2 + stream.below32(6)
    };
    let mut attrs: Vec<TraceAttribute> = Vec::new();
    assert(pairs_of(attrs@) =~= Seq::<Pair>::empty());
    push_number(&mut attrs, "span_count", spans as u128);
    push_pair(&mut attrs, "scenario", "microservices_topology");
    if is_error {
        let e = stream.pick(8);
        push_pair(&mut attrs, "error.type", error_type_name(e));
    }
    let id = trace_id("topo-", i);
    let t = fixture_trace(
        id.as_str(),
        service_name(s),
        route_name(s, r),
        status_for(is_error, c),
        millis,
        attrs,
    );
    assert(pairs_of(t.attributes@) =~= topology(old(stream).seed, old(stream).position).attributes);
    t
}

/// The phases of an incident, by a number below nine.
pub open spec fn phase_name(k: nat) -> Seq<char> {
    if k == 0 {
        "pre-incident"@
    } else if k == 1 {
        "degradation-start"@
    } else if k == 2 {
        "pool-exhaustion"@
    } else if k == 3 {
        "cascade-start"@
    } else if k == 4 {
        "retry-storm"@
    } else if k == 5 {
        "circuit-open"@
    } else if k == 6 {
        "recovery-start"@
    } else if k == 7 {
        "circuit-half-open"@
    } else {
        "recovered"@
    }
}

/// The usual latency in a phase of an incident, in milliseconds.
pub open spec fn phase_latency(k: nat) -> u64 {
    if k == 0 {
        45
    } else if k == 1 {
        500
    } else if k == 2 {
        5000
    } else if k == 3 {
        10_000
    } else if k == 4 {
        15_000
    } else if k == 5 {
        5
    } else if k == 6 {
        500
    } else if k == 7 {
        200
    } else {
        50
    }
}

/// The share of errors in a phase of an incident, in millionths: the
/// rate of the phase and three tenths of its boost, at most 99 in a
/// hundred.
pub open spec fn phase_error_rate(k: nat) -> u32 {
    if k == 0 {
        10_000
    } else if k == 1 {
        80_000
    } else if k == 2 {
        390_000
    } else if k == 3 {
        650_000
    } else if k == 4 {
        910_000
    } else if k == 5 {
        990_000
    } else if k == 6 {
        380_000
    } else if k == 7 {
        220_000
    } else {
        20_000
    }
}

/// The services of an incident, by a number below four.
pub open spec fn incident_service(k: nat) -> Seq<char> {
    if k == 0 {
        "api-gateway"@
    } else if k == 1 {
        "order-service"@
    } else if k == 2 {
        "payment-service"@
    } else {
        "inventory-service"@
    }
}

/// The phase of trace `i` of `count`: the traces go through the nine
/// phases in equal parts.
pub open spec fn phase_of(i: nat, count: nat) -> nat {
    if count == 0 {
        0
    } else if i * 9 / count > 8 {
        8
    } else {
        i * 9 / count
    }
}

/// The message of an error in a phase; that of a storm of retries names
/// an attempt.
pub open spec fn phase_error_message(k: nat, attempt: nat) -> Seq<char> {
    if k == 2 {
        "Connection pool exhausted: timeout waiting for connection"@
    } else if k == 3 {
        "Upstream service unavailable"@
    } else if k == 4 {
        "Retry attempt "@ + decimal_text(attempt) + " failed"@
    } else if k == 5 {
        "Circuit breaker OPEN - fast failing"@
    } else {
        "Internal server error"@
    }
}

/// What the phase of a trace adds to its attributes, and the position of
/// the stream behind it: the state of the circuit breaker and its
/// failures, the attempt of a retry and whether retries are exhausted, or
/// the state of the connection pool.
pub struct PhaseAttributes {
    pub attributes: Seq<Pair>,
    pub position: u128,
}

/// What the phase of a trace adds to its attributes.
pub open spec fn phase_attributes(seed: u64, p: u128, k: nat) -> PhaseAttributes {
    if k == 5 || k == 7 {
        PhaseAttributes {
            attributes: seq![
                Pair {
                    key: "circuit_breaker.state"@,
                    value: if k == 5 {
                        "open"@
                    } else {
                        "half-open"@
                    },
                },
                Pair {
                    key: "circuit_breaker.failures"@,
                    value: decimal_text((10 + chacha8_below32(seed, p, 20)) as nat),
                },
            ],
            position: chacha8_position_after_below32(seed, p, 20),
        }
    } else if k == 4 {
        let p1 = chacha8_position_after_below32(seed, p, 4);
        PhaseAttributes {
            attributes: seq![
                Pair {
                    key: "retry.attempt"@,
                    value: decimal_text((1 + chacha8_below32(seed, p, 4)) as nat),
                },
                Pair {
                    key: "retry.exhausted"@,
                    value: bool_text(1 + chacha8_below32(seed, p1, 4) >= 4),
                },
            ],
            position: chacha8_position_after_below32(seed, p1, 4),
        }
    } else if k == 2 {
        PhaseAttributes {
            attributes: seq![
                Pair { key: "db.connection_pool.active"@, value: "20"@ },
                Pair { key: "db.connection_pool.max"@, value: "20"@ },
                Pair {
                    key: "db.connection_pool.waiting"@,
                    value: decimal_text((10 + chacha8_below32(seed, p, 90)) as nat),
                },
            ],
            position: chacha8_position_after_below32(seed, p, 90),
        }
    } else {
        PhaseAttributes { attributes: Seq::empty(), position: p }
    }
}

/// What is drawn for trace `i` of `count` of an incident, in this order:
/// the service, among four; whether the trace is an error, by the rate of
/// its phase; the status of an error; the duration, from the usual
/// latency of the phase up to twice that; what the phase adds; and for an
/// error in a storm of retries the attempt that its message names.
pub open spec fn failure(seed: u64, p0: u128, i: nat, count: nat) -> Fixture {
    let k = phase_of(i, count);
    let s = choice_index(seed, p0, 4);
    let p1 = after_choice(seed, p0, 4);
    let error = toss_of(seed, p1, phase_error_rate(k));
    let c = choice_index(seed, error.position, 4);
    let p2 = if error.hit {
        after_choice(seed, error.position, 4)
    } else {
        error.position
    };
    let base = phase_latency(k);
    let extra = chacha8_below(seed, p2, base);
    let p3 = chacha8_position_after_below(seed, p2, base);
    let added = phase_attributes(seed, p3, k);
    let common = seq![
        Pair { key: "incident.phase"@, value: phase_name(k) },
        Pair { key: "scenario"@, value: "failure_patterns"@ },
    ] + added.attributes;
    let attempt = 1 + chacha8_below32(seed, added.position, 4);
    Fixture {
        service: incident_service(s),
        endpoint: "/api/v2/orders"@,
        status: if error.hit {
            error_status(c)
        } else {
            200
        },
        millis: (base + extra) as nat,
        attributes: if error.hit {
            common.push(
                Pair { key: "error.message"@, value: phase_error_message(k, attempt as nat) },
            )
        } else {
            common
        },
        position: if error.hit && k == 4 {
            chacha8_position_after_below32(seed, added.position, 4)
        } else {
            added.position
        },
    }
}

/// The name of a phase.
fn phase_text(k: usize) -> (s: &'static str)
    ensures
        s@ == phase_name(k as nat),
{
    if k == 0 {
        "pre-incident"
    } else if k == 1 {
        "degradation-start"
    } else if k == 2 {
        "pool-exhaustion"
    } else if k == 3 {
        "cascade-start"
    } else if k == 4 {
        "retry-storm"
    } else if k == 5 {
        "circuit-open"
    } else if k == 6 {
        "recovery-start"
    } else if k == 7 {
        "circuit-half-open"
    } else {
        "recovered"
    }
}

/// Draws trace `i` of `count` of an incident.
fn failure_trace(stream: &mut Stream, i: usize, count: usize) -> (t: Trace)
    requires
        i < count <= usize::MAX / 9,
    ensures
        final(stream).seed == old(stream).seed,
        is_fixture(
            t,
            id_text("fail-"@, i as nat),
            failure(old(stream).seed, old(stream).position, i as nat, count as nat),
        ),
        final(stream).position == failure(
            old(stream).seed,
            old(stream).position,
            i as nat,
            count as nat,
        ).position,
{
    let k: usize = if i * 9 / count > 8 {
        8
    } else {
        i * 9 / count
    };
    let s = stream.pick(4);
    let rate: u32 = if k == 0 {
        10_000
    } else if k == 1 {
        80_000
    } else if k == 2 {
        390_000
    } else if k == 3 {
        650_000
    } else if k == 4 {
        910_000
    } else if k == 5 {
        990_000
    } else if k == 6 {
        380_000
    } else if k == 7 {
        220_000
    } else {
        20_000
    };
    let is_error = stream.toss(rate);
    let status: u16 = if is_error {
        status_for(true, stream.pick(4))
    } else {
        200
    };
    let base: u64 = if k == 0 {
        45
    } else if k == 1 {
        500
    } else if k == 2 {
        5000
    } else if k == 3 {
        10_000
    } else if k == 4 {
        15_000
    } else if k == 5 {
        5
    } else if k == 6 {
        500
    } else if k == 7 {
        200
    } else {
        50
    };
    let millis = base + stream.below(base);
    let mut attrs: Vec<TraceAttribute> = Vec::new();
    assert(pairs_of(attrs@) =~= Seq::<Pair>::empty());
    push_pair(&mut attrs, "incident.phase", phase_text(k));
    push_pair(&mut attrs, "scenario", "failure_patterns");
    if k == 5 || k == 7 {
        if k == 5 {
            push_pair(&mut attrs, "circuit_breaker.state", "open");
        } else {
            push_pair(&mut attrs, "circuit_breaker.state", "half-open");
        }
        let failures = 10 + stream.below32(20);
        push_number(&mut attrs, "circuit_breaker.failures", failures as u128);
    } else if k == 4 {
        let attempt = 1 + stream.below32(4);
        push_number(&mut attrs, "retry.attempt", attempt as u128);
        let exhausted = 1 + stream.below32(4) >= 4;
        push_flag(&mut attrs, "retry.exhausted", exhausted);
    } else if k == 2 {
        push_pair(&mut attrs, "db.connection_pool.active", "20");
        push_pair(&mut attrs, "db.connection_pool.max", "20");
        let waiting = 10 + stream.below32(90);
        push_number(&mut attrs, "db.connection_pool.waiting", waiting as u128);
    }
    if is_error {
        if k == 2 {
            push_pair(
                &mut attrs,
                "error.message",
                "Connection pool exhausted: timeout waiting for connection",
            );
        } else if k == 3 {
            push_pair(&mut attrs, "error.message", "Upstream service unavailable");
        } else if k == 4 {
            let attempt = 1 + stream.below32(4);
            let mut message = String::new();
            message.append("Retry attempt ");
            append_decimal(&mut message, attempt as u128);
            message.append(" failed");
            assert(message@ =~= "Retry attempt "@ + decimal_text(attempt as nat) + " failed"@);
            push_pair(&mut attrs, "error.message", message.as_str());
        } else if k == 5 {
            push_pair(&mut attrs, "error.message", "Circuit breaker OPEN - fast failing");
        } else {
            push_pair(&mut attrs, "error.message", "Internal server error");
        }
    }
    let service = if s == 0 {
        "api-gateway"
    } else if s == 1 {
        "order-service"
    } else if s == 2 {
        "payment-service"
    } else {
        "inventory-service"
    };
    let id = trace_id("fail-", i);
    let t = fixture_trace(id.as_str(), service, "/api/v2/orders", status, millis, attrs);
    assert(pairs_of(t.attributes@) =~= failure(
        old(stream).seed,
        old(stream).position,
        i as nat,
        count as nat,
    ).attributes);
    t
}

/// The distributions of latency, by a number below five.
pub open spec fn distribution_name(k: nat) -> Seq<char> {
    if k == 0 {
        "bimodal"@
    } else if k == 1 {
        "long_tail"@
    } else if k == 2 {
        "cold_start"@
    } else if k == 3 {
        "gc_pause"@
    } else {
        "database"@
    }
}

/// Whether 64 drawn bits, read as a share of one by their upper 53 bits,
/// lie below so many thousandths.
pub open spec fn under(bits: u64, thousandths: nat) -> bool {
    (bits as nat / 2048) * 1000 < thousandths * 0x20_0000_0000_0000
}

/// Whether 64 drawn bits lie below so many thousandths.
fn is_under(bits: u64, thousandths: u64) -> (r: bool)
    requires
        thousandths <= 1000,
    ensures
        r == under(bits, thousandths as nat),
{
    ((bits / 2048) as u128) * 1000 < (thousandths as u128) * 0x20_0000_0000_0000
}

/// What is drawn for the latency of a trace, and its attribute.
pub struct Latency {
    pub millis: nat,
    pub attribute: Pair,
    pub position: u128,
}

/// A latency of two modes: a hit of the cache, 85 times in a hundred,
/// takes a few milliseconds, a miss a hundred and more.
pub open spec fn bimodal(seed: u64, p0: u128) -> Latency {
    let hit = toss_of(seed, p0, 850_000);
    let bound: u64 = if hit.hit {
        4
    } else {
        200
    };
    let low: nat = if hit.hit {
        1
    } else {
        100
    };
    Latency {
        millis: low + chacha8_below(seed, hit.position, bound) as nat,
        attribute: Pair { key: "cache.hit"@, value: bool_text(hit.hit) },
        position: chacha8_position_after_below(seed, hit.position, bound),
    }
}

/// A latency with a long tail: half the traces around fifty
/// milliseconds, and ever fewer ever slower, up to ten seconds for one
/// in a thousand.
pub open spec fn long_tail(seed: u64, p0: u128) -> Latency {
    let bits = chacha8_next(seed, p0);
    let p1 = two_words_on(p0);
    let low: nat = if under(bits, 500) {
        40
    } else if under(bits, 900) {
        60
    } else if under(bits, 990) {
        150
    } else if under(bits, 999) {
        500
    } else {
        2000
    };
    let bound: u64 = if under(bits, 500) {
        20
    } else if under(bits, 900) {
        90
    } else if under(bits, 990) {
        350
    } else if under(bits, 999) {
        1500
    } else {
        8000
    };
    Latency {
        millis: low + chacha8_below(seed, p1, bound) as nat,
        attribute: Pair {
            key: "latency.percentile"@,
            value: if under(bits, 500) {
                "p50"@
            } else if under(bits, 900) {
                "p90"@
            } else if under(bits, 990) {
                "p99"@
            } else {
                "p99.9"@
            },
        },
        position: chacha8_position_after_below(seed, p1, bound),
    }
}

/// A latency with cold starts: five in a hundred take five seconds and
/// more.
pub open spec fn cold_start(seed: u64, p0: u128) -> Latency {
    let cold = toss_of(seed, p0, 50_000);
    let bound: u64 = if cold.hit {
        7000
    } else {
        400
    };
    let low: nat = if cold.hit {
        5000
    } else {
        200
    };
    Latency {
        millis: low + chacha8_below(seed, cold.position, bound) as nat,
        attribute: Pair { key: "faas.cold_start"@, value: bool_text(cold.hit) },
        position: chacha8_position_after_below(seed, cold.position, bound),
    }
}

/// A latency with pauses for garbage collection: two in a hundred wait
/// for a pause of up to fifteen seconds.
pub open spec fn gc_pause(seed: u64, p0: u128) -> Latency {
    let event = toss_of(seed, p0, 20_000);
    if event.hit {
        let gc = 100 + chacha8_below(seed, event.position, 14_900);
        let p1 = chacha8_position_after_below(seed, event.position, 14_900);
        Latency {
            millis: (50 + chacha8_below(seed, p1, 150) + gc) as nat,
            attribute: Pair { key: "jvm.gc_pause_ms"@, value: decimal_text(gc as nat) },
            position: chacha8_position_after_below(seed, p1, 150),
        }
    } else {
        Latency {
            millis: (50 + chacha8_below(seed, event.position, 150)) as nat,
            attribute: Pair { key: "jvm.gc_pause_ms"@, value: decimal_text(0) },
            position: chacha8_position_after_below(seed, event.position, 150),
        }
    }
}

/// The latency of a database: nine queries in ten use an index and take
/// a few milliseconds.
pub open spec fn database(seed: u64, p0: u128) -> Latency {
    let indexed = toss_of(seed, p0, 900_000);
    let bound: u64 = if indexed.hit {
        9
    } else {
        1900
    };
    let low: nat = if indexed.hit {
        1
    } else {
        100
    };
    Latency {
        millis: low + chacha8_below(seed, indexed.position, bound) as nat,
        attribute: Pair { key: "db.index_used"@, value: bool_text(indexed.hit) },
        position: chacha8_position_after_below(seed, indexed.position, bound),
    }
}

/// What is drawn for trace `i` of the distributions of latency: the
/// traces take the five distributions in turn.
pub open spec fn latency(seed: u64, p0: u128, i: nat) -> Fixture {
    let k = i % 5;
    let l = if k == 0 {
        bimodal(seed, p0)
    } else if k == 1 {
        long_tail(seed, p0)
    } else if k == 2 {
        cold_start(seed, p0)
    } else if k == 3 {
        gc_pause(seed, p0)
    } else {
        database(seed, p0)
    };
    Fixture {
        service: "latency-test-service"@,
        endpoint: "/api/v2/test"@,
        status: 200,
        millis: l.millis,
        attributes: seq![
            Pair { key: "latency.distribution"@, value: distribution_name(k) },
            Pair { key: "scenario"@, value: "latency_distributions"@ },
            l.attribute,
        ],
        position: l.position,
    }
}

/// Draws trace `i` of the distributions of latency.
fn latency_trace(stream: &mut Stream, i: usize) -> (t: Trace)
    ensures
        final(stream).seed == old(stream).seed,
        is_fixture(
            t,
            id_text("lat-"@, i as nat),
            latency(old(stream).seed, old(stream).position, i as nat),
        ),
        final(stream).position == latency(old(stream).seed, old(stream).position, i as nat).position,
{
    let k = i % 5;
    let mut attrs: Vec<TraceAttribute> = Vec::new();
    assert(pairs_of(attrs@) =~= Seq::<Pair>::empty());
    let millis: u64;
    if k == 0 {
        push_pair(&mut attrs, "latency.distribution", "bimodal");
        push_pair(&mut attrs, "scenario", "latency_distributions");
        let hit = stream.toss(850_000);
        millis = if hit {
            1 + stream.below(4)
        } else {
            100 + stream.below(200)
        };
        push_flag(&mut attrs, "cache.hit", hit);
    } else if k == 1 {
        push_pair(&mut attrs, "latency.distribution", "long_tail");
        push_pair(&mut attrs, "scenario", "latency_distributions");
        let bits = stream.bits();
        if is_under(bits, 500) {
            millis = 40 + stream.below(20);
            push_pair(&mut attrs, "latency.percentile", "p50");
        } else if is_under(bits, 900) {
            millis = 60 + stream.below(90);
            push_pair(&mut attrs, "latency.percentile", "p90");
        } else if is_under(bits, 990) {
            millis = 150 + stream.below(350);
            push_pair(&mut attrs, "latency.percentile", "p99");
        } else if is_under(bits, 999) {
            millis = 500 + stream.below(1500);
            push_pair(&mut attrs, "latency.percentile", "p99.9");
        } else {
            millis = 2000 + stream.below(8000);
            push_pair(&mut attrs, "latency.percentile", "p99.9");
        }
    } else if k == 2 {
        push_pair(&mut attrs, "latency.distribution", "cold_start");
        push_pair(&mut attrs, "scenario", "latency_distributions");
        let cold = stream.toss(50_000);
        millis = if cold {
            5000 + stream.below(7000)
        } else {
            200 + stream.below(400)
        };
        push_flag(&mut attrs, "faas.cold_start", cold);
    } else if k == 3 {
        push_pair(&mut attrs, "latency.distribution", "gc_pause");
        push_pair(&mut attrs, "scenario", "latency_distributions");
        let event = stream.toss(20_000);
        if event {
            let gc = 100 + stream.below(14_900);
            millis = 50 + stream.below(150) + gc;
            push_number(&mut attrs, "jvm.gc_pause_ms", gc as u128);
        } else {
            millis = 50 + stream.below(150);
            push_number(&mut attrs, "jvm.gc_pause_ms", 0);
        }
    } else {
        push_pair(&mut attrs, "latency.distribution", "database");
        push_pair(&mut attrs, "scenario", "latency_distributions");
        let indexed = stream.toss(900_000);
        millis = if indexed {
            1 + stream.below(9)
        } else {
            100 + stream.below(1900)
        };
        push_flag(&mut attrs, "db.index_used", indexed);
    }
    let id = trace_id("lat-", i);
    let t = fixture_trace(id.as_str(), "latency-test-service", "/api/v2/test", 200, millis, attrs);
    assert(pairs_of(t.attributes@) =~= latency(
        old(stream).seed,
        old(stream).position,
        i as nat,
    ).attributes);
    t
}

/// The patterns of instrumentation, by a number below six.
pub open spec fn pattern_name(k: nat) -> Seq<char> {
    if k == 0 {
        "wide_event"@
    } else if k == 1 {
        "deep_trace"@
    } else if k == 2 {
        "high_cardinality"@
    } else if k == 3 {
        "sampling_decision"@
    } else if k == 4 {
        "multi_tenant"@
    } else {
        "correlation"@
    }
}

/// A number of 64 bits in sixteen hexadecimal digits behind a prefix.
pub open spec fn tagged(prefix: Seq<char>, v: u64) -> Seq<char> {
    prefix + hex_digits(v as nat, 16)
}

/// A number of 128 bits, given by its lower and its upper half, in 32
/// hexadecimal digits behind a prefix.
pub open spec fn tagged_wide(prefix: Seq<char>, low: u64, high: u64) -> Seq<char> {
    prefix + hex_digits(high as nat, 16) + hex_digits(low as nat, 16)
}

/// What a pattern adds to the attributes of a trace, and the position of
/// the stream behind it.
pub struct PatternAttributes {
    pub attributes: Seq<Pair>,
    pub position: u128,
}

/// A wide event: identifiers of the user, the session and the request, a
/// cart and how it is paid.
pub open spec fn wide_event(seed: u64, p0: u128) -> PatternAttributes {
    let p1 = two_words_on(p0);
    let p2 = two_words_on(p1);
    let p3 = two_words_on(p2);
    let p4 = chacha8_position_after_below32(seed, p3, 9);
    let p5 = chacha8_position_after_below32(seed, p4, 49_000);
    let method = choice_index(seed, p5, 3);
    PatternAttributes {
        attributes: seq![
            Pair { key: "user.id"@, value: tagged("usr_"@, chacha8_next(seed, p0)) },
            Pair { key: "session.id"@, value: tagged("sess_"@, chacha8_next(seed, p1)) },
            Pair { key: "request.id"@, value: tagged("req_"@, chacha8_next(seed, p2)) },
            Pair {
                key: "cart.item_count"@,
                value: decimal_text((1 + chacha8_below32(seed, p3, 9)) as nat),
            },
            Pair {
                key: "cart.total_cents"@,
                value: decimal_text((1000 + chacha8_below32(seed, p4, 49_000)) as nat),
            },
            Pair {
                key: "payment.method"@,
                value: if method == 0 {
                    "card"@
                } else if method == 1 {
                    "paypal"@
                } else {
                    "apple_pay"@
                },
            },
            Pair { key: "attribute_count"@, value: "50+"@ },
        ],
        position: after_choice(seed, p5, 3),
    }
}

/// A deep trace: its depth, the number of its spans and of the services
/// involved.
pub open spec fn deep_trace(seed: u64, p0: u128) -> PatternAttributes {
    let p1 = chacha8_position_after_below32(seed, p0, 10);
    let p2 = chacha8_position_after_below32(seed, p1, 450);
    PatternAttributes {
        attributes: seq![
            Pair { key: "trace.depth"@, value: decimal_text((5 + chacha8_below32(seed, p0, 10)) as nat) },
            Pair { key: "span_count"@, value: decimal_text((50 + chacha8_below32(seed, p1, 450)) as nat) },
            Pair {
                key: "trace.services_involved"@,
                value: decimal_text((5 + chacha8_below32(seed, p2, 10)) as nat),
            },
        ],
        position: chacha8_position_after_below32(seed, p2, 10),
    }
}

/// Attributes of high cardinality: identifiers of 128 bits, each drawn as
/// its lower half and then its upper half.
pub open spec fn high_cardinality(seed: u64, p0: u128) -> PatternAttributes {
    let p1 = two_words_on(p0);
    let p2 = two_words_on(p1);
    let p3 = two_words_on(p2);
    PatternAttributes {
        attributes: seq![
            Pair {
                key: "user.id"@,
                value: tagged_wide("usr_"@, chacha8_next(seed, p0), chacha8_next(seed, p1)),
            },
            Pair {
                key: "request.id"@,
                value: tagged_wide("req_"@, chacha8_next(seed, p2), chacha8_next(seed, p3)),
            },
            Pair { key: "cardinality.warning"@, value: "true"@ },
        ],
        position: two_words_on(p3),
    }
}

/// A sampling decision: the decision, the rule that made it and its rate.
pub open spec fn sampling_decision(seed: u64, p0: u128) -> PatternAttributes {
    let d = choice_index(seed, p0, 3);
    PatternAttributes {
        attributes: if d == 0 {
            seq![
                Pair { key: "sampling.decision"@, value: "keep"@ },
                Pair { key: "sampling.rule"@, value: "keep-rule"@ },
                Pair { key: "sampling.rate"@, value: "1.0"@ },
            ]
        } else if d == 1 {
            seq![
                Pair { key: "sampling.decision"@, value: "sample"@ },
                Pair { key: "sampling.rule"@, value: "sample-rule"@ },
                Pair { key: "sampling.rate"@, value: "0.10"@ },
            ]
        } else {
            seq![
                Pair { key: "sampling.decision"@, value: "drop"@ },
                Pair { key: "sampling.rule"@, value: "drop-rule"@ },
                Pair { key: "sampling.rate"@, value: "0.0"@ },
            ]
        },
        position: after_choice(seed, p0, 3),
    }
}

/// A tenant: its tier is drawn first, then its identifier; only the
/// highest tier is isolated.
pub open spec fn multi_tenant(seed: u64, p0: u128) -> PatternAttributes {
    let tier = choice_index(seed, p0, 3);
    let p1 = after_choice(seed, p0, 3);
    PatternAttributes {
        attributes: seq![
            Pair {
                key: "tenant.id"@,
                value: "tenant_"@ + hex_text(chacha8_next32(seed, p1) as nat),
            },
            Pair {
                key: "tenant.tier"@,
                value: if tier == 0 {
                    "enterprise"@
                } else if tier == 1 {
                    "business"@
                } else {
                    "starter"@
                },
            },
            Pair {
                key: "tenant.isolation"@,
                value: if tier == 0 {
                    "dedicated"@
                } else {
                    "shared"@
                },
            },
        ],
        position: chacha8_position_after_next32(seed, p1),
    }
}

/// A correlation: the identifiers of an order and of a user.
pub open spec fn correlation(seed: u64, p0: u128) -> PatternAttributes {
    let p1 = two_words_on(p0);
    PatternAttributes {
        attributes: seq![
            Pair { key: "correlation.order_id"@, value: tagged("ord_"@, chacha8_next(seed, p0)) },
            Pair { key: "correlation.user_id"@, value: tagged("usr_"@, chacha8_next(seed, p1)) },
        ],
        position: two_words_on(p1),
    }
}

/// What is drawn for trace `i` of the patterns of instrumentation: its
/// duration, from fifty milliseconds up to half a second, and then what
/// its pattern adds; the traces take the six patterns in turn.
pub open spec fn observability(seed: u64, p0: u128, i: nat) -> Fixture {
    let k = i % 6;
    let p1 = chacha8_position_after_below(seed, p0, 450);
    let added = if k == 0 {
        wide_event(seed, p1)
    } else if k == 1 {
        deep_trace(seed, p1)
    } else if k == 2 {
        high_cardinality(seed, p1)
    } else if k == 3 {
        sampling_decision(seed, p1)
    } else if k == 4 {
        multi_tenant(seed, p1)
    } else {
        correlation(seed, p1)
    };
    Fixture {
        service: "api-gateway"@,
        endpoint: "/api/v2/checkout"@,
        status: 200,
        millis: (50 + chacha8_below(seed, p0, 450)) as nat,
        attributes: seq![
            Pair { key: "pattern"@, value: pattern_name(k) },
            Pair { key: "scenario"@, value: "observability_patterns"@ },
        ] + added.attributes,
        position: added.position,
    }
}

/// Appends an attribute whose value is a number of 64 bits in sixteen
/// hexadecimal digits behind a prefix.
fn push_tagged(attrs: &mut Vec<TraceAttribute>, key: &str, prefix: &str, v: u64)
    ensures
        pairs_of(final(attrs)@) == pairs_of(old(attrs)@).push(
            Pair { key: key@, value: tagged(prefix@, v) },
        ),
{
    let mut text = String::new();
    text.append(prefix);
    text.append(hex16(v).as_str());
    assert(text@ =~= tagged(prefix@, v));
    push_pair(attrs, key, text.as_str());
}

/// Appends an attribute whose value is a number of 128 bits in 32
/// hexadecimal digits behind a prefix.
fn push_tagged_wide(attrs: &mut Vec<TraceAttribute>, key: &str, prefix: &str, low: u64, high: u64)
    ensures
        pairs_of(final(attrs)@) == pairs_of(old(attrs)@).push(
            Pair { key: key@, value: tagged_wide(prefix@, low, high) },
        ),
{
    let mut text = String::new();
    text.append(prefix);
    text.append(hex16(high).as_str());
    text.append(hex16(low).as_str());
    assert(text@ =~= tagged_wide(prefix@, low, high));
    push_pair(attrs, key, text.as_str());
}

/// Draws trace `i` of the patterns of instrumentation.
fn observability_trace(stream: &mut Stream, i: usize) -> (t: Trace)
    ensures
        final(stream).seed == old(stream).seed,
        is_fixture(
            t,
            id_text("obs-"@, i as nat),
            observability(old(stream).seed, old(stream).position, i as nat),
        ),
        final(stream).position == observability(
            old(stream).seed,
            old(stream).position,
            i as nat,
        ).position,
{
    let k = i % 6;
    let millis = 50 + stream.below(450);
    let mut attrs: Vec<TraceAttribute> = Vec::new();
    assert(pairs_of(attrs@) =~= Seq::<Pair>::empty());
    if k == 0 {
        push_pair(&mut attrs, "pattern", "wide_event");
        push_pair(&mut attrs, "scenario", "observability_patterns");
        let user = stream.bits();
        push_tagged(&mut attrs, "user.id", "usr_", user);
        let session = stream.bits();
        push_tagged(&mut attrs, "session.id", "sess_", session);
        let request = stream.bits();
        push_tagged(&mut attrs, "request.id", "req_", request);
        let items = 1 + stream.below32(9);
        push_number(&mut attrs, "cart.item_count", items as u128);
        let cents = 1000 + stream.below32(49_000);
        push_number(&mut attrs, "cart.total_cents", cents as u128);
        let method = stream.pick(3);
        if method == 0 {
            push_pair(&mut attrs, "payment.method", "card");
        } else if method == 1 {
            push_pair(&mut attrs, "payment.method", "paypal");
        } else {
            push_pair(&mut attrs, "payment.method", "apple_pay");
        }
        push_pair(&mut attrs, "attribute_count", "50+");
    } else if k == 1 {
        push_pair(&mut attrs, "pattern", "deep_trace");
        push_pair(&mut attrs, "scenario", "observability_patterns");
        let depth = 5 + stream.below32(10);
        let spans = 50 + stream.below32(450);
        push_number(&mut attrs, "trace.depth", depth as u128);
        push_number(&mut attrs, "span_count", spans as u128);
        let services = 5 + stream.below32(10);
        push_number(&mut attrs, "trace.services_involved", services as u128);
    } else if k == 2 {
        push_pair(&mut attrs, "pattern", "high_cardinality");
        push_pair(&mut attrs, "scenario", "observability_patterns");
        let user_low = stream.bits();
        let user_high = stream.bits();
        push_tagged_wide(&mut attrs, "user.id", "usr_", user_low, user_high);
        let request_low = stream.bits();
        let request_high = stream.bits();
        push_tagged_wide(&mut attrs, "request.id", "req_", request_low, request_high);
        push_pair(&mut attrs, "cardinality.warning", "true");
    } else if k == 3 {
        push_pair(&mut attrs, "pattern", "sampling_decision");
        push_pair(&mut attrs, "scenario", "observability_patterns");
        let decision = stream.pick(3);
        if decision == 0 {
            push_pair(&mut attrs, "sampling.decision", "keep");
            push_pair(&mut attrs, "sampling.rule", "keep-rule");
            push_pair(&mut attrs, "sampling.rate", "1.0");
        } else if decision == 1 {
            push_pair(&mut attrs, "sampling.decision", "sample");
            push_pair(&mut attrs, "sampling.rule", "sample-rule");
            push_pair(&mut attrs, "sampling.rate", "0.10");
        } else {
            push_pair(&mut attrs, "sampling.decision", "drop");
            push_pair(&mut attrs, "sampling.rule", "drop-rule");
            push_pair(&mut attrs, "sampling.rate", "0.0");
        }
    } else if k == 4 {
        push_pair(&mut attrs, "pattern", "multi_tenant");
        push_pair(&mut attrs, "scenario", "observability_patterns");
        let tier = stream.pick(3);
        let tenant = stream.bits32();
        let mut id = String::new();
        id.append("tenant_");
        id.append(hex8(tenant as usize).as_str());
        assert(id@ =~= "tenant_"@ + hex_text(tenant as nat));
        push_pair(&mut attrs, "tenant.id", id.as_str());
        if tier == 0 {
            push_pair(&mut attrs, "tenant.tier", "enterprise");
            push_pair(&mut attrs, "tenant.isolation", "dedicated");
        } else if tier == 1 {
            push_pair(&mut attrs, "tenant.tier", "business");
            push_pair(&mut attrs, "tenant.isolation", "shared");
        } else {
            push_pair(&mut attrs, "tenant.tier", "starter");
            push_pair(&mut attrs, "tenant.isolation", "shared");
        }
    } else {
        push_pair(&mut attrs, "pattern", "correlation");
        push_pair(&mut attrs, "scenario", "observability_patterns");
        let order = stream.bits();
        push_tagged(&mut attrs, "correlation.order_id", "ord_", order);
        let user = stream.bits();
        push_tagged(&mut attrs, "correlation.user_id", "usr_", user);
    }
    let id = trace_id("obs-", i);
    let t = fixture_trace(id.as_str(), "api-gateway", "/api/v2/checkout", 200, millis, attrs);
    assert(pairs_of(t.attributes@) =~= observability(
        old(stream).seed,
        old(stream).position,
        i as nat,
    ).attributes);
    t
}

/// The scenarios that fixtures are generated for.
#[derive(Debug, Clone, Copy, PartialEq, Eq, Structural)]
pub enum FixtureScenario {
    /// A topology of services.
    MicroservicesTopology,
    /// An incident in its phases.
    FailurePatterns,
    /// Distributions of latency.
    LatencyDistributions,
    /// Patterns of instrumentation.
    ObservabilityPatterns,
}

/// What is drawn for trace `i` of `count` of a scenario.
pub open spec fn drawn(scenario: FixtureScenario, seed: u64, p: u128, i: nat, count: nat) -> Fixture {
    match scenario {
        FixtureScenario::MicroservicesTopology => topology(seed, p),
        FixtureScenario::FailurePatterns => failure(seed, p, i, count),
        FixtureScenario::LatencyDistributions => latency(seed, p, i),
        FixtureScenario::ObservabilityPatterns => observability(seed, p, i),
    }
}

/// What the identifiers of the traces of a scenario begin with.
pub open spec fn prefix_of(scenario: FixtureScenario) -> Seq<char> {
    match scenario {
        FixtureScenario::MicroservicesTopology => "topo-"@,
        FixtureScenario::FailurePatterns => "fail-"@,
        FixtureScenario::LatencyDistributions => "lat-"@,
        FixtureScenario::ObservabilityPatterns => "obs-"@,
    }
}

/// The position of the stream before trace `i` of `count` is drawn, where
/// the first is drawn at `start`.
pub open spec fn position_before(
    scenario: FixtureScenario,
    seed: u64,
    start: u128,
    i: nat,
    count: nat,
) -> u128
    decreases i,
{
    if i == 0 {
        start
    } else {
        drawn(
            scenario,
            seed,
            position_before(scenario, seed, start, (i - 1) as nat, count),
            (i - 1) as nat,
            count,
        ).position
    }
}

/// Whether the traces are those of a scenario, `count` of them, drawn
/// one after the other from the stream at `start`.
pub open spec fn are_fixtures(
    traces: Seq<Trace>,
    scenario: FixtureScenario,
    seed: u64,
    start: u128,
    count: nat,
) -> bool {
    &&& traces.len() == count
    &&& forall|i: int|
        0 <= i < count ==> is_fixture(
            #[trigger] traces[i],
            id_text(prefix_of(scenario), i as nat),
            drawn(
                scenario,
                seed,
                position_before(scenario, seed, start, i as nat, count),
                i as nat,
                count,
            ),
        )
}

/// The scenarios of the mix of production, in their order.
pub open spec fn mix_scenario(j: nat) -> FixtureScenario {
    if j == 0 {
        FixtureScenario::MicroservicesTopology
    } else if j == 1 {
        FixtureScenario::FailurePatterns
    } else if j == 2 {
        FixtureScenario::LatencyDistributions
    } else {
        FixtureScenario::ObservabilityPatterns
    }
}

/// The position of the stream before part `j` of the mix of production
/// is drawn, each part of `each` traces.
pub open spec fn mix_start(seed: u64, each: nat, j: nat) -> u128
    decreases j,
{
    if j == 0 {
        0
    } else {
        position_before(
            mix_scenario((j - 1) as nat),
            seed,
            mix_start(seed, each, (j - 1) as nat),
            each,
            each,
        )
    }
}

/// The part of number `j` of traces in parts of `each`.
pub open spec fn part(traces: Seq<Trace>, each: nat, j: nat) -> Seq<Trace> {
    traces.subrange((j * each) as int, ((j + 1) * each) as int)
}

/// Whether the traces are the mix of production: four parts of `each`
/// traces, one of each scenario, drawn one after the other from the
/// start of the stream.
pub open spec fn is_mix(traces: Seq<Trace>, seed: u64, each: nat) -> bool {
    &&& traces.len() == 4 * each
    &&& are_fixtures(part(traces, each, 0), mix_scenario(0), seed, mix_start(seed, each, 0), each)
    &&& are_fixtures(part(traces, each, 1), mix_scenario(1), seed, mix_start(seed, each, 1), each)
    &&& are_fixtures(part(traces, each, 2), mix_scenario(2), seed, mix_start(seed, each, 2), each)
    &&& are_fixtures(part(traces, each, 3), mix_scenario(3), seed, mix_start(seed, each, 3), each)
}

/// A generator of fixtures.
#[derive(Debug, Clone, Copy)]
pub struct FixtureGenerator {
    /// The random stream.
    pub stream: Stream,
    /// What the generator was made with.
    pub config: FixtureConfig,
}

impl FixtureGenerator {
    /// Creates a generator at the start of its stream.
    pub fn new(config: FixtureConfig) -> (g: Self)
        ensures
            g.config == config,
            g.stream == (Stream { seed: config.seed, position: 0 }),
    {
        FixtureGenerator { stream: Stream::new(config.seed), config }
    }

    /// Generates `count` traces of a scenario.
    pub fn generate(&mut self, scenario: FixtureScenario, count: usize) -> (traces: Vec<Trace>)
        requires
            scenario == FixtureScenario::FailurePatterns ==> count <= usize::MAX / 9,
        ensures
            final(self).config == old(self).config,
            final(self).stream.seed == old(self).stream.seed,
            are_fixtures(
                traces@,
                scenario,
                old(self).stream.seed,
                old(self).stream.position,
                count as nat,
            ),
            final(self).stream.position == position_before(
                scenario,
                old(self).stream.seed,
                old(self).stream.position,
                count as nat,
                count as nat,
            ),
    {
        let mut traces: Vec<Trace> = Vec::new();
        let ghost seed = self.stream.seed;
        let ghost start = self.stream.position;
        let mut i: usize = 0;
        while i < count
            invariant
                i <= count,
                scenario == FixtureScenario::FailurePatterns ==> count <= usize::MAX / 9,
                self.config == old(self).config,
                self.stream.seed == seed,
                traces@.len() == i,
                forall|k: int|
                    0 <= k < i ==> is_fixture(
                        #[trigger] traces@[k],
                        id_text(prefix_of(scenario), k as nat),
                        drawn(
                            scenario,
                            seed,
                            position_before(scenario, seed, start, k as nat, count as nat),
                            k as nat,
                            count as nat,
                        ),
                    ),
                self.stream.position == position_before(scenario, seed, start, i as nat, count as nat),
            decreases count - i,
        {
            let trace = match scenario {
                FixtureScenario::MicroservicesTopology => topology_trace(&mut self.stream, i),
                FixtureScenario::FailurePatterns => failure_trace(&mut self.stream, i, count),
                FixtureScenario::LatencyDistributions => latency_trace(&mut self.stream, i),
                FixtureScenario::ObservabilityPatterns => observability_trace(&mut self.stream, i),
            };
            traces.push(trace);
            i += 1;
        }
        traces
    }

    /// The corpus of a topology of services.
    pub fn microservices_topology(&mut self) -> (corpus: Corpus)
        ensures
            final(self).config == old(self).config,
            final(self).stream.seed == old(self).stream.seed,
            are_fixtures(
                corpus@,
                FixtureScenario::MicroservicesTopology,
                old(self).stream.seed,
                old(self).stream.position,
                old(self).config.trace_count as nat,
            ),
    {
        let traces = self.generate(FixtureScenario::MicroservicesTopology, self.config.trace_count);
        Corpus::from_traces(traces)
    }

    /// The corpus of an incident in its phases.
    pub fn failure_patterns(&mut self) -> (corpus: Corpus)
        requires
            old(self).config.trace_count <= usize::MAX / 9,
        ensures
            final(self).config == old(self).config,
            final(self).stream.seed == old(self).stream.seed,
            are_fixtures(
                corpus@,
                FixtureScenario::FailurePatterns,
                old(self).stream.seed,
                old(self).stream.position,
                old(self).config.trace_count as nat,
            ),
    {
        let traces = self.generate(FixtureScenario::FailurePatterns, self.config.trace_count);
        Corpus::from_traces(traces)
    }

    /// The corpus of the distributions of latency.
    pub fn latency_distributions(&mut self) -> (corpus: Corpus)
        ensures
            final(self).config == old(self).config,
            final(self).stream.seed == old(self).stream.seed,
            are_fixtures(
                corpus@,
                FixtureScenario::LatencyDistributions,
                old(self).stream.seed,
                old(self).stream.position,
                old(self).config.trace_count as nat,
            ),
    {
        let traces = self.generate(FixtureScenario::LatencyDistributions, self.config.trace_count);
        Corpus::from_traces(traces)
    }

    /// The corpus of the patterns of instrumentation.
    pub fn observability_patterns(&mut self) -> (corpus: Corpus)
        ensures
            final(self).config == old(self).config,
            final(self).stream.seed == old(self).stream.seed,
            are_fixtures(
                corpus@,
                FixtureScenario::ObservabilityPatterns,
                old(self).stream.seed,
                old(self).stream.position,
                old(self).config.trace_count as nat,
            ),
    {
        let traces = self.generate(FixtureScenario::ObservabilityPatterns, self.config.trace_count);
        Corpus::from_traces(traces)
    }

    /// The mix of production: a quarter of the configured traces of each
    /// scenario, drawn from the start of the stream.
    pub fn production_mix(&mut self) -> (corpus: Corpus)
        requires
            old(self).config.trace_count / 4 <= usize::MAX / 9,
        ensures
            final(self).config == old(self).config,
            final(self).stream.seed == old(self).config.seed,
            is_mix(corpus@, old(self).config.seed, (old(self).config.trace_count / 4) as nat),
    {
        let each = self.config.trace_count / 4;
        self.stream = Stream::new(self.config.seed);
        let ghost seed = self.config.seed;
        let mut all = self.generate(FixtureScenario::MicroservicesTopology, each);
        let ghost first = all@;
        let mut second = self.generate(FixtureScenario::FailurePatterns, each);
        let ghost second_part = second@;
        let mut third = self.generate(FixtureScenario::LatencyDistributions, each);
        let ghost third_part = third@;
        let mut fourth = self.generate(FixtureScenario::ObservabilityPatterns, each);
        let ghost fourth_part = fourth@;
        all.append(&mut second);
        all.append(&mut third);
        all.append(&mut fourth);
        proof {
            let n = each as nat;
            assert(mix_start(seed, n, 0) == 0);
            assert(mix_start(seed, n, 1) == position_before(mix_scenario(0), seed, 0, n, n));
            assert(mix_start(seed, n, 2) == position_before(
                mix_scenario(1),
                seed,
                mix_start(seed, n, 1),
                n,
                n,
            ));
            assert(mix_start(seed, n, 3) == position_before(
                mix_scenario(2),
                seed,
                mix_start(seed, n, 2),
                n,
                n,
            ));
            assert(all@ == first + second_part + third_part + fourth_part);
            assert(0 * n == 0 && 1 * n == n && 2 * n == n + n && 3 * n == n + n + n && 4 * n == n
                + n + n + n) by (nonlinear_arith);
            assert(part(all@, n, 0) =~= first);
            assert(part(all@, n, 1) =~= second_part);
            assert(part(all@, n, 2) =~= third_part);
            assert(part(all@, n, 3) =~= fourth_part);
        }
        Corpus::from_traces(all)
    }
}

/// The mix of production under a seed, of about the given size.
pub fn production_corpus(seed: u64, size: usize) -> (corpus: Corpus)
    requires
        size / 4 <= usize::MAX / 9,
    ensures
        is_mix(corpus@, seed, (size / 4) as nat),
{
    let config = FixtureConfig::default().with_seed(seed).with_count(size);
    let mut generator = FixtureGenerator::new(config);
    generator.production_mix()
}

/// The corpus of an incident under a seed, of the given size.
pub fn failure_corpus(seed: u64, size: usize) -> (corpus: Corpus)
    requires
        size <= usize::MAX / 9,
    ensures
        are_fixtures(corpus@, FixtureScenario::FailurePatterns, seed, 0, size as nat),
{
    let config = FixtureConfig::default().with_seed(seed).with_count(size);
    let mut generator = FixtureGenerator::new(config);
    generator.failure_patterns()
}

/// The corpus of the distributions of latency under a seed, of the given
/// size.
pub fn latency_corpus(seed: u64, size: usize) -> (corpus: Corpus)
    ensures
        are_fixtures(corpus@, FixtureScenario::LatencyDistributions, seed, 0, size as nat),
{
    let config = FixtureConfig::default().with_seed(seed).with_count(size);
    let mut generator = FixtureGenerator::new(config);
    generator.latency_distributions()
}

} // verus!
