//! Seeded generation of trace corpora for trying policies out.
//!
//! A generator draws everything from one ChaCha8 stream, so that a seed
//! and a configuration give one corpus and no other.

use vstd::prelude::*;
use vstd::string::StringExecFns;
use crate::copies::copy_texts;
use crate::corpus::Corpus;
use crate::lockfile::{hex16, hex_digits};
use crate::policy::RATE_ONE;
use crate::rng::{
    after_choice, chacha8_below, chacha8_position_after_below, choice_index, draw_below, pick,
    toss, toss_of,
};
use crate::text::{append_decimal, chars_of, decimal_text, slice_chars, str_eq, string_of};
use crate::trace::{bare_trace, is_bare_trace, Trace};

verus! {

/// What a generator of corpora is made with.
#[derive(Debug, Clone)]
pub struct SyntheticConfig {
    /// Seed of the random stream.
    pub seed: u64,
    /// Number of traces to generate.
    pub trace_count: usize,
    /// Share of the traces that are errors, in millionths.
    pub error_rate: u32,
    /// Share of the traces that are slow, in millionths.
    pub slow_rate: u32,
    /// From how many milliseconds on a trace is slow.
    pub slow_threshold_ms: u64,
    /// The services that traces come from.
    pub services: Vec<String>,
    /// Number of routes of each service.
    pub routes_per_service: usize,
}

/// The texts of a sequence of strings.
pub open spec fn texts(v: Seq<String>) -> Seq<Seq<char>> {
    Seq::new(v.len(), |i: int| v[i]@)
}

/// The services of the default configuration.
pub open spec fn default_services() -> Seq<Seq<char>> {
    seq![
        "api-gateway"@,
        "user-service"@,
        "order-service"@,
        "payment-service"@,
        "inventory-service"@,
    ]
}

impl Default for SyntheticConfig {
    /// A thousand traces of five services under seed 42, one in twenty an
    /// error and one in ten slow, slow from five seconds on.
    fn default() -> (c: Self)
        ensures
            c.seed == 42,
            c.trace_count == 1000,
            c.error_rate == 50_000,
            c.slow_rate == 100_000,
            c.slow_threshold_ms == 5000,
            texts(c.services@) == default_services(),
            c.routes_per_service == 5,
            c.is_usable(),
    {
        let mut services: Vec<String> = Vec::new();
        services.push("api-gateway".to_owned());
        services.push("user-service".to_owned());
        services.push("order-service".to_owned());
        services.push("payment-service".to_owned());
        services.push("inventory-service".to_owned());
        assert(texts(services@) =~= default_services());
        SyntheticConfig {
            seed: 42,
            trace_count: 1000,
            error_rate: 50_000,
            slow_rate: 100_000,
            slow_threshold_ms: 5000,
            services,
            routes_per_service: 5,
        }
    }
}

impl SyntheticConfig {
    /// Sets the seed.
    pub fn with_seed(self, seed: u64) -> (c: Self)
        ensures
            c == (SyntheticConfig { seed, ..self }),
    {
        let mut config = self;
        config.seed = seed;
        config
    }

    /// Sets the number of traces.
    pub fn with_trace_count(self, count: usize) -> (c: Self)
        ensures
            c == (SyntheticConfig { trace_count: count, ..self }),
    {
        let mut config = self;
        config.trace_count = count;
        config
    }

    /// Sets the share of errors, in millionths.
    pub fn with_error_rate(self, rate: u32) -> (c: Self)
        ensures
            c == (SyntheticConfig { error_rate: rate, ..self }),
    {
        let mut config = self;
        config.error_rate = rate;
        config
    }

    /// Whether a generator made with the configuration can draw traces:
    /// there is a service, each service gets a route, the rates are
    /// shares, and the threshold leaves room for durations below and above
    /// it.
    pub open spec fn is_usable(&self) -> bool {
        &&& self.services@.len() > 0
        &&& self.routes_per_service > 0
        &&& self.error_rate <= RATE_ONE
        &&& self.slow_rate <= RATE_ONE
        &&& 10 < self.slow_threshold_ms <= u64::MAX - 10_000
    }

    /// A copy of the configuration.
    pub fn copy(&self) -> (c: Self)
        ensures
            c.seed == self.seed,
            c.trace_count == self.trace_count,
            c.error_rate == self.error_rate,
            c.slow_rate == self.slow_rate,
            c.slow_threshold_ms == self.slow_threshold_ms,
            c.services@ == self.services@,
            c.routes_per_service == self.routes_per_service,
    {
        SyntheticConfig {
            seed: self.seed,
            trace_count: self.trace_count,
            error_rate: self.error_rate,
            slow_rate: self.slow_rate,
            slow_threshold_ms: self.slow_threshold_ms,
            services: copy_texts(&self.services),
            routes_per_service: self.routes_per_service,
        }
    }

    /// Sets the share of slow traces, in millionths.
    pub fn with_slow_rate(self, rate: u32) -> (c: Self)
        ensures
            c == (SyntheticConfig { slow_rate: rate, ..self }),
    {
        let mut config = self;
        config.slow_rate = rate;
        config
    }
}

/// The digits without zeros in front, as long as more than `width` are
/// left.
pub open spec fn without_leading_zeros(s: Seq<char>, width: nat) -> Seq<char>
    decreases s.len(),
{
    if s.len() > width && s[0] == '0' {
        without_leading_zeros(s.subrange(1, s.len() as int), width)
    } else {
        s
    }
}

/// A number in hexadecimal digits, in lower case, at least eight of them.
pub open spec fn hex_text(v: nat) -> Seq<char> {
    without_leading_zeros(hex_digits(v, 16), 8)
}

/// A number in hexadecimal digits, in lower case, with zeros in front up
/// to eight digits.
pub fn hex8(v: usize) -> (s: String)
    ensures
        s@ == hex_text(v as nat),
{
    let all = hex16(v as u64);
    let chars = chars_of(all.as_str());
    let n = chars.len();
    let mut i: usize = 0;
    assert(chars@.subrange(0, n as int) =~= chars@);
    while i < n && n - i > 8 && chars[i] == '0'
        invariant
            n == chars@.len(),
            i <= n,
            without_leading_zeros(chars@, 8) == without_leading_zeros(
                chars@.subrange(i as int, n as int),
                8,
            ),
        decreases n - i,
    {
        proof {
            let rest = chars@.subrange(i as int, n as int);
            assert(rest[0] == '0');
            assert(rest.subrange(1, rest.len() as int) =~= chars@.subrange(i + 1, n as int));
        }
        i += 1;
    }
    let rest = slice_chars(chars.as_slice(), i, n);
    string_of(rest.as_slice())
}

/// The resource of a number below five.
pub open spec fn resource_name(k: nat) -> Seq<char> {
    if k == 0 {
        "users"@
    } else if k == 1 {
        "orders"@
    } else if k == 2 {
        "products"@
    } else if k == 3 {
        "payments"@
    } else {
        "inventory"@
    }
}

/// The route of a template below five for a resource: the collection of
/// the resource, one item of it, the collection in the second version of
/// the interface, the health check, or the metrics.
pub open spec fn route_text(template: nat, resource: Seq<char>) -> Seq<char> {
    if template == 0 {
        "/api/v1/"@ + resource
    } else if template == 1 {
        "/api/v1/"@ + resource + "/123"@
    } else if template == 2 {
        "/api/v2/"@ + resource
    } else if template == 3 {
        "/health"@
    } else {
        "/metrics"@
    }
}

/// The route of a template for the resource of a number.
fn route_for(template: usize, resource: usize) -> (s: String)
    ensures
        s@ == route_text(template as nat, resource_name(resource as nat)),
{
    let name = if resource == 0 {
        "users"
    } else if resource == 1 {
        "orders"
    } else if resource == 2 {
        "products"
    } else if resource == 3 {
        "payments"
    } else {
        "inventory"
    };
    let mut s = String::new();
    if template == 0 {
        s.append("/api/v1/");
        s.append(name);
        assert(s@ =~= "/api/v1/"@ + name@);
    } else if template == 1 {
        s.append("/api/v1/");
        s.append(name);
        s.append("/123");
        assert(s@ =~= "/api/v1/"@ + name@ + "/123"@);
    } else if template == 2 {
        s.append("/api/v2/");
        s.append(name);
        assert(s@ =~= "/api/v2/"@ + name@);
    } else if template == 3 {
        s.append("/health");
        assert(s@ =~= "/health"@);
    } else {
        s.append("/metrics");
        assert(s@ =~= "/metrics"@);
    }
    s
}

/// Routes drawn for a service, and the position of the stream behind
/// them.
pub struct Routes {
    pub list: Seq<Seq<char>>,
    pub position: u128,
}

/// The first `n` routes of a service, drawn from the stream at a position:
/// for each route a template is chosen among the five and then a resource
/// among the five, whether the template names one or not.
pub open spec fn service_routes(seed: u64, position: u128, n: nat) -> Routes
    decreases n,
{
    if n == 0 {
        Routes { list: Seq::empty(), position }
    } else {
        let before = service_routes(seed, position, (n - 1) as nat);
        let template = choice_index(seed, before.position, 5);
        let then = after_choice(seed, before.position, 5);
        let resource = choice_index(seed, then, 5);
        Routes {
            list: before.list.push(route_text(template, resource_name(resource))),
            position: after_choice(seed, then, 5),
        }
    }
}

/// The routes of several services, and the position of the stream behind
/// them.
pub struct RouteTable {
    pub lists: Seq<Seq<Seq<char>>>,
    pub position: u128,
}

/// The routes of the first `services` services, `each` for every one,
/// drawn one service after the other.
pub open spec fn route_table(seed: u64, position: u128, services: nat, each: nat) -> RouteTable
    decreases services,
{
    if services == 0 {
        RouteTable { lists: Seq::empty(), position }
    } else {
        let before = route_table(seed, position, (services - 1) as nat, each);
        let next = service_routes(seed, before.position, each);
        RouteTable { lists: before.lists.push(next.list), position: next.position }
    }
}

/// A service has as many routes as were asked for.
pub proof fn lemma_service_routes_len(seed: u64, position: u128, n: nat)
    ensures
        service_routes(seed, position, n).list.len() == n,
    decreases n,
{
    if n > 0 {
        lemma_service_routes_len(seed, position, (n - 1) as nat);
    }
}

/// A table holds a list for each service, each of the length asked for.
pub proof fn lemma_route_table_shape(seed: u64, position: u128, services: nat, each: nat)
    ensures
        route_table(seed, position, services, each).lists.len() == services,
        forall|k: int|
            0 <= k < services ==> (#[trigger] route_table(
                seed,
                position,
                services,
                each,
            ).lists[k]).len() == each,
    decreases services,
{
    if services > 0 {
        let before = route_table(seed, position, (services - 1) as nat, each);
        lemma_route_table_shape(seed, position, (services - 1) as nat, each);
        lemma_service_routes_len(seed, before.position, each);
    }
}

/// The texts of the lists of a table.
pub open spec fn table_texts(v: Seq<Vec<String>>) -> Seq<Seq<Seq<char>>> {
    Seq::new(v.len(), |i: int| texts(v[i]@))
}

/// What a generator draws its traces from.
pub struct GeneratorModel {
    pub seed: u64,
    pub error_rate: u32,
    pub slow_rate: u32,
    pub slow_threshold_ms: u64,
    pub services: Seq<Seq<char>>,
    pub routes: Seq<Seq<Seq<char>>>,
}

/// The last of the first `n` services that has the given name, or 0 if
/// none has.
pub open spec fn last_named(services: Seq<Seq<char>>, name: Seq<char>, n: nat) -> nat
    decreases n,
{
    if n == 0 {
        0
    } else if services[n - 1] == name {
        (n - 1) as nat
    } else {
        last_named(services, name, (n - 1) as nat)
    }
}

/// The status of an error, by a number below four.
pub open spec fn error_status(k: nat) -> u16 {
    if k == 0 {
        500
    } else if k == 1 {
        502
    } else if k == 2 {
        503
    } else {
        504
    }
}

/// The status of a success, by a number below three.
pub open spec fn success_status(k: nat) -> u16 {
    if k == 0 {
        200
    } else if k == 1 {
        201
    } else {
        204
    }
}

/// What is drawn for one trace, and the position of the stream behind it.
pub struct DrawnTrace {
    pub service: Seq<char>,
    pub endpoint: Seq<char>,
    pub status: u16,
    pub millis: nat,
    pub position: u128,
}

/// What a generator draws for a trace with its stream at a position, in
/// this order: the service; one of the routes of the service, those of the
/// last service of that name; whether the trace is an error; whether it is
/// slow; the status, among those of errors or those of successes; and the
/// duration, up to ten seconds above the threshold for a slow trace and
/// from ten milliseconds up to the threshold for any other.
pub open spec fn drawn_trace(m: GeneratorModel, position: u128) -> DrawnTrace {
    let s = choice_index(m.seed, position, m.services.len());
    let p1 = after_choice(m.seed, position, m.services.len());
    let routes = m.routes[last_named(m.services, m.services[s as int], m.services.len()) as int];
    let r = choice_index(m.seed, p1, routes.len());
    let p2 = after_choice(m.seed, p1, routes.len());
    let error = toss_of(m.seed, p2, m.error_rate);
    let slow = toss_of(m.seed, error.position, m.slow_rate);
    let kinds: nat = if error.hit {
        4
    } else {
        3
    };
    let c = choice_index(m.seed, slow.position, kinds);
    let p3 = after_choice(m.seed, slow.position, kinds);
    let bound = if slow.hit {
        10_000u64
    } else {
        (m.slow_threshold_ms - 10) as u64
    };
    let base: nat = if slow.hit {
        m.slow_threshold_ms as nat
    } else {
        10
    };
    DrawnTrace {
        service: m.services[s as int],
        endpoint: routes[r as int],
        status: if error.hit {
            error_status(c)
        } else {
            success_status(c)
        },
        millis: base + chacha8_below(m.seed, p3, bound) as nat,
        position: chacha8_position_after_below(m.seed, p3, bound),
    }
}

/// The position of the stream before the trace of number `i` is drawn,
/// where the first is drawn at `start`.
pub open spec fn position_at(m: GeneratorModel, start: u128, i: nat) -> u128
    decreases i,
{
    if i == 0 {
        start
    } else {
        drawn_trace(m, position_at(m, start, (i - 1) as nat)).position
    }
}

/// The identifier of the generated trace of a number.
pub open spec fn trace_id_text(index: nat) -> Seq<char> {
    "trace-"@ + hex_text(index)
}

/// Whether a trace is the one of number `index` that a generator draws
/// with its stream at a position.
pub open spec fn is_drawn(t: Trace, m: GeneratorModel, position: u128, index: nat) -> bool {
    let d = drawn_trace(m, position);
    is_bare_trace(
        t,
        trace_id_text(index),
        d.millis * 1_000_000,
        d.status,
        d.service,
        Some(d.endpoint),
    )
}

/// The position of the stream before the trace of number `i` of a corpus
/// of many services is drawn.
pub open spec fn crowd_position_at(seed: u64, start: u128, i: nat) -> u128
    decreases i,
{
    if i == 0 {
        start
    } else {
        chacha8_position_after_below(seed, crowd_position_at(seed, start, (i - 1) as nat), 990)
    }
}

/// Whether a trace is the one of number `index` of a corpus of many
/// services, drawn with the stream at a position: its service and its
/// endpoint carry its number, it succeeds, and it lasts from ten
/// milliseconds up to a second.
pub open spec fn is_one_of_crowd(t: Trace, seed: u64, position: u128, index: nat) -> bool {
    is_bare_trace(
        t,
        "hc-"@ + hex_text(index),
        (10 + chacha8_below(seed, position, 990) as nat) * 1_000_000,
        200,
        "service-"@ + hex_text(index),
        Some("/api/v1/resource-"@ + decimal_text(index)),
    )
}

/// Whether a corpus is the one of the edge cases: ten errors, ten slow
/// traces, and a trace on either side of the two boundaries, of status
/// 500 and of five seconds.
pub open spec fn is_edge_cases(c: Seq<Trace>) -> bool {
    &&& c.len() == 22
    &&& forall|i: int|
        0 <= i < 10 ==> is_bare_trace(
            #[trigger] c[i],
            "error-"@ + decimal_text(i as nat),
            100_000_000,
            500,
            "error-service"@,
            None,
        )
    &&& forall|i: int|
        10 <= i < 20 ==> is_bare_trace(
            #[trigger] c[i],
            "slow-"@ + decimal_text((i - 10) as nat),
            30_000_000_000,
            200,
            "slow-service"@,
            None,
        )
    &&& is_bare_trace(c[20], "boundary-499"@, 4_999_000_000, 499, "boundary-service"@, None)
    &&& is_bare_trace(c[21], "boundary-500"@, 5_000_000_000, 500, "boundary-service"@, None)
}

/// A generator of corpora.
#[derive(Debug, Clone)]
pub struct SyntheticCorpus {
    /// What the generator was made with.
    pub config: SyntheticConfig,
    /// Where the random stream stands, in words.
    pub position: u128,
    /// The routes of each service, in the order of the services.
    pub routes: Vec<Vec<String>>,
}

/// The index of the last service that has the name of service `k`.
fn last_with_name(services: &Vec<String>, k: usize) -> (j: usize)
    requires
        k < services@.len(),
    ensures
        j == last_named(texts(services@), services@[k as int]@, services@.len()),
        j < services@.len(),
{
    let mut n = services.len();
    while n > 0
        invariant
            k < n <= services@.len(),
            last_named(texts(services@), services@[k as int]@, services@.len()) == last_named(
                texts(services@),
                services@[k as int]@,
                n as nat,
            ),
        decreases n,
    {
        if str_eq(services[n - 1].as_str(), services[k].as_str()) {
            return n - 1;
        }
        n -= 1;
    }
    0
}

impl SyntheticCorpus {
    /// What the generator draws from.
    pub open spec fn model(&self) -> GeneratorModel {
        GeneratorModel {
            seed: self.config.seed,
            error_rate: self.config.error_rate,
            slow_rate: self.config.slow_rate,
            slow_threshold_ms: self.config.slow_threshold_ms,
            services: texts(self.config.services@),
            routes: table_texts(self.routes@),
        }
    }

    /// Whether the generator can draw a trace: there is a service, each
    /// service has a route, the rates are shares, and the threshold leaves
    /// room for durations below and above it.
    pub open spec fn can_generate(&self) -> bool {
        &&& self.config.services@.len() > 0
        &&& self.routes@.len() == self.config.services@.len()
        &&& forall|k: int| 0 <= k < self.routes@.len() ==> (#[trigger] self.routes@[k])@.len() > 0
        &&& self.config.error_rate <= RATE_ONE
        &&& self.config.slow_rate <= RATE_ONE
        &&& 10 < self.config.slow_threshold_ms <= u64::MAX - 10_000
    }

    /// Creates a generator: the routes of the services are drawn at once,
    /// from the start of the stream.
    pub fn new(config: SyntheticConfig) -> (g: Self)
        ensures
            g.config == config,
            table_texts(g.routes@) == route_table(
                config.seed,
                0,
                config.services@.len(),
                config.routes_per_service as nat,
            ).lists,
            g.position == route_table(
                config.seed,
                0,
                config.services@.len(),
                config.routes_per_service as nat,
            ).position,
            config.is_usable() ==> g.can_generate(),
    {
        proof {
            lemma_route_table_shape(
                config.seed,
                0,
                config.services@.len(),
                config.routes_per_service as nat,
            );
        }
        let seed = config.seed;
        let each = config.routes_per_service;
        let count = config.services.len();
        let mut routes: Vec<Vec<String>> = Vec::new();
        let mut position: u128 = 0;
        let mut k: usize = 0;
        assert(table_texts(routes@) =~= route_table(seed, 0, 0, each as nat).lists);
        while k < count
            invariant
                k <= count,
                routes@.len() == k,
                table_texts(routes@) == route_table(seed, 0, k as nat, each as nat).lists,
                position == route_table(seed, 0, k as nat, each as nat).position,
            decreases count - k,
        {
            let ghost start = position;
            let mut list: Vec<String> = Vec::new();
            let mut j: usize = 0;
            assert(texts(list@) =~= service_routes(seed, start, 0).list);
            while j < each
                invariant
                    j <= each,
                    texts(list@) == service_routes(seed, start, j as nat).list,
                    position == service_routes(seed, start, j as nat).position,
                decreases each - j,
            {
                let template = pick(seed, position, 5);
                let resource = pick(seed, template.position, 5);
                let route = route_for(template.index, resource.index);
                let ghost before = list@;
                list.push(route);
                position = resource.position;
                j += 1;
                assert(texts(list@) =~= texts(before).push(route@));
            }
            let ghost before = routes@;
            routes.push(list);
            k += 1;
            assert(table_texts(routes@) =~= table_texts(before).push(texts(list@)));
        }
        proof {
            if config.is_usable() {
                assert forall|k: int| 0 <= k < routes@.len() implies (#[trigger] routes@[k])@.len()
                    > 0 by {
                    assert(table_texts(routes@)[k].len() == each);
                }
            }
        }
        SyntheticCorpus { config, position, routes }
    }

    /// Draws the trace of number `index`.
    fn generate_trace(&mut self, index: usize) -> (t: Trace)
        requires
            old(self).can_generate(),
        ensures
            final(self).config == old(self).config,
            final(self).routes == old(self).routes,
            is_drawn(t, old(self).model(), old(self).position, index as nat),
            final(self).position == drawn_trace(old(self).model(), old(self).position).position,
    {
        let seed = self.config.seed;
        let threshold = self.config.slow_threshold_ms;
        let service = pick(seed, self.position, self.config.services.len());
        let home = last_with_name(&self.config.services, service.index);
        let route = pick(seed, service.position, self.routes[home].len());
        let error = toss(seed, route.position, self.config.error_rate);
        let slow = toss(seed, error.position, self.config.slow_rate);
        let kind = if error.hit {
            pick(seed, slow.position, 4)
        } else {
            pick(seed, slow.position, 3)
        };
        let status: u16 = if error.hit {
            if kind.index == 0 {
                500
            } else if kind.index == 1 {
                502
            } else if kind.index == 2 {
                503
            } else {
                504
            }
        } else {
            if kind.index == 0 {
                200
            } else if kind.index == 1 {
                201
            } else {
                204
            }
        };
        let extra = if slow.hit {
            draw_below(seed, kind.position, 10_000)
        } else {
            draw_below(seed, kind.position, threshold - 10)
        };
        let millis: u64 = if slow.hit {
            threshold + extra.value
        } else {
            10 + extra.value
        };
        let mut id = String::new();
        id.append("trace-");
        id.append(hex8(index).as_str());
        assert(id@ =~= trace_id_text(index as nat));
        let trace = bare_trace(
            id.as_str(),
            millis,
            status,
            self.config.services[service.index].as_str(),
            Some(self.routes[home][route.index].as_str()),
        );
        self.position = extra.position;
        trace
    }

    /// Generates the corpus of the configuration: as many traces as it
    /// asks for, drawn one after the other.
    pub fn generate(&mut self) -> (corpus: Corpus)
        requires
            old(self).config.trace_count > 0 ==> old(self).can_generate(),
        ensures
            final(self).config == old(self).config,
            final(self).routes == old(self).routes,
            corpus@.len() == old(self).config.trace_count,
            forall|i: int|
                0 <= i < corpus@.len() ==> is_drawn(
                    #[trigger] corpus@[i],
                    old(self).model(),
                    position_at(old(self).model(), old(self).position, i as nat),
                    i as nat,
                ),
            final(self).position == position_at(
                old(self).model(),
                old(self).position,
                old(self).config.trace_count as nat,
            ),
    {
        let mut corpus = Corpus::new();
        let count = self.config.trace_count;
        let ghost m = self.model();
        let ghost start = self.position;
        let mut i: usize = 0;
        while i < count
            invariant
                i <= count,
                count > 0 ==> self.can_generate(),
                self.config == old(self).config,
                self.routes == old(self).routes,
                self.model() == m,
                corpus@.len() == i,
                forall|k: int|
                    0 <= k < i ==> is_drawn(
                        #[trigger] corpus@[k],
                        m,
                        position_at(m, start, k as nat),
                        k as nat,
                    ),
                self.position == position_at(m, start, i as nat),
            decreases count - i,
        {
            let trace = self.generate_trace(i);
            corpus.add(trace);
            i += 1;
        }
        corpus
    }

    /// Generates the corpus of the edge cases.
    pub fn generate_edge_cases(&mut self) -> (corpus: Corpus)
        ensures
            *final(self) == *old(self),
            is_edge_cases(corpus@),
    {
        let mut corpus = Corpus::new();
        let mut i: usize = 0;
        while i < 10
            invariant
                i <= 10,
                corpus@.len() == i,
                forall|k: int|
                    0 <= k < i ==> is_bare_trace(
                        #[trigger] corpus@[k],
                        "error-"@ + decimal_text(k as nat),
                        100_000_000,
                        500,
                        "error-service"@,
                        None,
                    ),
            decreases 10 - i,
        {
            let mut id = String::new();
            id.append("error-");
            append_decimal(&mut id, i as u128);
            assert(id@ =~= "error-"@ + decimal_text(i as nat));
            corpus.add(bare_trace(id.as_str(), 100, 500, "error-service", None));
            i += 1;
        }
        let mut j: usize = 0;
        while j < 10
            invariant
                j <= 10,
                corpus@.len() == 10 + j,
                forall|k: int|
                    0 <= k < 10 ==> is_bare_trace(
                        #[trigger] corpus@[k],
                        "error-"@ + decimal_text(k as nat),
                        100_000_000,
                        500,
                        "error-service"@,
                        None,
                    ),
                forall|k: int|
                    10 <= k < 10 + j ==> is_bare_trace(
                        #[trigger] corpus@[k],
                        "slow-"@ + decimal_text((k - 10) as nat),
                        30_000_000_000,
                        200,
                        "slow-service"@,
                        None,
                    ),
            decreases 10 - j,
        {
            let mut id = String::new();
            id.append("slow-");
            append_decimal(&mut id, j as u128);
            assert(id@ =~= "slow-"@ + decimal_text(j as nat));
            corpus.add(bare_trace(id.as_str(), 30_000, 200, "slow-service", None));
            j += 1;
        }
        corpus.add(bare_trace("boundary-499", 4999, 499, "boundary-service", None));
        corpus.add(bare_trace("boundary-500", 5000, 500, "boundary-service", None));
        corpus
    }

    /// Generates a corpus of as many services as traces, each trace of a
    /// service of its own.
    pub fn generate_high_cardinality(&mut self, unique_services: usize) -> (corpus: Corpus)
        ensures
            final(self).config == old(self).config,
            final(self).routes == old(self).routes,
            corpus@.len() == unique_services,
            forall|i: int|
                0 <= i < corpus@.len() ==> is_one_of_crowd(
                    #[trigger] corpus@[i],
                    old(self).config.seed,
                    crowd_position_at(old(self).config.seed, old(self).position, i as nat),
                    i as nat,
                ),
            final(self).position == crowd_position_at(
                old(self).config.seed,
                old(self).position,
                unique_services as nat,
            ),
    {
        let mut corpus = Corpus::new();
        let seed = self.config.seed;
        let ghost start = self.position;
        let mut i: usize = 0;
        while i < unique_services
            invariant
                i <= unique_services,
                self.config == old(self).config,
                self.routes == old(self).routes,
                seed == self.config.seed,
                corpus@.len() == i,
                forall|k: int|
                    0 <= k < i ==> is_one_of_crowd(
                        #[trigger] corpus@[k],
                        seed,
                        crowd_position_at(seed, start, k as nat),
                        k as nat,
                    ),
                self.position == crowd_position_at(seed, start, i as nat),
            decreases unique_services - i,
        {
            let number = hex8(i);
            let mut id = String::new();
            id.append("hc-");
            id.append(number.as_str());
            assert(id@ =~= "hc-"@ + hex_text(i as nat));
            let mut service = String::new();
            service.append("service-");
            service.append(number.as_str());
            assert(service@ =~= "service-"@ + hex_text(i as nat));
            let mut endpoint = String::new();
            endpoint.append("/api/v1/resource-");
            append_decimal(&mut endpoint, i as u128);
            assert(endpoint@ =~= "/api/v1/resource-"@ + decimal_text(i as nat));
            let extra = draw_below(seed, self.position, 990);
            corpus.add(
                bare_trace(
                    id.as_str(),
                    10 + extra.value,
                    200,
                    service.as_str(),
                    Some(endpoint.as_str()),
                ),
            );
            self.position = extra.position;
            i += 1;
        }
        corpus
    }
}

/// What the generator of the default configuration under a seed draws
/// from.
pub open spec fn default_model(seed: u64) -> GeneratorModel {
    GeneratorModel {
        seed,
        error_rate: 50_000,
        slow_rate: 100_000,
        slow_threshold_ms: 5000,
        services: default_services(),
        routes: route_table(seed, 0, 5, 5).lists,
    }
}

/// The corpus of the default configuration under a seed, of the given
/// size.
pub fn deterministic_corpus(seed: u64, size: usize) -> (corpus: Corpus)
    ensures
        corpus@.len() == size,
        forall|i: int|
            0 <= i < corpus@.len() ==> is_drawn(
                #[trigger] corpus@[i],
                default_model(seed),
                position_at(default_model(seed), route_table(seed, 0, 5, 5).position, i as nat),
                i as nat,
            ),
{
    let config = SyntheticConfig::default().with_seed(seed).with_trace_count(size);
    let mut generator = SyntheticCorpus::new(config);
    proof {
        assert(generator.config.services@.len() == texts(generator.config.services@).len());
        assert(generator.model() == default_model(seed));
    }
    generator.generate()
}

} // verus!
