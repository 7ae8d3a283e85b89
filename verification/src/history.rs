//! What a server's counters say of its history.

use crate::error::ProxyError;
use crate::server::{Fetch, ServerView};
use reqwest::Client;
use vstd::prelude::*;

verus! {

/// Something that happened to a server.
pub enum ServerEvent {
    /// A request came in and was refused, or sent to its target.
    Request { path: Seq<char>, now: nat, due: nat, answer: Result<Fetch, ProxyError> },
    /// A forwarded request came back with a body.
    Answered { host: Seq<char>, client: Client },
    /// A forwarded request failed.
    Broken { host: Seq<char> },
    /// A stream or a future asked the rate limit for a token.
    Token { now: nat, due: nat, got: Result<(), ProxyError> },
    /// Anything else: a route was added or removed, the rate limit was replaced, the metrics
    /// were read.
    Aside,
}

/// One event, with the server before and after it.
pub struct Step {
    pub before: ServerView,
    pub event: ServerEvent,
    pub after: ServerView,
}

impl Step {
    /// Whether the event takes the server from `before` to `after`.
    pub open spec fn valid(self) -> bool {
        match self.event {
            ServerEvent::Request { path, now, due, answer } => self.before.handled(
                path,
                now,
                due,
                self.after,
                answer,
            ),
            ServerEvent::Answered { host, client } => self.after == self.before.answered(
                host,
                client,
            ),
            ServerEvent::Broken { host } => self.after == self.before.broken(host),
            ServerEvent::Token { now, due, got } => {
                &&& crate::limiter::token_answer(self.before.limiter.grants(now, due), got)
                &&& self.after == (ServerView {
                    limiter: self.before.limiter.acquired(now, due),
                    ..self.before
                })
            },
            ServerEvent::Aside => self.after == (ServerView {
                limiter: self.after.limiter,
                routes: self.after.routes,
                ..self.before
            }),
        }
    }

    /// Whether a request came in.
    pub open spec fn comes_in(self) -> bool {
        self.event is Request
    }

    /// Whether the rate limit was asked for a token.
    pub open spec fn asks(self) -> bool {
        self.event is Request || self.event is Token
    }

    /// How many tokens fell due by then.
    pub open spec fn due(self) -> nat {
        match self.event {
            ServerEvent::Request { due, .. } => due,
            ServerEvent::Token { due, .. } => due,
            _ => 0,
        }
    }

    /// Whether a request was let past the rate limit, or a stream or a future got a token:
    /// it was not answered that the limit is exceeded.
    pub open spec fn passes(self) -> bool {
        match self.event {
            ServerEvent::Request { answer: Ok(_), .. } => true,
            ServerEvent::Request { answer: Err(e), .. } => e != ProxyError::RateLimitExceeded,
            ServerEvent::Token { got, .. } => got is Ok,
            _ => false,
        }
    }

    /// Whether a request was sent over a connection that had been idle.
    pub open spec fn reuses(self) -> bool {
        self.event matches ServerEvent::Request { answer: Ok(fetch), .. }
            && self.before.pool.hosts.contains_key(fetch.host@)
            && self.before.pool.hosts[fetch.host@].idle.len() > 0
    }

    /// Whether a request was sent over a new connection.
    pub open spec fn makes(self) -> bool {
        self.event matches ServerEvent::Request { answer: Ok(fetch), .. } && !(
        self.before.pool.hosts.contains_key(fetch.host@)
            && self.before.pool.hosts[fetch.host@].idle.len() > 0)
    }

    /// Whether a request that was sent to its target ended.
    pub open spec fn comes_back(self) -> bool {
        self.event is Answered || self.event is Broken
    }

    /// Whether a request ended with a body.
    pub open spec fn succeeds(self) -> bool {
        self.event is Answered
    }

    /// Whether a request ended in an error.
    pub open spec fn fails(self) -> bool {
        self.event is Broken || (self.event matches ServerEvent::Request { answer, .. } && answer is Err)
    }
}

/// How many requests came in.
pub open spec fn came_in(steps: Seq<Step>) -> nat
    decreases steps.len(),
{
    if steps.len() == 0 {
        0
    } else {
        came_in(steps.drop_last()) + (if steps.last().comes_in() {
            1nat
        } else {
            0nat
        })
    }
}

/// How many requests ended with a body.
pub open spec fn succeeded(steps: Seq<Step>) -> nat
    decreases steps.len(),
{
    if steps.len() == 0 {
        0
    } else {
        succeeded(steps.drop_last()) + (if steps.last().succeeds() {
            1nat
        } else {
            0nat
        })
    }
}

/// How many requests ended in an error.
pub open spec fn failed(steps: Seq<Step>) -> nat
    decreases steps.len(),
{
    if steps.len() == 0 {
        0
    } else {
        failed(steps.drop_last()) + (if steps.last().fails() {
            1nat
        } else {
            0nat
        })
    }
}

/// How many requests were sent to their targets and did not end yet.
pub open spec fn under_way(steps: Seq<Step>) -> int
    decreases steps.len(),
{
    if steps.len() == 0 {
        0
    } else {
        under_way(steps.drop_last()) + match steps.last().event {
            ServerEvent::Request { answer: Ok(_), .. } => 1int,
            ServerEvent::Answered { .. } => -1int,
            ServerEvent::Broken { .. } => -1int,
            _ => 0int,
        }
    }
}

/// How many steps have a property.
pub open spec fn count(steps: Seq<Step>, which: spec_fn(Step) -> bool) -> nat
    decreases steps.len(),
{
    if steps.len() == 0 {
        0
    } else {
        count(steps.drop_last(), which) + (if which(steps.last()) {
            1nat
        } else {
            0nat
        })
    }
}

/// How many tokens fell due.
pub open spec fn tokens_due(steps: Seq<Step>) -> nat
    decreases steps.len(),
{
    if steps.len() == 0 {
        0
    } else {
        tokens_due(steps.drop_last()) + steps.last().due()
    }
}

/// How the steps leave a server that was as `start` before them.
pub open spec fn server_after(start: ServerView, steps: Seq<Step>) -> ServerView {
    if steps.len() == 0 {
        start
    } else {
        steps.last().after
    }
}

/// Whether the steps follow each other, from a server that was as `start` and had no request
/// under way. A request comes back only if one is under way: what it was sent with is handed
/// out once and used up when it comes back.
pub open spec fn is_history(start: ServerView, steps: Seq<Step>) -> bool
    decreases steps.len(),
{
    steps.len() == 0 || {
        &&& is_history(start, steps.drop_last())
        &&& steps.last().valid()
        &&& steps.last().before == server_after(start, steps.drop_last())
        &&& steps.last().comes_back() ==> under_way(steps.drop_last()) > 0
    }
}

/// Every request that came in is under way or ended, with a body or in an error. So no more
/// succeed, fail or both together than came in.
pub proof fn requests_are_accounted_for(start: ServerView, steps: Seq<Step>)
    requires
        is_history(start, steps),
    ensures
        succeeded(steps) + failed(steps) + under_way(steps) == came_in(steps),
        under_way(steps) >= 0,
        succeeded(steps) + failed(steps) <= came_in(steps),
    decreases steps.len(),
{
    if steps.len() > 0 {
        requests_are_accounted_for(start, steps.drop_last());
    }
}

/// The number of values of a counter, at which it wraps around.
pub open spec fn wrap() -> int {
    0x1_0000_0000_0000_0000
}

/// Where a counter stands `n` steps of one after it stood at `from`.
pub open spec fn counted_on(from: u64, n: nat) -> u64 {
    ((from + n) % wrap()) as u64
}

/// One more step of one.
proof fn lemma_count_one_more(from: u64, n: nat)
    ensures
        counted_on(from, n).wrapping_add(1) == counted_on(from, n + 1),
{
}

/// What one step does to the counters.
proof fn lemma_step_moves(step: Step)
    requires
        step.valid(),
    ensures
        step.after.total == (if step.comes_in() {
            step.before.total.wrapping_add(1)
        } else {
            step.before.total
        }),
        step.after.successful == (if step.succeeds() {
            step.before.successful.wrapping_add(1)
        } else {
            step.before.successful
        }),
        step.after.failed == (if step.fails() {
            step.before.failed.wrapping_add(1)
        } else {
            step.before.failed
        }),
{
}

/// The counters move with the history, for any number of requests: by one for each request
/// that came in, that was answered with a body, and that ended in an error.
pub proof fn counters_move_with_the_history(start: ServerView, steps: Seq<Step>)
    requires
        is_history(start, steps),
    ensures
        server_after(start, steps).total == counted_on(start.total, came_in(steps)),
        server_after(start, steps).successful == counted_on(start.successful, succeeded(steps)),
        server_after(start, steps).failed == counted_on(start.failed, failed(steps)),
    decreases steps.len(),
{
    if steps.len() > 0 {
        let fewer = steps.drop_last();
        counters_move_with_the_history(start, fewer);
        lemma_step_moves(steps.last());
        lemma_count_one_more(start.total, came_in(fewer));
        lemma_count_one_more(start.successful, succeeded(fewer));
        lemma_count_one_more(start.failed, failed(fewer));
    }
}

/// What one step does to the bucket.
proof fn lemma_step_tokens(step: Step)
    requires
        step.valid(),
        step.before.limiter.tokens <= step.before.limiter.capacity,
        step.event is Aside ==> step.after.limiter == step.before.limiter,
    ensures
        ({
            let before = step.before.limiter;
            let after = step.after.limiter;
            let found: nat = if before.tokens + step.due() <= before.capacity {
                before.tokens + step.due()
            } else {
                before.capacity
            };
            &&& step.passes() ==> step.asks()
            &&& step.asks() ==> (step.passes() <==> found > 0)
            &&& step.passes() ==> after.tokens == found - 1
            &&& !step.passes() ==> after.tokens == found
            &&& after.capacity == before.capacity
            &&& after.refill_rate == before.refill_rate
        }),
{
}

/// Over a history of requests with their answers in between, every request that is let past
/// the rate limit takes exactly one token, and nothing else does but the streams and futures
/// that ask for one: what was let past and what is left are together no more than was in the
/// bucket and fell due, and exactly that unless the capacity cut something off. While nothing
/// falls due, as many of those who ask are let past as there were tokens, if so many ask.
pub proof fn one_token_for_each_request(start: ServerView, steps: Seq<Step>)
    requires
        is_history(start, steps),
        start.limiter.tokens <= start.limiter.capacity,
        forall|i: int|
            0 <= i < steps.len() && (#[trigger] steps[i]).event is Aside ==> steps[i].after.limiter
                == steps[i].before.limiter,
    ensures
        ({
            let after = server_after(start, steps).limiter;
            let passed = count(steps, |step: Step| step.passes());
            let asked = count(steps, |step: Step| step.asks());
            &&& after.capacity == start.limiter.capacity
            &&& after.refill_rate == start.limiter.refill_rate
            &&& after.tokens <= after.capacity
            &&& passed + after.tokens <= start.limiter.tokens + tokens_due(steps)
            &&& start.limiter.tokens + tokens_due(steps) <= start.limiter.capacity ==> passed
                + after.tokens == start.limiter.tokens + tokens_due(steps)
            &&& tokens_due(steps) == 0 && asked <= start.limiter.tokens ==> passed == asked
            &&& tokens_due(steps) == 0 && asked > start.limiter.tokens ==> passed
                == start.limiter.tokens
        }),
    decreases steps.len(),
{
    if steps.len() > 0 {
        let fewer = steps.drop_last();
        assert forall|i: int| 0 <= i < fewer.len() && (#[trigger] fewer[i]).event is Aside implies
            fewer[i].after.limiter == fewer[i].before.limiter by {
            assert(steps[i] == fewer[i]);
        }
        one_token_for_each_request(start, fewer);
        assert(steps[steps.len() - 1] == steps.last());
        lemma_step_tokens(steps.last());
    }
}

/// What one step does to the counters of the pool.
proof fn lemma_step_connects(step: Step)
    requires
        step.valid(),
    ensures
        step.after.pool.created == (if step.makes() {
            step.before.pool.created.wrapping_add(1)
        } else {
            step.before.pool.created
        }),
        step.after.pool.reused == (if step.reuses() {
            step.before.pool.reused.wrapping_add(1)
        } else {
            step.before.pool.reused
        }),
{
}

/// The counters of the pool move with the history, for any number of requests: by one for each
/// request that was sent over a new connection, and by one for each that was sent over one
/// that had been idle.
pub proof fn connections_are_counted(start: ServerView, steps: Seq<Step>)
    requires
        is_history(start, steps),
    ensures
        server_after(start, steps).pool.created == counted_on(
            start.pool.created,
            count(steps, |step: Step| step.makes()),
        ),
        server_after(start, steps).pool.reused == counted_on(
            start.pool.reused,
            count(steps, |step: Step| step.reuses()),
        ),
    decreases steps.len(),
{
    if steps.len() > 0 {
        let fewer = steps.drop_last();
        connections_are_counted(start, fewer);
        lemma_step_connects(steps.last());
        lemma_count_one_more(start.pool.created, count(fewer, |step: Step| step.makes()));
        lemma_count_one_more(start.pool.reused, count(fewer, |step: Step| step.reuses()));
    }
}

/// What one step does to the gauge of active connections.
proof fn lemma_step_moves_gauge(step: Step)
    requires
        step.valid(),
        step.event matches ServerEvent::Broken { host } ==> step.before.pool.hosts.contains_key(
            host,
        ),
    ensures
        step.after.pool.active == (if step.makes() || step.reuses() {
            step.before.pool.active.wrapping_add(1)
        } else if step.comes_back() {
            step.before.pool.active.wrapping_sub(1)
        } else {
            step.before.pool.active
        }),
{
}

/// The gauge of active connections stands at the number of requests under way, of a server
/// that started with none, as long as fewer than 2^63 requests came in. A request that is
/// broken off had been sent to its host, which the pool therefore knows.
pub proof fn gauge_shows_requests_under_way(start: ServerView, steps: Seq<Step>)
    requires
        is_history(start, steps),
        start.pool.active == 0,
        came_in(steps) < 0x8000_0000_0000_0000,
        forall|i: int|
            0 <= i < steps.len() ==> ((#[trigger] steps[i]).event matches ServerEvent::Broken {
                host,
            } ==> steps[i].before.pool.hosts.contains_key(host)),
    ensures
        server_after(start, steps).pool.active == under_way(steps),
    decreases steps.len(),
{
    requests_are_accounted_for(start, steps);
    if steps.len() > 0 {
        let fewer = steps.drop_last();
        assert forall|i: int| 0 <= i < fewer.len() implies ((
        #[trigger] fewer[i]).event matches ServerEvent::Broken { host }
            ==> fewer[i].before.pool.hosts.contains_key(host)) by {
            assert(steps[i] == fewer[i]);
        }
        gauge_shows_requests_under_way(start, fewer);
        requests_are_accounted_for(start, fewer);
        assert(steps[steps.len() - 1] == steps.last());
        lemma_step_moves_gauge(steps.last());
    }
}

/// As long as fewer than 2^64 requests came in, the counters of a server that started at zero
/// count its history: the requests that came in, those answered with a body, and those that
/// ended in an error. Together with the requests under way, the last two make up the first.
pub proof fn counters_count_the_history(start: ServerView, steps: Seq<Step>)
    requires
        is_history(start, steps),
        start.total == 0,
        start.successful == 0,
        start.failed == 0,
        came_in(steps) < wrap(),
    ensures
        ({
            let after = server_after(start, steps);
            &&& after.total == came_in(steps)
            &&& after.successful == succeeded(steps)
            &&& after.failed == failed(steps)
            &&& after.successful + after.failed + under_way(steps) == after.total
            &&& after.successful + after.failed <= after.total
            &&& after.successful <= after.total
        }),
{
    requests_are_accounted_for(start, steps);
    counters_move_with_the_history(start, steps);
}

/// The metrics of a server that started at zero report its history, for any number of
/// requests: its page gives the active connections, how many connections were made and how
/// many were reused, then the durations, and then how many requests failed, were answered with
/// a body, and came in. Below 2^64 a counter stands at the number itself.
pub proof fn metrics_report_the_history(
    start: ServerView,
    steps: Seq<Step>,
    request_duration: Seq<char>,
)
    requires
        is_history(start, steps),
        start.total == 0,
        start.successful == 0,
        start.failed == 0,
    ensures
        crate::metrics::page_of(server_after(start, steps).counts(), request_duration)
            == crate::metrics::gauge_text(
            "pool_active_connections"@,
            "Active connections"@,
            server_after(start, steps).pool.active,
        ) + crate::metrics::counter_text(
            "pool_connections_created"@,
            "Total connections created"@,
            counted_on(start.pool.created, count(steps, |step: Step| step.makes())),
        ) + crate::metrics::counter_text(
            "pool_connections_reused"@,
            "Total connections reused"@,
            counted_on(start.pool.reused, count(steps, |step: Step| step.reuses())),
        ) + request_duration + crate::metrics::counter_text(
            "proxy_requests_failed"@,
            "Failed requests"@,
            counted_on(0, failed(steps)),
        ) + crate::metrics::counter_text(
            "proxy_requests_successful"@,
            "Successful requests"@,
            counted_on(0, succeeded(steps)),
        ) + crate::metrics::counter_text(
            "proxy_requests_total"@,
            "Total requests"@,
            counted_on(0, came_in(steps)),
        ),
        came_in(steps) < wrap() ==> {
            &&& counted_on(0, came_in(steps)) == came_in(steps)
            &&& counted_on(0, succeeded(steps)) == succeeded(steps)
            &&& counted_on(0, failed(steps)) == failed(steps)
        },
{
    requests_are_accounted_for(start, steps);
    counters_move_with_the_history(start, steps);
    connections_are_counted(start, steps);
}

} // verus!
