//! The proxy server: which requests are let through, and where they go.

use crate::error::{ErrorView, ProxyError};
use crate::limiter::{Attempt, LimiterView, RateLimiter};
use crate::metrics::{render, Counts};
use crate::pool::{Checkout, ConnectionPool, PoolView};
use crate::stream::{ResponseStream, StreamState};
use crate::table::Table;
use crate::upstream::target_host;
use reqwest::Client;
use vstd::prelude::*;

verus! {

/// Requests for each minute that a server lets through unless told otherwise.
pub const DEFAULT_REQUESTS_PER_MINUTE: usize = 60;

/// What a forwarded request says of who sends it.
pub const USER_AGENT: &'static str = "Rust-Proxy-Server/1.0";

/// Nanoseconds in a second.
pub const NANOS_PER_SEC: u128 = 1_000_000_000;

/// A rate limit, a pool of connections, and routes from paths to target URLs.
pub struct ProxyServer {
    rate_limiter: RateLimiter,
    connection_pool: ConnectionPool,
    routes: Table<String>,
    total_requests: u64,
    successful_requests: u64,
    failed_requests: u64,
}

/// The state of a [`ProxyServer`].
#[verifier::ext_equal]
pub struct ServerView {
    pub limiter: LimiterView,
    pub pool: PoolView,
    pub routes: Map<Seq<char>, Seq<char>>,
    /// Requests that came in; wraps around.
    pub total: u64,
    /// Requests that were answered with a body; wraps around.
    pub successful: u64,
    /// Requests that ended in an error; wraps around.
    pub failed: u64,
}

/// A request on its way to its target: a `GET` of `target`, sent over `client` with the
/// header `User-Agent` set to `user_agent`.
pub struct Fetch {
    pub target: String,
    pub host: String,
    pub user_agent: &'static str,
    pub client: Client,
}

/// An answered request: what to hand to the caller, and how many nanoseconds to record as
/// the duration of the request.
pub struct Completed {
    pub body: String,
    pub duration: u128,
}

/// Whether a request is let through to the pool.
pub enum Admission {
    /// It is answered with an error.
    Refused(ErrorView),
    /// It goes to `target`, on `host`.
    Forwarded { target: Seq<char>, host: Seq<char> },
}

/// Nanoseconds that one token takes to fall due when `rpm_limit` do in a minute. Of the
/// limit only the low 32 bits count; a limit of zero stands for one second.
pub open spec fn refill_interval(rpm_limit: nat) -> nat {
    if rpm_limit > 0 {
        (60 * NANOS_PER_SEC) as nat / (rpm_limit % 0x1_0000_0000)
    } else {
        NANOS_PER_SEC as nat
    }
}

impl ServerView {
    /// Whether a request for `path` at time `now` is let through, with `due` tokens fallen
    /// due. The rate limit comes first, the route second, the host of its target third.
    pub open spec fn admission(self, path: Seq<char>, now: nat, due: nat) -> Admission {
        if !self.limiter.grants(now, due) {
            Admission::Refused(ErrorView::RateLimitExceeded)
        } else if !self.routes.contains_key(path) {
            Admission::Refused(ErrorView::RouteNotFound(path))
        } else {
            match crate::upstream::parsed_host(self.routes[path]) {
                Some(Some(host)) => Admission::Forwarded { target: self.routes[path], host },
                _ => Admission::Refused(ErrorView::InvalidHost),
            }
        }
    }

    /// After a request was counted and asked for a token.
    pub open spec fn counted(self, now: nat, due: nat) -> ServerView {
        ServerView {
            limiter: self.limiter.acquired(now, due),
            total: self.total.wrapping_add(1),
            ..self
        }
    }

    /// Whether a request may leave the server as `after` and be answered `answer`.
    pub open spec fn handled(
        self,
        path: Seq<char>,
        now: nat,
        due: nat,
        after: ServerView,
        answer: Result<Fetch, ProxyError>,
    ) -> bool {
        let counted = self.counted(now, due);
        match self.admission(path, now, due) {
            Admission::Refused(e) => {
                &&& answer matches Err(error)
                &&& error@ == e
                &&& after == (ServerView { failed: self.failed.wrapping_add(1), ..counted })
            },
            Admission::Forwarded { target, host } => match answer {
                Ok(fetch) => {
                    &&& after == (ServerView { pool: after.pool, ..counted })
                    &&& fetch.target@ == target
                    &&& fetch.host@ == host
                    &&& fetch.user_agent@ == USER_AGENT@
                    &&& self.pool.checked_out(host, after.pool, Ok(fetch.client))
                },
                Err(e) => {
                    &&& after == (ServerView {
                        pool: after.pool,
                        failed: self.failed.wrapping_add(1),
                        ..counted
                    })
                    &&& self.pool.checked_out(host, after.pool, Err(e))
                },
            },
        }
    }

    /// After the connection of a forwarded request came back with the body.
    pub open spec fn answered(self, host: Seq<char>, client: Client) -> ServerView {
        ServerView {
            pool: self.pool.after_return(host, client),
            successful: self.successful.wrapping_add(1),
            ..self
        }
    }

    /// After a forwarded request failed: its connection is closed.
    pub open spec fn broken(self, host: Seq<char>) -> ServerView {
        ServerView {
            pool: self.pool.after_discard(host),
            failed: self.failed.wrapping_add(1),
            ..self
        }
    }

    /// The numbers that the server reports.
    pub open spec fn counts(self) -> Counts {
        Counts {
            active_connections: self.pool.active,
            connections_created: self.pool.created,
            connections_reused: self.pool.reused,
            requests_failed: self.failed,
            requests_successful: self.successful,
            requests_total: self.total,
        }
    }
}

impl View for ProxyServer {
    type V = ServerView;

    closed spec fn view(&self) -> ServerView {
        ServerView {
            limiter: self.rate_limiter@,
            pool: self.connection_pool@,
            routes: self.routes@.map_values(|target: String| target@),
            total: self.total_requests,
            successful: self.successful_requests,
            failed: self.failed_requests,
        }
    }
}

impl ProxyServer {
    /// The bucket, the pool and the routes are in order.
    pub closed spec fn wf(&self) -> bool {
        self.rate_limiter@.valid() && self.connection_pool.wf() && self.routes.wf()
    }

    /// A server without routes that lets `rpm_limit` requests through in a minute and
    /// allows each host `max_connections_per_host` connections.
    pub fn new(rpm_limit: usize, max_connections_per_host: usize, now: u128) -> (server: Self)
        requires
            rpm_limit > 0 ==> rpm_limit as nat % 0x1_0000_0000 != 0,
        ensures
            server.wf(),
            server@ == (ServerView {
                limiter: LimiterView::full(
                    rpm_limit as nat,
                    refill_interval(rpm_limit as nat),
                    now as nat,
                ),
                pool: PoolView::empty(max_connections_per_host as nat),
                routes: Map::empty(),
                total: 0,
                successful: 0,
                failed: 0,
            }),
    {
        let refill_rate: u128 = if rpm_limit > 0 {
            let limit: u64 = rpm_limit as u64;
            let low_bits: u32 = #[verifier::truncate]
            (limit as u32);
            assert(limit as u32 == limit % 0x1_0000_0000) by (bit_vector);
            60 * NANOS_PER_SEC / (low_bits as u128)
        } else {
            NANOS_PER_SEC
        };
        let server = ProxyServer {
            rate_limiter: RateLimiter::new(rpm_limit, refill_rate, now),
            connection_pool: ConnectionPool::new(max_connections_per_host),
            routes: Table::new(),
            total_requests: 0,
            successful_requests: 0,
            failed_requests: 0,
        };
        assert(server@.routes =~= Map::<Seq<char>, Seq<char>>::empty());
        server
    }

    /// The rate limit.
    pub fn rate_limiter(&mut self) -> (limiter: &mut RateLimiter)
        requires
            old(self).wf(),
        ensures
            limiter@ == old(self)@.limiter,
            limiter@.valid(),
            final(self)@ == (ServerView { limiter: final(limiter)@, ..old(self)@ }),
            final(limiter)@.valid() ==> final(self).wf(),
    {
        &mut self.rate_limiter
    }

    /// The pool of connections.
    pub fn connection_pool(&self) -> (pool: &ConnectionPool)
        requires
            self.wf(),
        ensures
            pool@ == self@.pool,
            pool.wf(),
    {
        &self.connection_pool
    }

    /// Maps `path` to the URL `target`, in place of where it went before.
    pub fn add_route(&mut self, path: &str, target: &str)
        requires
            old(self).wf(),
        ensures
            final(self).wf(),
            final(self)@ == (ServerView {
                routes: old(self)@.routes.insert(path@, target@),
                ..old(self)@
            }),
    {
        self.routes.insert(path, target.to_string());
        assert(self@.routes =~= old(self)@.routes.insert(path@, target@));
    }

    /// Takes `path` off the routes and hands back where it went.
    pub fn remove_route(&mut self, path: &str) -> (target: Option<String>)
        requires
            old(self).wf(),
        ensures
            final(self).wf(),
            final(self)@ == (ServerView {
                routes: old(self)@.routes.remove(path@),
                ..old(self)@
            }),
            match target {
                Some(t) => old(self)@.routes.contains_key(path@) && t@ == old(
                    self
                )@.routes[path@],
                None => !old(self)@.routes.contains_key(path@),
            },
    {
        let target = self.routes.remove(path);
        assert(self@.routes =~= old(self)@.routes.remove(path@));
        target
    }

    /// Where `path` goes.
    fn lookup(&self, path: &str) -> (target: Result<String, ProxyError>)
        requires
            self.wf(),
        ensures
            match target {
                Ok(t) => self@.routes.contains_key(path@) && t@ == self@.routes[path@],
                Err(e) => !self@.routes.contains_key(path@) && e@ == ErrorView::RouteNotFound(
                    path@,
                ),
            },
    {
        match self.routes.get(path) {
            Some(target) => Ok(target.clone()),
            None => Err(ProxyError::RouteNotFound(path.to_string())),
        }
    }

    /// Takes in a request for `path`, up to the point where it is sent to its target.
    /// `due` tokens fell due between the last refill and `now`.
    pub fn handle_request(&mut self, path: &str, now: u128, due: usize) -> (answer: Result<
        Fetch,
        ProxyError,
    >)
        requires
            old(self).wf(),
            old(self)@.limiter.tokens + due <= usize::MAX,
        ensures
            final(self).wf(),
            old(self)@.handled(path@, now as nat, due as nat, final(self)@, answer),
            answer matches Ok(fetch) ==> {
                &&& fetch.user_agent@ == "Rust-Proxy-Server/1.0"@
                &&& old(self)@.routes.contains_key(path@)
                &&& fetch.target@ == old(self)@.routes[path@]
            },
            final(self)@.routes == old(self)@.routes,
            final(self)@.total == old(self)@.total.wrapping_add(1),
    {
        self.total_requests = self.total_requests.wrapping_add(1);
        match self.rate_limiter.acquire(now, due) {
            Ok(()) => {},
            Err(e) => {
                return self.fail(e);
            },
        }
        let target = match self.lookup(path) {
            Ok(target) => target,
            Err(e) => {
                return self.fail(e);
            },
        };
        let host = match target_host(target.as_str()) {
            Ok(host) => host,
            Err(e) => {
                return self.fail(e);
            },
        };
        match self.connection_pool.get_connection(host.as_str()) {
            Ok(client) => Ok(Fetch { target, host, user_agent: USER_AGENT, client }),
            Err(e) => self.fail(e),
        }
    }

    /// Answers a request with an error, and counts it as failed.
    fn fail(&mut self, e: ProxyError) -> (answer: Result<Fetch, ProxyError>)
        requires
            old(self).wf(),
        ensures
            final(self).wf(),
            final(self)@ == (ServerView {
                failed: old(self)@.failed.wrapping_add(1),
                ..old(self)@
            }),
            answer == Err::<Fetch, ProxyError>(e),
    {
        self.failed_requests = self.failed_requests.wrapping_add(1);
        Err(e)
    }

    /// Takes in the reply to a forwarded request, which took `duration` nanoseconds: its
    /// body, or why there is none.
    pub fn finish_request(
        &mut self,
        fetch: Fetch,
        reply: Result<String, reqwest::Error>,
        duration: u128,
    ) -> (answer: Result<Completed, ProxyError>)
        requires
            old(self).wf(),
        ensures
            final(self).wf(),
            final(self)@.limiter == old(self)@.limiter,
            final(self)@.routes == old(self)@.routes,
            final(self)@.total == old(self)@.total,
            match reply {
                Ok(body) => {
                    &&& answer == Ok::<Completed, ProxyError>(Completed { body, duration })
                    &&& final(self)@ == old(self)@.answered(fetch.host@, fetch.client)
                },
                Err(e) => {
                    &&& answer == Err::<Completed, ProxyError>(ProxyError::HttpClient(e))
                    &&& final(self)@ == old(self)@.broken(fetch.host@)
                },
            },
    {
        match reply {
            Ok(body) => {
                self.connection_pool.return_connection(fetch.host.as_str(), fetch.client);
                self.successful_requests = self.successful_requests.wrapping_add(1);
                Ok(Completed { body, duration })
            },
            Err(e) => {
                self.abandon_request(fetch);
                Err(ProxyError::from(e))
            },
        }
    }

    /// Gives up a forwarded request: it has failed, and its connection is closed.
    pub fn abandon_request(&mut self, fetch: Fetch)
        requires
            old(self).wf(),
        ensures
            final(self).wf(),
            final(self)@ == old(self)@.broken(fetch.host@),
            final(self)@.limiter == old(self)@.limiter,
            final(self)@.routes == old(self)@.routes,
            final(self)@.total == old(self)@.total,
    {
        self.connection_pool.discard_connection(fetch.host.as_str());
        self.failed_requests = self.failed_requests.wrapping_add(1);
    }

    /// Each route once, as its path and its target.
    pub fn route_listing(&self) -> (lines: Vec<(String, String)>)
        requires
            self.wf(),
        ensures
            crate::table::lists_each_once(lines@, self@.routes.dom()),
            forall|i: int|
                0 <= i < lines@.len() ==> (#[trigger] lines@[i]).1@
                    == self@.routes[lines@[i].0@],
    {
        let lines = self.routes.list(String::clone);
        assert(self@.routes.dom() =~= self.routes@.dom());
        lines
    }

    /// Starts to stream what `path` goes to.
    pub fn stream_response(&self, path: &str) -> (stream: Result<ResponseStream, ProxyError>)
        requires
            self.wf(),
        ensures
            match stream {
                Ok(s) => {
                    &&& self@.routes.contains_key(path@)
                    &&& s@.target == self@.routes[path@]
                    &&& s@.state == StreamState::Fresh
                },
                Err(e) => !self@.routes.contains_key(path@) && e@ == ErrorView::RouteNotFound(
                    path@,
                ),
            },
    {
        match self.lookup(path) {
            Ok(target) => Ok(ResponseStream::new(target)),
            Err(e) => Err(e),
        }
    }

    /// The metrics of this server in text form. The histogram of request durations is kept
    /// by the caller, who hands in its text.
    pub fn get_metrics(&self, request_duration: &str) -> (page: String)
        ensures
            page@ == crate::metrics::page_of(self@.counts(), request_duration@),
    {
        render(
            &Counts {
                active_connections: self.connection_pool.active_connections(),
                connections_created: self.connection_pool.total_created(),
                connections_reused: self.connection_pool.total_reused(),
                requests_failed: self.failed_requests,
                requests_successful: self.successful_requests,
                requests_total: self.total_requests,
            },
            request_duration,
        )
    }

    /// Whether the server is healthy. It is, with or without tokens left.
    pub fn health_check(&self) -> (healthy: bool)
        ensures
            healthy,
    {
        self.rate_limiter.available_tokens() > 0 || true
    }
}

/// A limit below 2^32 is spread over one minute: that many intervals fit into a minute, and
/// would no longer do so if each were a nanosecond longer.
pub proof fn limit_is_spread_over_a_minute(rpm_limit: nat)
    requires
        0 < rpm_limit < 0x1_0000_0000,
    ensures
        rpm_limit * refill_interval(rpm_limit) <= 60 * NANOS_PER_SEC < rpm_limit * (refill_interval(
            rpm_limit,
        ) + 1),
{
    let minute = (60 * NANOS_PER_SEC) as int;
    let n = rpm_limit as int;
    assert(rpm_limit % 0x1_0000_0000 == rpm_limit) by (nonlinear_arith)
        requires
            0 < rpm_limit < 0x1_0000_0000,
    ;
    assert(n * (minute / n) <= minute < n * (minute / n + 1)) by (nonlinear_arith)
        requires
            n > 0,
    ;
}

/// A limit counts by its low 32 bits: as many intervals fit into a minute as those say, and
/// would no longer do so if each were a nanosecond longer. Without a limit an interval is a
/// second.
pub proof fn interval_goes_by_the_low_bits(rpm_limit: nat)
    ensures
        refill_interval(0) == 1_000_000_000,
        rpm_limit % 0x1_0000_0000 != 0 ==> (rpm_limit % 0x1_0000_0000) * refill_interval(rpm_limit)
            <= 60_000_000_000 < (rpm_limit % 0x1_0000_0000) * (refill_interval(rpm_limit) + 1),
{
    let minute = 60_000_000_000int;
    let n = (rpm_limit % 0x1_0000_0000) as int;
    if n != 0 {
        assert(n * (minute / n) <= minute < n * (minute / n + 1)) by (nonlinear_arith)
            requires
                n > 0,
        ;
    }
}

/// Once a path has a route, a request for it is not refused for want of one, and goes to
/// that route's target if it goes anywhere.
pub proof fn added_route_is_found(
    server: ServerView,
    path: Seq<char>,
    target: Seq<char>,
    now: nat,
    due: nat,
)
    ensures
        ({
            let after = ServerView { routes: server.routes.insert(path, target), ..server };
            match after.admission(path, now, due) {
                Admission::Refused(e) => e == ErrorView::RateLimitExceeded || e
                    == ErrorView::InvalidHost,
                Admission::Forwarded { target: t, .. } => t == target,
            }
        }),
{
}

/// After its route was removed, a path that gets past the rate limit is not found.
pub proof fn removed_route_is_not_found(server: ServerView, path: Seq<char>, now: nat, due: nat)
    requires
        server.limiter.grants(now, due),
    ensures
        (ServerView { routes: server.routes.remove(path), ..server }).admission(path, now, due)
            == Admission::Refused(ErrorView::RouteNotFound(path)),
{
}

/// Removing a route that was new takes back that it was added.
pub proof fn removing_undoes_adding(server: ServerView, path: Seq<char>, target: Seq<char>)
    requires
        !server.routes.contains_key(path),
    ensures
        server.routes.insert(path, target).remove(path) == server.routes,
{
    assert(server.routes.insert(path, target).remove(path) =~= server.routes);
}

/// Adding or removing a route changes nothing for any other path.
pub proof fn routes_are_independent(
    server: ServerView,
    path: Seq<char>,
    target: Seq<char>,
    other: Seq<char>,
    now: nat,
    due: nat,
)
    requires
        path != other,
    ensures
        (ServerView { routes: server.routes.insert(path, target), ..server }).admission(
            other,
            now,
            due,
        ) == server.admission(other, now, due),
        (ServerView { routes: server.routes.remove(path), ..server }).admission(other, now, due)
            == server.admission(other, now, due),
{
}

/// While nothing falls due, a server made for `n` requests in a minute gets `n` requests past
/// its rate limit, whatever they ask for, and answers the next that the limit is exceeded.
pub proof fn server_serves_up_to_its_limit(
    server: ServerView,
    rpm_limit: nat,
    started: nat,
    run: Seq<Attempt>,
    path: Seq<char>,
    now: nat,
)
    requires
        server.limiter == LimiterView::full(rpm_limit, refill_interval(rpm_limit), started),
        forall|i: int| 0 <= i < run.len() ==> (#[trigger] run[i]).due == 0,
    ensures
        (ServerView { limiter: server.limiter.after_run(run), ..server }).admission(path, now, 0)
            == Admission::Refused(ErrorView::RateLimitExceeded) <==> run.len() >= rpm_limit,
{
    crate::limiter::tokens_are_spent_one_by_one(server.limiter, run, now);
}

/// A request that a server took in: the server before and after it, what was asked for and
/// when, and what was answered.
pub struct Handled {
    pub before: ServerView,
    pub path: Seq<char>,
    pub attempt: Attempt,
    pub after: ServerView,
    pub answer: Result<Fetch, ProxyError>,
}

/// Requests that one server took in one after the other. In between anything may happen to
/// the server, but nobody else takes tokens.
pub open spec fn in_succession(requests: Seq<Handled>) -> bool {
    &&& forall|i: int|
        0 <= i < requests.len() ==> (#[trigger] requests[i]).before.handled(
            requests[i].path,
            requests[i].attempt.now,
            requests[i].attempt.due,
            requests[i].after,
            requests[i].answer,
        )
    &&& forall|i: int|
        0 < i < requests.len() ==> (#[trigger] requests[i]).before.limiter == requests[i
            - 1].after.limiter
}

/// When the requests came, and how many tokens had fallen due by then.
pub open spec fn attempts(requests: Seq<Handled>) -> Seq<Attempt> {
    Seq::new(requests.len(), |i: int| requests[i].attempt)
}

/// How many of the requests were not answered that the rate limit is exceeded.
pub open spec fn let_past(requests: Seq<Handled>) -> nat
    decreases requests.len(),
{
    if requests.len() == 0 {
        0
    } else {
        let_past(requests.drop_last()) + (if requests.last().answer matches Err(e) && e@
            == ErrorView::RateLimitExceeded {
            0nat
        } else {
            1nat
        })
    }
}

/// Whatever is asked for and whatever becomes of it, a server lets as many requests past its
/// rate limit as its bucket grants, and so never more than it had tokens and fell due.
pub proof fn rate_limit_holds_over_any_run(requests: Seq<Handled>)
    requires
        requests.len() > 0,
        in_succession(requests),
    ensures
        let_past(requests) == requests[0].before.limiter.granted(attempts(requests)),
        requests.last().after.limiter == requests[0].before.limiter.after_run(attempts(requests)),
        let_past(requests) <= requests[0].before.limiter.tokens + crate::limiter::total_due(
            attempts(requests),
        ),
    decreases requests.len(),
{
    let limiter = requests[0].before.limiter;
    let fewer = requests.drop_last();
    assert(attempts(requests).drop_last() =~= attempts(fewer));
    assert(attempts(requests).last() == requests.last().attempt);
    assert(requests[requests.len() - 1].before.handled(
        requests.last().path,
        requests.last().attempt.now,
        requests.last().attempt.due,
        requests.last().after,
        requests.last().answer,
    ));
    if fewer.len() > 0 {
        assert forall|i: int| 0 <= i < fewer.len() implies (#[trigger] fewer[i]).before.handled(
            fewer[i].path,
            fewer[i].attempt.now,
            fewer[i].attempt.due,
            fewer[i].after,
            fewer[i].answer,
        ) by {
            assert(requests[i] == fewer[i]);
        }
        assert forall|i: int| 0 < i < fewer.len() implies (#[trigger] fewer[i]).before.limiter
            == fewer[i - 1].after.limiter by {
            assert(requests[i] == fewer[i]);
        }
        rate_limit_holds_over_any_run(fewer);
        assert(requests[requests.len() - 1].before.limiter == fewer.last().after.limiter);
    } else {
        assert(attempts(fewer) =~= Seq::empty());
        assert(let_past(fewer) == 0);
        assert(limiter.granted(attempts(fewer)) == 0);
    }
    crate::limiter::grants_are_bounded(limiter, attempts(requests));
}

/// If tokens fall due no faster than the refill rate, then within any time after the last
/// refill a server lets no more requests past its rate limit than its bucket holds when full
/// and refill intervals fit into that time.
pub proof fn rate_limit_holds_over_time(requests: Seq<Handled>, time: nat)
    requires
        requests.len() > 0,
        in_succession(requests),
        requests[0].before.limiter.valid(),
        requests[0].before.limiter.refill_rate > 0,
        requests[0].before.limiter.paced(attempts(requests)),
        forall|i: int|
            0 <= i < requests.len() ==> (#[trigger] requests[i]).attempt.now
                <= requests[0].before.limiter.last_refill + time,
    ensures
        let_past(requests) <= requests[0].before.limiter.capacity + time
            / requests[0].before.limiter.refill_rate,
{
    rate_limit_holds_over_any_run(requests);
    assert forall|i: int| 0 <= i < attempts(requests).len() implies (
    #[trigger] attempts(requests)[i]).now <= requests[0].before.limiter.last_refill + time by {
        assert(attempts(requests)[i] == requests[i].attempt);
    }
    crate::limiter::rate_is_kept_over_time(
        requests[0].before.limiter,
        attempts(requests),
        time,
    );
}

/// Every request is counted once and asks the bucket once, whatever it is answered, and
/// is counted as failed exactly if it is answered with an error.
pub proof fn every_request_is_counted(
    server: ServerView,
    path: Seq<char>,
    now: nat,
    due: nat,
    after: ServerView,
    answer: Result<Fetch, ProxyError>,
)
    requires
        server.handled(path, now, due, after, answer),
    ensures
        after.total == server.total.wrapping_add(1),
        after.limiter == server.limiter.acquired(now, due),
        after.routes == server.routes,
        after.successful == server.successful,
        after.failed == (if answer is Err {
            server.failed.wrapping_add(1)
        } else {
            server.failed
        }),
{
}

/// A request that the rate limit, the routes or its target stop is counted, in all and as
/// failed, and changes nothing else but the bucket.
pub proof fn refused_request_touches_nothing_else(
    server: ServerView,
    path: Seq<char>,
    now: nat,
    due: nat,
    after: ServerView,
    answer: Result<Fetch, ProxyError>,
)
    requires
        server.handled(path, now, due, after, answer),
        server.admission(path, now, due) is Refused,
    ensures
        answer is Err,
        after.pool == server.pool,
        after.routes == server.routes,
        after.successful == server.successful,
        after.failed == server.failed.wrapping_add(1),
        after.total == server.total.wrapping_add(1),
{
}

/// What a request is answered goes by the first thing that stops it: the rate limit, the
/// routes, the host of its target, the pool. Until the pool is asked it stays as it was, and
/// every request that the rate limit lets through takes one token. One that nothing stops
/// goes to the target of its route, over a connection to that target's host, and names the
/// proxy as its sender.
pub proof fn first_obstacle_decides(
    server: ServerView,
    path: Seq<char>,
    now: nat,
    due: nat,
    after: ServerView,
    answer: Result<Fetch, ProxyError>,
)
    requires
        server.handled(path, now, due, after, answer),
    ensures
        answer matches Err(e) ==> !(e is UrlParse),
        ({
            let target = server.routes[path];
            let parsed = crate::upstream::parsed_host(target);
            let found: nat = if due > 0 && server.limiter.tokens + due > server.limiter.capacity {
                server.limiter.capacity
            } else {
                server.limiter.tokens + due
            };
            if found == 0 {
                &&& answer == Err::<Fetch, ProxyError>(ProxyError::RateLimitExceeded)
                &&& after.pool == server.pool
                &&& after.limiter.tokens == 0
            } else {
                &&& after.limiter.tokens == found - 1
                &&& if !server.routes.contains_key(path) {
                    &&& answer matches Err(ProxyError::RouteNotFound(named))
                    &&& named@ == path
                    &&& after.pool == server.pool
                } else if !(parsed matches Some(Some(_))) {
                    &&& answer == Err::<Fetch, ProxyError>(ProxyError::InvalidHost)
                    &&& after.pool == server.pool
                } else {
                    let host = parsed->Some_0->Some_0;
                    match answer {
                        Ok(fetch) => {
                            &&& fetch.target@ == target
                            &&& fetch.host@ == host
                            &&& fetch.user_agent@ == "Rust-Proxy-Server/1.0"@
                            &&& server.pool.checked_out(host, after.pool, Ok(fetch.client))
                        },
                        Err(e) => {
                            &&& e is MaxConnectionsReached || e is HttpClient
                            &&& server.pool.checked_out(host, after.pool, Err(e))
                        },
                    }
                }
            }
        }),
        after.limiter.capacity == server.limiter.capacity,
        after.limiter.refill_rate == server.limiter.refill_rate,
        due > 0 ==> after.limiter.last_refill == now,
        due == 0 ==> after.limiter.last_refill == server.limiter.last_refill,
{
}

/// A request that nothing stops before the pool is sent over the last idle connection to its
/// host if there is one. If there is none, it is answered that the limit is reached exactly
/// if all the connections that the host may have are handed out; otherwise it is sent over a
/// new one, unless none can be made.
pub proof fn admitted_request_gets_a_connection(
    server: ServerView,
    path: Seq<char>,
    now: nat,
    due: nat,
    after: ServerView,
    answer: Result<Fetch, ProxyError>,
    host: Seq<char>,
)
    requires
        server.handled(path, now, due, after, answer),
        server.pool.hosts.contains_key(host) ==> server.pool.hosts[host].idle.len()
            + server.pool.hosts[host].in_use <= server.pool.max,
        server.limiter.capacity > 0,
        server.limiter.tokens > 0 || due > 0,
        server.routes.contains_key(path),
        crate::upstream::parsed_host(server.routes[path]) == Some(Some(host)),
    ensures
        ({
            let known = server.pool.hosts.contains_key(host);
            let idle = if known {
                server.pool.hosts[host].idle
            } else {
                Seq::<Client>::empty()
            };
            let in_use = if known {
                server.pool.hosts[host].in_use
            } else {
                0
            };
            &&& idle.len() > 0 ==> (answer matches Ok(fetch) && fetch.client == idle[idle.len()
                - 1])
            &&& answer == Err::<Fetch, ProxyError>(ProxyError::MaxConnectionsReached) <==> in_use
                == server.pool.max
            &&& idle.len() == 0 && in_use < server.pool.max ==> match answer {
                Ok(fetch) => {
                    &&& crate::upstream::client_timeout_secs(fetch.client) == 30
                    &&& crate::upstream::client_idle_limit(fetch.client) == server.pool.max
                },
                Err(e) => e is HttpClient,
            }
        }),
{
    let got: Result<Client, ProxyError> = match answer {
        Ok(fetch) => Ok(fetch.client),
        Err(e) => Err(e),
    };
    crate::pool::request_is_answered_by_what_the_host_has(server.pool, host, after.pool, got);
}

/// How a forwarded request ends leaves the rate limit and the routes alone: it takes no token,
/// and counts as one success if it came back with a body, and as one failure if it did not.
pub proof fn finishing_takes_no_token(server: ServerView, host: Seq<char>, client: Client)
    ensures
        ({
            let answered = server.answered(host, client);
            &&& answered.limiter == server.limiter
            &&& answered.routes == server.routes
            &&& answered.total == server.total
            &&& answered.successful == server.successful.wrapping_add(1)
            &&& answered.failed == server.failed
            &&& answered.pool == server.pool.after_return(host, client)
        }),
        ({
            let broken = server.broken(host);
            &&& broken.limiter == server.limiter
            &&& broken.routes == server.routes
            &&& broken.total == server.total
            &&& broken.successful == server.successful
            &&& broken.failed == server.failed.wrapping_add(1)
            &&& broken.pool == server.pool.after_discard(host)
        }),
{
}

/// A whole request, from its arrival until it is answered or broken off, takes exactly one
/// token of those that were there and fell due, is counted once, and changes no route.
pub proof fn whole_request_takes_one_token(
    server: ServerView,
    path: Seq<char>,
    now: nat,
    due: nat,
    during: ServerView,
    fetch: Fetch,
)
    requires
        server.limiter.tokens <= server.limiter.capacity,
        server.handled(path, now, due, during, Ok(fetch)),
    ensures
        ({
            let found: nat = if server.limiter.tokens + due <= server.limiter.capacity {
                server.limiter.tokens + due
            } else {
                server.limiter.capacity
            };
            let answered = during.answered(fetch.host@, fetch.client);
            let broken = during.broken(fetch.host@);
            &&& answered.limiter.tokens == found - 1
            &&& broken.limiter.tokens == found - 1
            &&& answered.total == server.total.wrapping_add(1)
            &&& broken.total == server.total.wrapping_add(1)
            &&& answered.successful == server.successful.wrapping_add(1)
            &&& answered.failed == server.failed
            &&& broken.successful == server.successful
            &&& broken.failed == server.failed.wrapping_add(1)
            &&& answered.routes == server.routes
            &&& broken.routes == server.routes
        }),
{
}

/// What the metrics of a server say: its own numbers, each under its own name and help.
pub proof fn page_names_its_server_numbers(server: ServerView, request_duration: Seq<char>)
    ensures
        crate::metrics::page_of(server.counts(), request_duration) == crate::metrics::gauge_text(
            "pool_active_connections"@,
            "Active connections"@,
            server.pool.active,
        ) + crate::metrics::counter_text(
            "pool_connections_created"@,
            "Total connections created"@,
            server.pool.created,
        ) + crate::metrics::counter_text(
            "pool_connections_reused"@,
            "Total connections reused"@,
            server.pool.reused,
        ) + request_duration + crate::metrics::counter_text(
            "proxy_requests_failed"@,
            "Failed requests"@,
            server.failed,
        ) + crate::metrics::counter_text(
            "proxy_requests_successful"@,
            "Successful requests"@,
            server.successful,
        ) + crate::metrics::counter_text("proxy_requests_total"@, "Total requests"@, server.total),
{
}

/// A forwarded request holds one connection to its host until it is finished: once it is
/// answered or broken off, every host has as many connections handed out as before the
/// request. Answered, it leaves its connection as the next one to be reused.
pub proof fn forwarded_request_gives_its_connection_back(
    server: ServerView,
    path: Seq<char>,
    now: nat,
    due: nat,
    during: ServerView,
    fetch: Fetch,
    host: Seq<char>,
)
    requires
        server.pool.valid(),
        server.handled(path, now, due, during, Ok(fetch)),
    ensures
        during.pool.host(fetch.host@).in_use == server.pool.host(fetch.host@).in_use + 1,
        during.answered(fetch.host@, fetch.client).pool.host(host).in_use == server.pool.host(
            host,
        ).in_use,
        during.broken(fetch.host@).pool.host(host).in_use == server.pool.host(host).in_use,
        during.answered(fetch.host@, fetch.client).pool.active == server.pool.active,
        during.broken(fetch.host@).pool.active == server.pool.active,
        during.answered(fetch.host@, fetch.client).pool.checkout(fetch.host@) == Checkout::Reuse(
            fetch.client,
        ),
{
    let h = fetch.host@;
    crate::pool::limit_is_kept(server.pool, h, fetch.client);
    let mid = during.pool;
    assert(mid.valid());
    assert(mid.host(h).in_use == server.pool.host(h).in_use + 1);
    crate::pool::returned_connection_is_reused(mid, h, fetch.client);
    if host != h {
        crate::pool::hosts_are_independent(server.pool, h, host, fetch.client);
        crate::pool::hosts_are_independent(mid, h, host, fetch.client);
    }
}

impl ProxyServer {
    /// A well-formed server is within its limits.
    pub proof fn within_limits(&self)
        requires
            self.wf(),
        ensures
            self@.limiter.valid(),
            self@.pool.valid(),
    {
        self.connection_pool.within_limit();
    }
}

} // verus!
