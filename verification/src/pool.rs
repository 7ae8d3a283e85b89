//! Connections kept for reuse, with a limit for each host.

use crate::error::{ErrorView, ProxyError};
use crate::table::Table;
use crate::upstream::{build_client, REQUEST_TIMEOUT_SECS};
use reqwest::Client;
use vstd::prelude::*;

verus! {

/// What the pool knows of one host.
struct HostConnections {
    idle: Vec<Client>,
    in_use: usize,
}

/// What a pool knows of one host.
#[verifier::ext_equal]
pub struct HostView {
    /// Connections that wait to be reused; the last one is reused first.
    pub idle: Seq<Client>,
    /// How many connections are handed out.
    pub in_use: nat,
}

impl View for HostConnections {
    type V = HostView;

    closed spec fn view(&self) -> HostView {
        HostView { idle: self.idle@, in_use: self.in_use as nat }
    }
}

/// How many connections to a host wait to be reused.
fn idle_connections(known: &HostConnections) -> (n: usize)
    ensures
        n == known@.idle.len(),
{
    known.idle.len()
}

/// Connections to hosts, each handed out, kept for reuse, or closed.
pub struct ConnectionPool {
    connections: Table<HostConnections>,
    max_connections_per_host: usize,
    total_created: u64,
    total_reused: u64,
    active_connections: i64,
}

/// The state of a [`ConnectionPool`].
#[verifier::ext_equal]
pub struct PoolView {
    pub hosts: Map<Seq<char>, HostView>,
    /// The most connections that a host may have, handed out and idle together.
    pub max: nat,
    /// How many connections were made; wraps around.
    pub created: u64,
    /// How many connections were handed out again; wraps around.
    pub reused: u64,
    /// Connections handed out less connections returned or closed; wraps around.
    pub active: i64,
}

/// How a pool goes about a request for a connection.
pub enum Checkout {
    /// An idle connection is handed out.
    Reuse(Client),
    /// A new connection is made.
    Create,
    /// The host has all the connections that it may have.
    Refuse,
}

impl PoolView {
    /// A pool that knows no host.
    pub open spec fn empty(max: nat) -> PoolView {
        PoolView { hosts: Map::empty(), max, created: 0, reused: 0, active: 0 }
    }

    /// What is known of a host; nothing is known of a new one.
    pub open spec fn host(self, host: Seq<char>) -> HostView {
        if self.hosts.contains_key(host) {
            self.hosts[host]
        } else {
            HostView { idle: Seq::empty(), in_use: 0 }
        }
    }

    /// No host has more connections than it may have.
    pub open spec fn valid(self) -> bool {
        forall|host: Seq<char>| #[trigger]
            self.hosts.contains_key(host) ==> self.hosts[host].idle.len() + self.hosts[host].in_use
                <= self.max
    }

    /// With `known` as what is known of `host`.
    pub open spec fn with_host(self, host: Seq<char>, known: HostView) -> PoolView {
        PoolView { hosts: self.hosts.insert(host, known), ..self }
    }

    /// How a request for a connection to `host` is gone about.
    pub open spec fn checkout(self, host: Seq<char>) -> Checkout {
        if self.host(host).idle.len() > 0 {
            Checkout::Reuse(self.host(host).idle.last())
        } else if self.host(host).in_use < self.max {
            Checkout::Create
        } else {
            Checkout::Refuse
        }
    }

    /// After a request for `host` that got no connection: the host is known.
    pub open spec fn noted(self, host: Seq<char>) -> PoolView {
        self.with_host(host, self.host(host))
    }

    /// After the last idle connection to `host` was handed out.
    pub open spec fn after_reuse(self, host: Seq<char>) -> PoolView {
        PoolView {
            reused: self.reused.wrapping_add(1),
            active: self.active.wrapping_add(1),
            ..self.with_host(
                host,
                HostView {
                    idle: self.host(host).idle.drop_last(),
                    in_use: self.host(host).in_use + 1,
                },
            )
        }
    }

    /// After a new connection to `host` was handed out.
    pub open spec fn after_create(self, host: Seq<char>) -> PoolView {
        PoolView {
            created: self.created.wrapping_add(1),
            active: self.active.wrapping_add(1),
            ..self.with_host(
                host,
                HostView { idle: self.host(host).idle, in_use: self.host(host).in_use + 1 },
            )
        }
    }

    /// Whether a request for a connection to `host` may leave the pool as `after` and
    /// answer `got`. Only making a new connection can go either way: that depends on the
    /// machine.
    pub open spec fn checked_out(
        self,
        host: Seq<char>,
        after: PoolView,
        got: Result<Client, ProxyError>,
    ) -> bool {
        match self.checkout(host) {
            Checkout::Reuse(idle) => got == Ok::<Client, ProxyError>(idle) && after
                == self.after_reuse(host),
            Checkout::Create => match got {
                Ok(client) => {
                    &&& after == self.after_create(host)
                    &&& crate::upstream::client_timeout_secs(client) == REQUEST_TIMEOUT_SECS
                    &&& crate::upstream::client_idle_limit(client) == self.max
                },
                Err(e) => e@ is HttpClient && after == self.noted(host),
            },
            Checkout::Refuse => {
                &&& got matches Err(e)
                &&& e@ == ErrorView::MaxConnectionsReached
                &&& after == self.noted(host)
            },
        }
    }

    /// After a connection to `host` was closed instead of returned. A host that the pool
    /// does not know stays unknown.
    pub open spec fn after_discard(self, host: Seq<char>) -> PoolView {
        if self.hosts.contains_key(host) {
            PoolView {
                active: self.active.wrapping_sub(1),
                ..self.with_host(
                    host,
                    HostView {
                        idle: self.hosts[host].idle,
                        in_use: one_less(self.hosts[host].in_use),
                    },
                )
            }
        } else {
            self
        }
    }

    /// After `client` was returned for `host`. It is kept unless the host is unknown or
    /// has as many idle connections as it may have connections.
    pub open spec fn after_return(self, host: Seq<char>, client: Client) -> PoolView {
        let closed = self.after_discard(host);
        let kept = if self.hosts.contains_key(host) && self.hosts[host].idle.len() < self.max {
            closed.with_host(
                host,
                HostView {
                    idle: self.hosts[host].idle.push(client),
                    in_use: closed.hosts[host].in_use,
                },
            )
        } else {
            closed
        };
        PoolView { active: self.active.wrapping_sub(1), ..kept }
    }
}

/// One less, and nothing less than nothing.
pub open spec fn one_less(n: nat) -> nat {
    if n > 0 {
        (n - 1) as nat
    } else {
        0
    }
}

impl View for ConnectionPool {
    type V = PoolView;

    closed spec fn view(&self) -> PoolView {
        PoolView {
            hosts: self.connections@.map_values(|h: HostConnections| h@),
            max: self.max_connections_per_host as nat,
            created: self.total_created,
            reused: self.total_reused,
            active: self.active_connections,
        }
    }
}

impl ConnectionPool {
    /// Each host is listed once, and none has more connections than it may have.
    pub closed spec fn wf(&self) -> bool {
        self.connections.wf() && self@.valid()
    }

    /// A pool that knows no host and allows each `max_connections_per_host` connections.
    pub fn new(max_connections_per_host: usize) -> (pool: Self)
        ensures
            pool.wf(),
            pool@ == PoolView::empty(max_connections_per_host as nat),
    {
        let pool = ConnectionPool {
            connections: Table::new(),
            max_connections_per_host,
            total_created: 0,
            total_reused: 0,
            active_connections: 0,
        };
        assert(pool@.hosts =~= Map::<Seq<char>, HostView>::empty());
        pool
    }

    /// Takes out what is known of `host`.
    fn take_host(&mut self, host: &str) -> (known: HostConnections)
        requires
            old(self).connections.wf(),
        ensures
            final(self).connections.wf(),
            final(self)@ == (PoolView { hosts: old(self)@.hosts.remove(host@), ..old(self)@ }),
            known@ == old(self)@.host(host@),
    {
        let known = match self.connections.remove(host) {
            Some(known) => known,
            None => HostConnections { idle: Vec::new(), in_use: 0 },
        };
        assert(self@.hosts =~= old(self)@.hosts.remove(host@));
        known
    }

    /// Puts in what is known of `host`.
    fn put_host(&mut self, host: &str, known: HostConnections)
        requires
            old(self).connections.wf(),
        ensures
            final(self).connections.wf(),
            final(self)@ == old(self)@.with_host(host@, known@),
    {
        self.connections.insert(host, known);
        assert(self@.hosts =~= old(self)@.hosts.insert(host@, known@));
    }

    /// Hands out a connection to `host`: an idle one if there is one, and otherwise a new
    /// one unless the host has all that it may have.
    pub fn get_connection(&mut self, host: &str) -> (got: Result<Client, ProxyError>)
        requires
            old(self).wf(),
        ensures
            final(self).wf(),
            old(self)@.checked_out(host@, final(self)@, got),
            old(self)@.hosts.contains_key(host@) && old(self)@.hosts[host@].idle.len() > 0
                ==> got == Ok::<Client, ProxyError>(old(self)@.hosts[host@].idle.last()),
            got == Err::<Client, ProxyError>(ProxyError::MaxConnectionsReached) ==> (if old(
                self
            )@.hosts.contains_key(host@) {
                old(self)@.hosts[host@].in_use == old(self)@.max
            } else {
                old(self)@.max == 0
            }),
    {
        let mut known = self.take_host(host);
        proof {
            lemma_host_within_max(old(self)@, host@);
        }
        match known.idle.pop() {
            Some(client) => {
                known.in_use = known.in_use + 1;
                self.put_host(host, known);
                self.total_reused = self.total_reused.wrapping_add(1);
                self.active_connections = self.active_connections.wrapping_add(1);
                assert(self@ =~= old(self)@.after_reuse(host@));
                Ok(client)
            },
            None => {
                let room: bool = known.in_use < self.max_connections_per_host;
                self.put_host(host, known);
                assert(self@ =~= old(self)@.noted(host@));
                if room {
                    let got = self.add_connection(
                        host,
                        build_client(REQUEST_TIMEOUT_SECS, self.max_connections_per_host),
                    );
                    assert(old(self)@.noted(host@).after_create(host@) =~= old(self)@.after_create(
                        host@,
                    ));
                    assert(old(self)@.noted(host@).noted(host@) =~= old(self)@.noted(host@));
                    got
                } else {
                    Err(ProxyError::MaxConnectionsReached)
                }
            },
        }
    }

    /// Hands out the connection that was made for `host`, if it could be made.
    pub fn add_connection(
        &mut self,
        host: &str,
        built: Result<Client, reqwest::Error>,
    ) -> (got: Result<Client, ProxyError>)
        requires
            old(self).wf(),
            old(self)@.checkout(host@) is Create,
        ensures
            final(self).wf(),
            match built {
                Ok(client) => {
                    &&& got == Ok::<Client, ProxyError>(client)
                    &&& final(self)@ == old(self)@.after_create(host@)
                },
                Err(e) => {
                    &&& got == Err::<Client, ProxyError>(ProxyError::HttpClient(e))
                    &&& final(self)@ == old(self)@.noted(host@)
                },
            },
    {
        let mut known = self.take_host(host);
        match built {
            Ok(client) => {
                known.in_use = known.in_use + 1;
                self.put_host(host, known);
                self.total_created = self.total_created.wrapping_add(1);
                self.active_connections = self.active_connections.wrapping_add(1);
                assert(self@ =~= old(self)@.after_create(host@));
                Ok(client)
            },
            Err(e) => {
                self.put_host(host, known);
                assert(self@ =~= old(self)@.noted(host@));
                Err(ProxyError::HttpClient(e))
            },
        }
    }

    /// Takes a connection back, to keep it for reuse or to close it.
    pub fn return_connection(&mut self, host: &str, client: Client)
        requires
            old(self).wf(),
        ensures
            final(self).wf(),
            final(self)@ == old(self)@.after_return(host@, client),
    {
        match self.connections.get(host) {
            Some(_) => {
                let mut known = self.take_host(host);
                if known.idle.len() < self.max_connections_per_host {
                    known.idle.push(client);
                }
                if known.in_use > 0 {
                    known.in_use = known.in_use - 1;
                }
                self.put_host(host, known);
            },
            None => {},
        }
        self.active_connections = self.active_connections.wrapping_sub(1);
        assert(self@.hosts =~= old(self)@.after_return(host@, client).hosts);
        assert(self@ =~= old(self)@.after_return(host@, client));
    }

    /// Counts a connection to `host` as closed that was handed out and will not come back.
    pub fn discard_connection(&mut self, host: &str)
        requires
            old(self).wf(),
        ensures
            final(self).wf(),
            final(self)@ == old(self)@.after_discard(host@),
    {
        match self.connections.get(host) {
            Some(_) => {
                let mut known = self.take_host(host);
                if known.in_use > 0 {
                    known.in_use = known.in_use - 1;
                }
                self.put_host(host, known);
                self.active_connections = self.active_connections.wrapping_sub(1);
            },
            None => {},
        }
        assert(self@.hosts =~= old(self)@.after_discard(host@).hosts);
    }

    /// Each known host once, with the number of its idle connections.
    pub fn stats(&self) -> (stats: Vec<(String, usize)>)
        requires
            self.wf(),
        ensures
            crate::table::lists_each_once(stats@, self@.hosts.dom()),
            forall|i: int|
                0 <= i < stats@.len() ==> (#[trigger] stats@[i]).1
                    == self@.hosts[stats@[i].0@].idle.len(),
    {
        let stats = self.connections.list(idle_connections);
        assert(self@.hosts.dom() =~= self.connections@.dom());
        stats
    }

    /// How many connections were made.
    pub fn total_created(&self) -> (n: u64)
        ensures
            n == self@.created,
    {
        self.total_created
    }

    /// How many connections were handed out again.
    pub fn total_reused(&self) -> (n: u64)
        ensures
            n == self@.reused,
    {
        self.total_reused
    }

    /// Connections handed out less connections returned or closed.
    pub fn active_connections(&self) -> (n: i64)
        ensures
            n == self@.active,
    {
        self.active_connections
    }
}

/// A host has no more connections than it may have, known or not.
proof fn lemma_host_within_max(pool: PoolView, host: Seq<char>)
    requires
        pool.valid(),
    ensures
        pool.host(host).idle.len() + pool.host(host).in_use <= pool.max,
{
}

/// Nothing that a pool does takes a host over its limit.
pub proof fn limit_is_kept(pool: PoolView, host: Seq<char>, client: Client)
    requires
        pool.valid(),
    ensures
        pool.noted(host).valid(),
        pool.checkout(host) is Reuse ==> pool.after_reuse(host).valid(),
        pool.checkout(host) is Create ==> pool.after_create(host).valid(),
        pool.after_return(host, client).valid(),
        pool.after_discard(host).valid(),
{
    lemma_host_within_max(pool, host);
}

/// A new pool knows no host and has counted nothing.
pub proof fn new_pool_is_empty(max: nat, host: Seq<char>)
    ensures
        !PoolView::empty(max).hosts.contains_key(host),
        PoolView::empty(max).max == max,
        PoolView::empty(max).created == 0,
        PoolView::empty(max).reused == 0,
        PoolView::empty(max).active == 0,
{
}

/// What a request for a connection is answered. If the host has idle connections, it is the
/// last of them, which is then no longer idle; otherwise, as long as fewer are handed out
/// than the host may have, it is a new one with the timeout and the limit of the pool, or why
/// none could be made. That the limit is reached is answered exactly if all the connections
/// that the host may have are handed out.
pub proof fn request_is_answered_by_what_the_host_has(
    pool: PoolView,
    host: Seq<char>,
    after: PoolView,
    got: Result<Client, ProxyError>,
)
    requires
        pool.hosts.contains_key(host) ==> pool.hosts[host].idle.len() + pool.hosts[host].in_use
            <= pool.max,
        pool.checked_out(host, after, got),
    ensures
        ({
            let known = pool.hosts.contains_key(host);
            let idle = if known {
                pool.hosts[host].idle
            } else {
                Seq::<Client>::empty()
            };
            let in_use = if known {
                pool.hosts[host].in_use
            } else {
                0
            };
            &&& idle.len() > 0 ==> got == Ok::<Client, ProxyError>(idle[idle.len() - 1])
            &&& idle.len() > 0 ==> after.hosts[host].idle == idle.subrange(0, idle.len() - 1)
            &&& idle.len() == 0 ==> after.hosts[host].idle.len() == 0
            &&& idle.len() == 0 && in_use < pool.max ==> match got {
                Ok(client) => {
                    &&& crate::upstream::client_timeout_secs(client) == 30
                    &&& crate::upstream::client_idle_limit(client) == pool.max
                },
                Err(e) => e is HttpClient,
            }
            &&& got == Err::<Client, ProxyError>(ProxyError::MaxConnectionsReached) <==> in_use
                == pool.max
            &&& after.hosts.contains_key(host)
            &&& after.hosts[host].in_use == in_use + (if got is Ok {
                1int
            } else {
                0int
            })
        }),
{
}

/// What a request for a connection changes beside its host: a connection that is handed out
/// is counted once, as reused or as made, and as active; one that is not is not counted.
/// Every other host stays as it was.
pub proof fn request_is_counted_once(
    pool: PoolView,
    host: Seq<char>,
    after: PoolView,
    got: Result<Client, ProxyError>,
    other: Seq<char>,
)
    requires
        pool.checked_out(host, after, got),
    ensures
        ({
            let reused = pool.hosts.contains_key(host) && pool.hosts[host].idle.len() > 0;
            &&& after.reused == (if got is Ok && reused {
                pool.reused.wrapping_add(1)
            } else {
                pool.reused
            })
            &&& after.created == (if got is Ok && !reused {
                pool.created.wrapping_add(1)
            } else {
                pool.created
            })
            &&& after.active == (if got is Ok {
                pool.active.wrapping_add(1)
            } else {
                pool.active
            })
            &&& after.max == pool.max
            &&& other != host ==> {
                &&& after.hosts.contains_key(other) <==> pool.hosts.contains_key(other)
                &&& pool.hosts.contains_key(other) ==> after.hosts[other] == pool.hosts[other]
            }
        }),
{
}

/// What taking a connection back changes: of a known host one connection less is handed out,
/// and the one that came back waits behind those that were idle, if there is room for it.
/// An unknown host stays unknown, every other host stays as it was, and of the counters only
/// that of active connections moves.
pub proof fn return_changes_one_host(
    pool: PoolView,
    host: Seq<char>,
    client: Client,
    other: Seq<char>,
)
    ensures
        ({
            let after = pool.after_return(host, client);
            &&& pool.hosts.contains_key(host) ==> {
                let known = pool.hosts[host];
                &&& after.hosts.contains_key(host)
                &&& known.idle.len() < pool.max ==> after.hosts[host].idle == known.idle + seq![
                    client,
                ]
                &&& known.idle.len() >= pool.max ==> after.hosts[host].idle == known.idle
                &&& known.in_use > 0 ==> after.hosts[host].in_use == known.in_use - 1
                &&& known.in_use == 0 ==> after.hosts[host].in_use == 0
            }
            &&& !pool.hosts.contains_key(host) ==> !after.hosts.contains_key(host)
            &&& other != host ==> {
                &&& after.hosts.contains_key(other) <==> pool.hosts.contains_key(other)
                &&& pool.hosts.contains_key(other) ==> after.hosts[other] == pool.hosts[other]
            }
            &&& after.active == pool.active.wrapping_sub(1)
            &&& after.created == pool.created
            &&& after.reused == pool.reused
            &&& after.max == pool.max
        }),
{
    if pool.hosts.contains_key(host) {
        assert(pool.hosts[host].idle.push(client) =~= pool.hosts[host].idle + seq![client]);
    }
}

/// What closing a connection changes: of a known host one connection less is handed out and
/// one less is active, and nothing else changes; of an unknown one nothing changes at all.
pub proof fn discard_changes_one_host(pool: PoolView, host: Seq<char>, other: Seq<char>)
    ensures
        ({
            let after = pool.after_discard(host);
            &&& pool.hosts.contains_key(host) ==> {
                let known = pool.hosts[host];
                &&& after.hosts.contains_key(host)
                &&& after.hosts[host].idle == known.idle
                &&& known.in_use > 0 ==> after.hosts[host].in_use == known.in_use - 1
                &&& known.in_use == 0 ==> after.hosts[host].in_use == 0
                &&& after.active == pool.active.wrapping_sub(1)
            }
            &&& !pool.hosts.contains_key(host) ==> after == pool
            &&& other != host ==> {
                &&& after.hosts.contains_key(other) <==> pool.hosts.contains_key(other)
                &&& pool.hosts.contains_key(other) ==> after.hosts[other] == pool.hosts[other]
            }
            &&& after.created == pool.created
            &&& after.reused == pool.reused
            &&& after.max == pool.max
        }),
{
}

/// A connection that is asked for right after one came back is the one that came back, if
/// there was room for it; and asking for it takes back that it came back.
pub proof fn connection_that_came_back_is_handed_out(
    pool: PoolView,
    host: Seq<char>,
    client: Client,
    after: PoolView,
    got: Result<Client, ProxyError>,
)
    requires
        pool.hosts.contains_key(host),
        pool.hosts[host].idle.len() < pool.max,
        pool.after_return(host, client).checked_out(host, after, got),
    ensures
        got == Ok::<Client, ProxyError>(client),
        after.hosts[host].idle == pool.hosts[host].idle,
        after.active == pool.active,
        pool.hosts[host].in_use > 0 ==> after.hosts == pool.hosts,
{
    returned_connection_is_reused(pool, host, client);
}

/// A connection that is given back right after it was handed out leaves its host with as many
/// handed out as before, and with the connection idle; if it had been idle, with the same
/// idle connections in the same order.
pub proof fn giving_back_takes_back_handing_out(
    pool: PoolView,
    host: Seq<char>,
    during: PoolView,
    client: Client,
)
    requires
        pool.hosts.contains_key(host) ==> pool.hosts[host].idle.len() + pool.hosts[host].in_use
            <= pool.max,
        pool.checked_out(host, during, Ok(client)),
    ensures
        ({
            let after = during.after_return(host, client);
            let known = pool.hosts.contains_key(host);
            &&& after.active == pool.active
            &&& known ==> after.hosts[host].in_use == pool.hosts[host].in_use
            &&& !known ==> after.hosts[host].in_use == 0
            &&& known && pool.hosts[host].idle.len() > 0 ==> after.hosts == pool.hosts
            &&& !(known && pool.hosts[host].idle.len() > 0) ==> after.hosts[host].idle == seq![
                client,
            ]
        }),
{
    let after = during.after_return(host, client);
    if pool.hosts.contains_key(host) && pool.hosts[host].idle.len() > 0 {
        assert(pool.hosts[host].idle.drop_last().push(client) =~= pool.hosts[host].idle);
        assert(after.hosts =~= pool.hosts);
    } else {
        assert(after.hosts[host].idle =~= seq![client]);
    }
}

/// What a pool does for one host leaves every other host as it was.
pub proof fn hosts_are_independent(
    pool: PoolView,
    host: Seq<char>,
    other: Seq<char>,
    client: Client,
)
    requires
        host != other,
    ensures
        pool.noted(host).host(other) == pool.host(other),
        pool.after_reuse(host).host(other) == pool.host(other),
        pool.after_create(host).host(other) == pool.host(other),
        pool.after_return(host, client).host(other) == pool.host(other),
        pool.after_discard(host).host(other) == pool.host(other),
{
}

/// A host is refused exactly if all the connections that it may have are handed out.
pub proof fn refused_at_the_limit(pool: PoolView, host: Seq<char>)
    requires
        pool.valid(),
    ensures
        pool.checkout(host) is Refuse <==> pool.host(host).in_use == pool.max,
{
    lemma_host_within_max(pool, host);
}

/// A new connection is made for a host exactly if none is idle and fewer are handed out than
/// it may have.
pub proof fn new_connection_is_made_below_the_limit(pool: PoolView, host: Seq<char>)
    ensures
        pool.hosts.contains_key(host) ==> (pool.checkout(host) is Create
            <==> pool.hosts[host].idle.len() == 0 && pool.hosts[host].in_use < pool.max),
        !pool.hosts.contains_key(host) ==> (pool.checkout(host) is Create <==> pool.max > 0),
{
}

/// After `n` new connections to a host.
pub open spec fn after_creates(pool: PoolView, host: Seq<char>, n: nat) -> PoolView
    decreases n,
{
    if n == 0 {
        pool
    } else {
        after_creates(pool, host, (n - 1) as nat).after_create(host)
    }
}

/// A host without connections gets as many new ones as it may have, and no more until
/// one comes back.
pub proof fn connections_up_to_the_limit(pool: PoolView, host: Seq<char>, n: nat)
    requires
        pool.host(host).in_use == 0,
        pool.host(host).idle.len() == 0,
    ensures
        after_creates(pool, host, n).host(host).in_use == n,
        after_creates(pool, host, n).host(host).idle.len() == 0,
        n < pool.max ==> after_creates(pool, host, n).checkout(host) is Create,
        n >= pool.max ==> after_creates(pool, host, n).checkout(host) is Refuse,
        after_creates(pool, host, n).max == pool.max,
    decreases n,
{
    if n > 0 {
        connections_up_to_the_limit(pool, host, (n - 1) as nat);
    }
}

/// A connection that comes back to a known host with fewer idle connections than it may have
/// connections is the next one to be handed out, before those that were idle already. If it
/// had been handed out, handing it out again leaves the hosts as they were before it came
/// back.
pub proof fn returned_connection_is_reused(pool: PoolView, host: Seq<char>, client: Client)
    requires
        pool.hosts.contains_key(host),
        pool.host(host).idle.len() < pool.max,
    ensures
        pool.after_return(host, client).checkout(host) == Checkout::Reuse(client),
        pool.after_return(host, client).after_reuse(host).host(host).idle == pool.host(host).idle,
        pool.after_return(host, client).after_reuse(host).active == pool.active,
        pool.host(host).in_use > 0 ==> pool.after_return(host, client).after_reuse(host).hosts
            == pool.hosts,
{
    let back = pool.after_return(host, client);
    assert(back.host(host).idle.drop_last() =~= pool.host(host).idle);
    if pool.host(host).in_use > 0 {
        assert(back.after_reuse(host).hosts =~= pool.hosts);
    }
}

/// A connection that comes back to a host with all the idle connections that it may have, or
/// to one that was never asked for, is not kept.
pub proof fn surplus_connection_is_closed(pool: PoolView, host: Seq<char>, client: Client)
    requires
        !pool.hosts.contains_key(host) || pool.host(host).idle.len() >= pool.max,
    ensures
        pool.after_return(host, client).host(host).idle == pool.host(host).idle,
        pool.after_return(host, client).hosts == pool.after_discard(host).hosts,
{
}

/// A host at its limit is served again once a connection comes back, and once one is
/// closed.
pub proof fn room_after_the_limit(pool: PoolView, host: Seq<char>, client: Client)
    requires
        pool.valid(),
        pool.max > 0,
        pool.checkout(host) is Refuse,
    ensures
        pool.after_return(host, client).checkout(host) == Checkout::Reuse(client),
        pool.after_discard(host).checkout(host) is Create,
{
    refused_at_the_limit(pool, host);
    lemma_host_within_max(pool, host);
    returned_connection_is_reused(pool, host, client);
}

/// Something that a pool was asked to do.
pub enum PoolEvent {
    /// Hand out a connection to a host.
    Get { host: Seq<char>, got: Result<Client, ProxyError> },
    /// Hand out the connection that was made for a host, if it could be made.
    Add { host: Seq<char>, built: Result<Client, reqwest::Error> },
    /// Take a connection back.
    Return { host: Seq<char>, client: Client },
    /// Count a connection as closed.
    Discard { host: Seq<char> },
}

/// One event, with the pool before and after it.
pub struct PoolStep {
    pub before: PoolView,
    pub event: PoolEvent,
    pub after: PoolView,
}

impl PoolStep {
    /// Whether the event takes the pool from `before` to `after`.
    pub open spec fn valid(self) -> bool {
        match self.event {
            PoolEvent::Get { host, got } => self.before.checked_out(host, self.after, got),
            PoolEvent::Add { host, built } => {
                &&& self.before.checkout(host) is Create
                &&& self.after == (if built is Ok {
                    self.before.after_create(host)
                } else {
                    self.before.noted(host)
                })
            },
            PoolEvent::Return { host, client } => self.after == self.before.after_return(
                host,
                client,
            ),
            PoolEvent::Discard { host } => self.after == self.before.after_discard(host),
        }
    }

    /// Whether a connection to `host` was asked for.
    pub open spec fn asks_for(self, host: Seq<char>) -> bool {
        match self.event {
            PoolEvent::Get { host: h, .. } => h == host,
            PoolEvent::Add { host: h, .. } => h == host,
            _ => false,
        }
    }
}

/// How the steps leave a pool that knew no host before them.
pub open spec fn pool_after(max: nat, steps: Seq<PoolStep>) -> PoolView {
    if steps.len() == 0 {
        PoolView::empty(max)
    } else {
        steps.last().after
    }
}

/// Whether the steps follow each other, from a pool that knows no host.
pub open spec fn is_pool_history(max: nat, steps: Seq<PoolStep>) -> bool
    decreases steps.len(),
{
    steps.len() == 0 || {
        &&& is_pool_history(max, steps.drop_last())
        &&& steps.last().valid()
        &&& steps.last().before == pool_after(max, steps.drop_last())
    }
}

/// What one step does to the hosts that a pool knows.
proof fn lemma_pool_step(step: PoolStep, host: Seq<char>)
    requires
        step.valid(),
        step.before.valid(),
    ensures
        step.after.valid(),
        step.after.max == step.before.max,
        step.after.hosts.contains_key(host) <==> step.before.hosts.contains_key(host)
            || step.asks_for(host),
{
    let before = step.before;
    match step.event {
        PoolEvent::Get { host: h, got } => {
            lemma_host_within_max(before, h);
        },
        PoolEvent::Add { host: h, built } => {
            lemma_host_within_max(before, h);
        },
        PoolEvent::Return { host: h, client } => {
            limit_is_kept(before, h, client);
        },
        PoolEvent::Discard { host: h } => {
            lemma_host_within_max(before, h);
        },
    }
}

/// Whatever a new pool was asked to do, it knows exactly the hosts that a connection was asked
/// for, and none of them has more idle connections, or more connections in all, than it may
/// have.
pub proof fn known_hosts_are_those_asked_for(max: nat, steps: Seq<PoolStep>, host: Seq<char>)
    requires
        is_pool_history(max, steps),
    ensures
        pool_after(max, steps).max == max,
        pool_after(max, steps).valid(),
        pool_after(max, steps).hosts.contains_key(host) <==> exists|i: int|
            0 <= i < steps.len() && (#[trigger] steps[i]).asks_for(host),
        pool_after(max, steps).host(host).idle.len() <= max,
        pool_after(max, steps).host(host).idle.len() + pool_after(max, steps).host(host).in_use
            <= max,
    decreases steps.len(),
{
    if steps.len() > 0 {
        let fewer = steps.drop_last();
        known_hosts_are_those_asked_for(max, fewer, host);
        lemma_pool_step(steps.last(), host);
        if exists|i: int| 0 <= i < fewer.len() && (#[trigger] fewer[i]).asks_for(host) {
            let i = choose|i: int| 0 <= i < fewer.len() && (#[trigger] fewer[i]).asks_for(host);
            assert(steps[i].asks_for(host));
        }
        if exists|i: int| 0 <= i < steps.len() && (#[trigger] steps[i]).asks_for(host) {
            let i = choose|i: int| 0 <= i < steps.len() && (#[trigger] steps[i]).asks_for(host);
            if i < fewer.len() {
                assert(fewer[i].asks_for(host));
            }
        }
        if steps.last().asks_for(host) {
            assert(steps[steps.len() - 1].asks_for(host));
        }
        lemma_host_within_max(steps.last().after, host);
    }
}

impl ConnectionPool {
    /// A well-formed pool is within its limit.
    pub proof fn within_limit(&self)
        requires
            self.wf(),
        ensures
            self@.valid(),
    {
    }
}

} // verus!
