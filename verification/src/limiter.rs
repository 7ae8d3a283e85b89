//! A token bucket.
//!
//! Time is a number of nanoseconds since an origin that the caller keeps fixed. How
//! many tokens fell due between two points in time is the caller's floating-point
//! quotient of two durations; the bucket takes that number as an argument.

use crate::error::{ErrorView, ProxyError};
use vstd::prelude::*;

verus! {

/// Token bucket that starts full.
#[derive(Debug)]
pub struct RateLimiter {
    capacity: usize,
    refill_rate: u128,
    tokens: usize,
    last_refill: u128,
}

/// The state of a [`RateLimiter`].
#[verifier::ext_equal]
pub struct LimiterView {
    /// The most tokens that the bucket holds.
    pub capacity: nat,
    /// Nanoseconds that one token takes to fall due.
    pub refill_rate: nat,
    /// Tokens in the bucket.
    pub tokens: nat,
    /// When tokens were last put in.
    pub last_refill: nat,
}

/// The smaller of two numbers.
pub open spec fn at_most(n: nat, bound: nat) -> nat {
    if n <= bound {
        n
    } else {
        bound
    }
}

impl LimiterView {
    /// A full bucket.
    pub open spec fn full(capacity: nat, refill_rate: nat, now: nat) -> LimiterView {
        LimiterView { capacity, refill_rate, tokens: capacity, last_refill: now }
    }

    /// The bucket never holds more than its capacity.
    pub open spec fn valid(self) -> bool {
        self.tokens <= self.capacity
    }

    /// After `due` tokens fell due at time `now`. With none due, the time of the last
    /// refill stays, so that a part of an interval is not lost.
    pub open spec fn refilled(self, now: nat, due: nat) -> LimiterView {
        if due > 0 {
            LimiterView {
                tokens: at_most(self.tokens + due, self.capacity),
                last_refill: now,
                ..self
            }
        } else {
            self
        }
    }

    /// Whether a request at time `now` gets a token.
    pub open spec fn grants(self, now: nat, due: nat) -> bool {
        self.refilled(now, due).tokens > 0
    }

    /// After a request at time `now`.
    pub open spec fn acquired(self, now: nat, due: nat) -> LimiterView {
        let refilled = self.refilled(now, due);
        if refilled.tokens > 0 {
            LimiterView { tokens: (refilled.tokens - 1) as nat, ..refilled }
        } else {
            refilled
        }
    }

    /// After a run of requests.
    pub open spec fn after_run(self, run: Seq<Attempt>) -> LimiterView
        decreases run.len(),
    {
        if run.len() == 0 {
            self
        } else {
            self.after_run(run.drop_last()).acquired(run.last().now, run.last().due)
        }
    }

    /// Whether tokens fall due over a run no faster than the refill rate: by each request
    /// only as many as whole intervals have passed since the last refill.
    pub open spec fn paced(self, run: Seq<Attempt>) -> bool
        decreases run.len(),
    {
        run.len() == 0 || {
            let before = self.after_run(run.drop_last());
            let last = run.last();
            &&& self.paced(run.drop_last())
            &&& before.last_refill <= last.now
            &&& last.due * self.refill_rate <= last.now - before.last_refill
        }
    }

    /// How many requests of a run get a token.
    pub open spec fn granted(self, run: Seq<Attempt>) -> nat
        decreases run.len(),
    {
        if run.len() == 0 {
            0
        } else {
            self.granted(run.drop_last()) + (if self.after_run(run.drop_last()).grants(
                run.last().now,
                run.last().due,
            ) {
                1nat
            } else {
                0nat
            })
        }
    }
}

/// One request: when it came, and how many tokens had fallen due by then.
pub struct Attempt {
    pub now: nat,
    pub due: nat,
}

/// How many tokens fall due over a run of requests.
pub open spec fn total_due(run: Seq<Attempt>) -> nat
    decreases run.len(),
{
    if run.len() == 0 {
        0
    } else {
        total_due(run.drop_last()) + run.last().due
    }
}

impl View for RateLimiter {
    type V = LimiterView;

    closed spec fn view(&self) -> LimiterView {
        LimiterView {
            capacity: self.capacity as nat,
            refill_rate: self.refill_rate as nat,
            tokens: self.tokens as nat,
            last_refill: self.last_refill as nat,
        }
    }
}

/// What an attempt to get a token answers.
pub open spec fn token_answer(granted: bool, answer: Result<(), ProxyError>) -> bool {
    match answer {
        Ok(()) => granted,
        Err(e) => !granted && e@ == ErrorView::RateLimitExceeded,
    }
}

impl RateLimiter {
    /// A full bucket that gains one token every `refill_rate` nanoseconds.
    pub fn new(capacity: usize, refill_rate: u128, now: u128) -> (limiter: Self)
        ensures
            limiter@ == LimiterView::full(capacity as nat, refill_rate as nat, now as nat),
            limiter@.valid(),
            limiter@.capacity == capacity,
            limiter@.refill_rate == refill_rate,
            limiter@.tokens == capacity,
            limiter@.last_refill == now,
    {
        RateLimiter { capacity, refill_rate, tokens: capacity, last_refill: now }
    }

    /// Takes a token, if there is one after `due` tokens fell due.
    pub fn acquire(&mut self, now: u128, due: usize) -> (answer: Result<(), ProxyError>)
        requires
            old(self)@.tokens + due <= usize::MAX,
        ensures
            final(self)@ == old(self)@.acquired(now as nat, due as nat),
            token_answer(old(self)@.grants(now as nat, due as nat), answer),
            old(self)@.valid() ==> final(self)@.valid(),
            old(self)@.valid() && old(self)@.tokens + due <= old(self)@.capacity && answer is Ok
                ==> final(self)@.tokens == old(self)@.tokens + due - 1,
            old(self)@.valid() && old(self)@.tokens + due > old(self)@.capacity && answer is Ok
                ==> final(self)@.tokens == old(self)@.capacity - 1,
            old(self)@.tokens > 0 && old(self)@.capacity > 0 ==> answer is Ok,
            due > 0 && old(self)@.capacity > 0 ==> answer is Ok,
    {
        if due > 0 {
            let filled: usize = self.tokens + due;
            self.tokens =
            if filled <= self.capacity {
                filled
            } else {
                self.capacity
            };
            self.last_refill = now;
        }
        if self.tokens > 0 {
            self.tokens = self.tokens - 1;
            Ok(())
        } else {
            Err(ProxyError::RateLimitExceeded)
        }
    }

    /// Takes a token without waiting for anyone. `limiter` is the bucket if nobody else
    /// holds it at the moment, and `None` if somebody does: then there is no token.
    pub fn try_acquire(limiter: Option<&mut RateLimiter>, now: u128, due: usize) -> (answer: Result<
        (),
        ProxyError,
    >)
        requires
            limiter matches Some(l) ==> l@.tokens + due <= usize::MAX,
        ensures
            limiter is None ==> token_answer(false, answer),
            limiter matches Some(l) ==> {
                &&& final(l)@ == l@.acquired(now as nat, due as nat)
                &&& token_answer(l@.grants(now as nat, due as nat), answer)
                &&& l@.valid() ==> final(l)@.valid()
            },
    {
        match limiter {
            Some(l) => l.acquire(now, due),
            None => Err(ProxyError::RateLimitExceeded),
        }
    }

    /// The number of tokens in the bucket.
    pub fn available_tokens(&self) -> (n: usize)
        ensures
            n == self@.tokens,
    {
        self.tokens
    }

    /// Nanoseconds that one token takes to fall due.
    pub fn refill_rate(&self) -> (nanos: u128)
        ensures
            nanos == self@.refill_rate,
    {
        self.refill_rate
    }

    /// Nanoseconds from the last refill to `now`, and none if the clock went back.
    pub fn since_refill(&self, now: u128) -> (nanos: u128)
        ensures
            nanos == (if now >= self@.last_refill {
                now - self@.last_refill
            } else {
                0
            }),
    {
        if now >= self.last_refill {
            now - self.last_refill
        } else {
            0
        }
    }
}

/// A new bucket holds as many tokens as it can and gained the last of them when it was made.
pub proof fn new_bucket_is_full(capacity: nat, refill_rate: nat, now: nat)
    ensures
        LimiterView::full(capacity, refill_rate, now).capacity == capacity,
        LimiterView::full(capacity, refill_rate, now).refill_rate == refill_rate,
        LimiterView::full(capacity, refill_rate, now).tokens == capacity,
        LimiterView::full(capacity, refill_rate, now).last_refill == now,
{
}

/// A request finds in the bucket what was there and all that fell due, cut off only at the
/// capacity. It is answered with a token exactly if it finds one, and takes that one and no
/// other. Its time becomes that of the last refill exactly if something fell due.
pub proof fn request_finds_all_that_fell_due(
    limiter: LimiterView,
    now: nat,
    due: nat,
    answer: Result<(), ProxyError>,
)
    requires
        limiter.tokens <= limiter.capacity,
        token_answer(limiter.grants(now, due), answer),
    ensures
        ({
            let after = limiter.acquired(now, due);
            let found: nat = if limiter.tokens + due <= limiter.capacity {
                limiter.tokens + due
            } else {
                limiter.capacity
            };
            &&& answer is Ok <==> found > 0
            &&& answer is Ok ==> after.tokens == found - 1
            &&& answer matches Err(e) ==> e == ProxyError::RateLimitExceeded && after.tokens == 0
            &&& after.capacity == limiter.capacity
            &&& after.refill_rate == limiter.refill_rate
            &&& due > 0 ==> after.last_refill == now
            &&& due == 0 ==> after.last_refill == limiter.last_refill
        }),
{
}

/// After `due` tokens fell due, and nothing after them, as many requests in a row get a token
/// as were in the bucket and fell due, cut off only at the capacity; every later one gets
/// none. So a burst after a pause is served with all that fell due in the pause.
pub proof fn burst_gets_all_that_fell_due(limiter: LimiterView, run: Seq<Attempt>)
    requires
        limiter.tokens <= limiter.capacity,
        run.len() > 0,
        forall|i: int| 0 < i < run.len() ==> (#[trigger] run[i]).due == 0,
    ensures
        ({
            let found: nat = if limiter.tokens + run[0].due <= limiter.capacity {
                limiter.tokens + run[0].due
            } else {
                limiter.capacity
            };
            &&& run.len() <= found ==> limiter.granted(run) == run.len()
            &&& run.len() > found ==> limiter.granted(run) == found
            &&& limiter.after_run(run).tokens == found - limiter.granted(run)
        }),
    decreases run.len(),
{
    let fewer = run.drop_last();
    if fewer.len() > 0 {
        assert(fewer[0] == run[0]);
        assert forall|i: int| 0 < i < fewer.len() implies (#[trigger] fewer[i]).due == 0 by {
            assert(fewer[i] == run[i]);
        }
        burst_gets_all_that_fell_due(limiter, fewer);
        assert(run[run.len() - 1].due == 0);
    } else {
        assert(limiter.after_run(fewer) == limiter);
        assert(limiter.granted(fewer) == 0);
        assert(run.last() == run[0]);
    }
    bucket_stays_within_capacity(limiter, fewer);
}

/// As long as the capacity cuts nothing off, no token is lost: those that a run of requests
/// gets, and those left after it, are exactly those that were in the bucket and fell due.
pub proof fn no_token_is_lost_below_capacity(limiter: LimiterView, run: Seq<Attempt>)
    requires
        limiter.tokens + total_due(run) <= limiter.capacity,
    ensures
        limiter.granted(run) + limiter.after_run(run).tokens == limiter.tokens + total_due(run),
    decreases run.len(),
{
    if run.len() > 0 {
        no_token_is_lost_below_capacity(limiter, run.drop_last());
        bucket_stays_within_capacity(limiter, run.drop_last());
    }
}

/// However tokens fall due, a bucket stays within its capacity and keeps its settings.
pub proof fn bucket_stays_within_capacity(limiter: LimiterView, run: Seq<Attempt>)
    requires
        limiter.valid(),
    ensures
        limiter.after_run(run).valid(),
        limiter.after_run(run).capacity == limiter.capacity,
        limiter.after_run(run).refill_rate == limiter.refill_rate,
    decreases run.len(),
{
    if run.len() > 0 {
        bucket_stays_within_capacity(limiter, run.drop_last());
    }
}

/// The tokens that a run of requests gets, and those left after it, are together no more
/// than were in the bucket and fell due.
pub proof fn grants_are_bounded(limiter: LimiterView, run: Seq<Attempt>)
    ensures
        limiter.granted(run) + limiter.after_run(run).tokens <= limiter.tokens + total_due(run),
    decreases run.len(),
{
    if run.len() > 0 {
        grants_are_bounded(limiter, run.drop_last());
    }
}

/// Over a paced run the tokens that fall due take their time.
proof fn lemma_due_takes_time(limiter: LimiterView, run: Seq<Attempt>)
    requires
        limiter.paced(run),
    ensures
        total_due(run) * limiter.refill_rate + limiter.last_refill <= limiter.after_run(
            run,
        ).last_refill,
        limiter.after_run(run).last_refill == limiter.last_refill || (exists|i: int|
            0 <= i < run.len() && limiter.after_run(run).last_refill == (#[trigger] run[i]).now),
    decreases run.len(),
{
    if run.len() == 0 {
        assert(0 * limiter.refill_rate == 0);
    } else {
        let fewer = run.drop_last();
        let last = run.last();
        lemma_due_takes_time(limiter, fewer);
        assert(total_due(run) == total_due(fewer) + last.due);
        let rate = limiter.refill_rate;
        let sooner = total_due(fewer);
        assert((sooner + last.due) * rate == sooner * rate + last.due * rate) by (nonlinear_arith);
        if last.due > 0 {
            assert(run[run.len() - 1].now == last.now);
        } else {
            assert(last.due * rate == 0) by (nonlinear_arith)
                requires
                    last.due == 0,
            ;
            if limiter.after_run(fewer).last_refill != limiter.last_refill {
                let i = choose|i: int|
                    0 <= i < fewer.len() && limiter.after_run(fewer).last_refill == (
                    #[trigger] fewer[i]).now;
                assert(run[i] == fewer[i]);
            }
        }
    }
}

/// If tokens fall due no faster than the refill rate, then within any time after the last
/// refill a bucket grants no more requests than it holds tokens when full and whole intervals
/// fit into that time.
pub proof fn rate_is_kept_over_time(limiter: LimiterView, run: Seq<Attempt>, time: nat)
    requires
        limiter.valid(),
        limiter.refill_rate > 0,
        limiter.paced(run),
        forall|i: int|
            0 <= i < run.len() ==> (#[trigger] run[i]).now <= limiter.last_refill + time,
    ensures
        limiter.granted(run) <= limiter.capacity + time / limiter.refill_rate,
{
    grants_are_bounded(limiter, run);
    lemma_due_takes_time(limiter, run);
    let due = total_due(run) as int;
    let rate = limiter.refill_rate as int;
    let t = time as int;
    assert(due <= t / rate) by (nonlinear_arith)
        requires
            rate > 0,
            due * rate <= t,
            t >= 0,
    ;
}

/// While nothing falls due, a bucket with `n` tokens grants the first `n` requests,
/// refuses every later one, and changes only in its number of tokens.
pub proof fn tokens_are_spent_one_by_one(limiter: LimiterView, run: Seq<Attempt>, now: nat)
    requires
        forall|i: int| 0 <= i < run.len() ==> (#[trigger] run[i]).due == 0,
    ensures
        limiter.granted(run) == at_most(run.len(), limiter.tokens),
        limiter.after_run(run) == (LimiterView {
            tokens: (limiter.tokens - at_most(run.len(), limiter.tokens)) as nat,
            ..limiter
        }),
        limiter.after_run(run).grants(now, 0) <==> run.len() < limiter.tokens,
    decreases run.len(),
{
    if run.len() > 0 {
        tokens_are_spent_one_by_one(limiter, run.drop_last(), now);
    }
}

/// Trying to get a token from a bucket that nobody else holds answers what waiting for one
/// from an equal bucket does, and leaves the two equal.
pub proof fn trying_is_acquiring(
    tried: LimiterView,
    waited: LimiterView,
    now: nat,
    due: nat,
    tried_answer: Result<(), ProxyError>,
    waited_answer: Result<(), ProxyError>,
)
    requires
        tried == waited,
        token_answer(tried.grants(now, due), tried_answer),
        token_answer(waited.grants(now, due), waited_answer),
    ensures
        match (tried_answer, waited_answer) {
            (Ok(()), Ok(())) => true,
            (Err(a), Err(b)) => a@ == b@,
            _ => false,
        },
        tried.acquired(now, due) == waited.acquired(now, due),
{
}

/// A refused request that brought no refill leaves the bucket as it was.
pub proof fn refusal_changes_nothing(limiter: LimiterView, now: nat)
    requires
        !limiter.grants(now, 0),
    ensures
        limiter.acquired(now, 0) == limiter,
{
}

/// As soon as a token falls due, a bucket that can hold one grants the next request,
/// and no later than that: a bucket without room never grants.
pub proof fn refill_ends_refusal(limiter: LimiterView, now: nat, due: nat)
    requires
        due > 0,
    ensures
        limiter.grants(now, due) <==> limiter.capacity > 0,
{
}

} // verus!
