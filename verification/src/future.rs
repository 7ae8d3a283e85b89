//! Futures that wait for a token of a rate limit before they run.

use crate::error::ProxyError;
use crate::limiter::RateLimiter;
use std::future::Future;
use vstd::prelude::*;

verus! {

/// Milliseconds after which a future that got no token is polled again.
pub const RETRY_MILLIS: u64 = 100;

/// A future that runs once it has a token. `L` is how the limiter is reached.
pub struct RateLimitedFuture<F, L> {
    pub inner: F,
    pub limiter: L,
    pub acquired: bool,
}

/// What a poll of a [`RateLimitedFuture`] does next.
#[derive(Clone, Copy, PartialEq, Eq, Structural, Debug)]
pub enum PollStep {
    /// Polls the inner future.
    PollInner,
    /// Is pending, and wakes the task after so many milliseconds.
    Retry { after_millis: u64 },
}

/// What a poll does next, and whether the future has its token after it: `has_token`
/// before the poll, and `granted` if the limiter gave one.
pub open spec fn poll_step(has_token: bool, granted: bool) -> (bool, PollStep) {
    if has_token || granted {
        (true, PollStep::PollInner)
    } else {
        (false, PollStep::Retry { after_millis: RETRY_MILLIS })
    }
}

impl<F, L> RateLimitedFuture<F, L> {
    /// Starts a poll. A future without a token tries to get one from `limiter`, which is
    /// `None` while somebody else holds it; `due` tokens fell due by `now`. A future with a
    /// token leaves the limiter alone.
    pub fn poll(&mut self, limiter: Option<&mut RateLimiter>, now: u128, due: usize) -> (step:
        PollStep)
        requires
            limiter matches Some(l) ==> l@.tokens + due <= usize::MAX,
        ensures
            final(self).inner == old(self).inner,
            final(self).limiter == old(self).limiter,
            limiter is None ==> (final(self).acquired, step) == poll_step(
                old(self).acquired,
                false,
            ),
            limiter matches Some(l) ==> {
                &&& (final(self).acquired, step) == poll_step(
                    old(self).acquired,
                    l@.grants(now as nat, due as nat),
                )
                &&& final(l)@ == (if old(self).acquired {
                    l@
                } else {
                    l@.acquired(now as nat, due as nat)
                })
            },
    {
        if !self.acquired {
            match RateLimiter::try_acquire(limiter, now, due) {
                Ok(()) => {
                    self.acquired = true;
                },
                Err(_) => {
                    return PollStep::Retry { after_millis: RETRY_MILLIS };
                },
            }
        }
        PollStep::PollInner
    }

    /// Ends a poll with what the inner future gave, if it is ready.
    pub fn finish_poll<T>(polled: Option<T>) -> (ready: Option<Result<T, ProxyError>>)
        ensures
            ready == (match polled {
                Some(output) => Some(Ok::<T, ProxyError>(output)),
                None => None,
            }),
    {
        match polled {
            Some(output) => Some(Ok(output)),
            None => None,
        }
    }
}

/// Adds a rate limit to futures.
pub trait WithRateLimiting: Future + Unpin + Sized {
    /// Makes this future wait for a token of the limiter behind `limiter`.
    fn with_rate_limit<L>(self, limiter: L) -> (limited: RateLimitedFuture<Self, L>)
        ensures
            limited.inner == self,
            limited.limiter == limiter,
            !limited.acquired,
    {
        RateLimitedFuture { inner: self, limiter, acquired: false }
    }
}

impl<F: Future + Unpin> WithRateLimiting for F {

}

/// A poll runs the inner future exactly if the future had its token or gets it now; otherwise
/// it is tried again after a tenth of a second. A token, once had, is not lost.
pub proof fn poll_waits_for_a_token(has_token: bool, granted: bool)
    ensures
        poll_step(has_token, granted).0 <==> has_token || granted,
        poll_step(has_token, granted).1 == PollStep::PollInner <==> has_token || granted,
        !has_token && !granted ==> poll_step(has_token, granted).1 == (PollStep::Retry {
            after_millis: 100,
        }),
{
}

/// Whether a future has its token after it was polled once for each element of `granted`,
/// the limiter being ready to grant one or not.
pub open spec fn has_token_after(has_token: bool, granted: Seq<bool>) -> bool
    decreases granted.len(),
{
    if granted.len() == 0 {
        has_token
    } else {
        poll_step(has_token_after(has_token, granted.drop_last()), granted.last()).0
    }
}

/// How many tokens a future takes over those polls.
pub open spec fn tokens_taken(has_token: bool, granted: Seq<bool>) -> nat
    decreases granted.len(),
{
    if granted.len() == 0 {
        0
    } else {
        tokens_taken(has_token, granted.drop_last()) + (if !has_token_after(
            has_token,
            granted.drop_last(),
        ) && granted.last() {
            1nat
        } else {
            0nat
        })
    }
}

/// However often it is polled, a new future takes one token in all once the limiter has
/// one for it, and none before. Its inner future is polled in that poll and in each later one,
/// and in none before.
pub proof fn one_token_for_each_future(granted: Seq<bool>)
    ensures
        has_token_after(false, granted) <==> granted.contains(true),
        tokens_taken(false, granted) == (if granted.contains(true) {
            1nat
        } else {
            0nat
        }),
        granted.len() > 0 ==> (poll_step(
            has_token_after(false, granted.drop_last()),
            granted.last(),
        ).1 == PollStep::PollInner <==> granted.contains(true)),
    decreases granted.len(),
{
    if granted.len() > 0 {
        let before = granted.drop_last();
        one_token_for_each_future(before);
        assert(granted =~= before.push(granted.last()));
        if before.contains(true) {
            let i = choose|i: int| 0 <= i < before.len() && before[i] == true;
            assert(granted[i] == true);
        }
        if granted.last() {
            assert(granted[granted.len() - 1] == true);
        }
        if granted.contains(true) && !granted.last() {
            let i = choose|i: int| 0 <= i < granted.len() && granted[i] == true;
            assert(before[i] == true);
        }
    }
}

} // verus!
