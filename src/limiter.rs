//! The token-bucket rate limiter shared by the page fetches of one source.
//!
//! The token bucket itself is governor's in-memory direct limiter. Verus cannot
//! read governor's generic limiter type (its bounds name governor's traits), so
//! it is held in a private field of an opaque struct, and the two calls the
//! aggregation logic makes are wrapped below. Whether a token is available
//! depends on the clock, so nothing is promised of the outcome of an
//! acquisition; what is tracked is how many tokens were granted, which only
//! `try_acquire` can change.
use vstd::prelude::*;

verus! {

/// Admission quota of a source: requests per wall-clock hour.
pub const REQUESTS_PER_HOUR: u32 = 1000;

/// governor's direct in-memory limiter, with the default (quanta) clock.
#[verifier::external_body]
struct TokenBucket {
    inner: governor::DefaultDirectRateLimiter,
}

impl TokenBucket {
    /// Relies on governor::Quota::per_hour and governor::RateLimiter::direct:
    /// a fresh bucket admitting `per_hour` requests per hour, with a burst of
    /// the same size. `per_hour` must be nonzero, as the quota's type demands.
    #[verifier::external_body]
    fn per_hour(per_hour: u32) -> (r: TokenBucket)
        requires
            per_hour > 0,
    {
        let burst = std::num::NonZeroU32::new(per_hour).unwrap();
        TokenBucket { inner: governor::RateLimiter::direct(governor::Quota::per_hour(burst)) }
    }

    /// Relies on governor::RateLimiter::check and NotUntil::wait_time_from:
    /// takes one token if one is available (`Ok`), or else reports in
    /// milliseconds how long it is until the next token (`Err`). The outcome
    /// depends on the clock.
    #[verifier::external_body]
    fn check(&self) -> (r: Result<(), u128>) {
        match self.inner.check() {
            Ok(()) => Ok(()),
            Err(not_until) => {
                let now = governor::clock::Clock::now(self.inner.clock());
                Err(not_until.wait_time_from(now).as_millis())
            },
        }
    }
}

/// A source's rate limiter; its view is the number of tokens it granted.
pub struct RateLimiter {
    bucket: TokenBucket,
    granted: Ghost<nat>,
}

impl View for RateLimiter {
    type V = nat;

    closed spec fn view(&self) -> nat {
        self.granted@
    }
}

impl RateLimiter {
    /// A fresh limiter admitting `per_hour` requests per hour.
    pub fn per_hour(per_hour: u32) -> (r: RateLimiter)
        requires
            per_hour > 0,
        ensures
            r@ == 0,
    {
        RateLimiter { bucket: TokenBucket::per_hour(per_hour), granted: Ghost(0) }
    }

    /// Takes one token (`Ok`), or reports in milliseconds how long it is until
    /// the next one (`Err`). A granted token is counted.
    pub fn try_acquire(&mut self) -> (r: Result<(), u128>)
        ensures
            r is Ok ==> final(self)@ == old(self)@ + 1,
            r is Err ==> final(self)@ == old(self)@,
    {
        let r = self.bucket.check();
        if r.is_ok() {
            self.granted = Ghost(self.granted@ + 1);
        }
        r
    }
}

} // verus!
