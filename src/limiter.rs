//! Token-bucket rate limiter: the bucket is refilled to full once a whole
//! window has passed since the last refill, and callers pay bytes with tokens.
use vstd::prelude::*;
use std::time::Instant;
use crate::clock::millis_since;

verus! {

/// A token bucket of `max_speed` bytes per window of `window_size` ms.
#[derive(Debug)]
pub struct SpeedLimiter {
    pub max_speed: u64,
    /// Length of the refill window, in milliseconds.
    pub window_size: u64,
    pub tokens: u64,
    /// Time of the last refill, in milliseconds since `origin`.
    pub last_refill: u64,
    pub origin: Instant,
}

/// Milliseconds from `last` to `now`, or zero if the clock reads earlier.
pub open spec fn elapsed_since(last: u64, now: u64) -> nat {
    if now >= last {
        (now - last) as nat
    } else {
        0
    }
}

impl SpeedLimiter {
    /// The bucket never holds more than `max_speed` tokens.
    pub open spec fn wf(&self) -> bool {
        self.tokens <= self.max_speed
    }

    /// The bucket after a refill check at time `now`.
    pub open spec fn refilled(&self, now: u64) -> (u64, u64) {
        if elapsed_since(self.last_refill, now) >= self.window_size {
            (self.max_speed, now)
        } else {
            (self.tokens, self.last_refill)
        }
    }

    /// The outcome of `consume_at(now, bytes)`: `new` and `r` after `self`.
    pub open spec fn consumed(&self, new: &Self, now: u64, bytes: u64, r: bool) -> bool {
        &&& new.wf()
        &&& new.max_speed == self.max_speed
        &&& new.window_size == self.window_size
        &&& new.last_refill == self.refilled(now).1
        &&& r == (self.refilled(now).0 >= bytes)
        &&& new.tokens == (if r {
            self.refilled(now).0 - bytes
        } else {
            self.refilled(now).0 as int
        })
    }

    /// The outcome of `wait_if_needed_at(now, bytes)`: `new` and `r` after `self`.
    pub open spec fn waited(&self, new: &Self, now: u64, bytes: u64, r: u64) -> bool {
        &&& new.wf()
        &&& new.max_speed == self.max_speed
        &&& new.window_size == self.window_size
        &&& new.last_refill == self.refilled(now).1
        &&& self.refilled(now).0 >= bytes ==> r == 0 && new.tokens == self.refilled(now).0 - bytes
        &&& self.refilled(now).0 < bytes ==> {
            &&& new.tokens == self.refilled(now).0
            &&& r == (if elapsed_since(new.last_refill, now) >= self.window_size {
                0
            } else {
                self.window_size - elapsed_since(new.last_refill, now)
            })
        }
    }

    /// An empty bucket of `max_speed` bytes per second: the first bytes wait
    /// for the first window to pass.
    pub fn new(max_speed: u64) -> (r: Self)
        ensures
            r.wf(),
            r.max_speed == max_speed,
            r.window_size == 1000,
            r.tokens == 0,
            r.last_refill == 0,
    {
        SpeedLimiter { max_speed, window_size: 1000, tokens: 0, last_refill: 0, origin: Instant::now() }
    }

    /// Refills the bucket to full if a whole window has passed at time `now`.
    pub fn refill_tokens_at(&mut self, now: u64)
        requires
            old(self).wf(),
        ensures
            final(self).wf(),
            (final(self).tokens, final(self).last_refill) == old(self).refilled(now),
            final(self).max_speed == old(self).max_speed,
            final(self).window_size == old(self).window_size,
    {
        let elapsed = if now >= self.last_refill {
            now - self.last_refill
        } else {
            0
        };
        if elapsed >= self.window_size {
            self.tokens = self.max_speed;
            self.last_refill = now;
        }
    }

    /// Refills at time `now`, then pays `bytes` tokens if the bucket holds them.
    pub fn consume_at(&mut self, now: u64, bytes: u64) -> (r: bool)
        requires
            old(self).wf(),
        ensures
            old(self).consumed(final(self), now, bytes, r),
    {
        self.refill_tokens_at(now);
        if self.tokens >= bytes {
            self.tokens = self.tokens - bytes;
            true
        } else {
            false
        }
    }

    /// At time `now`: pays `bytes` and returns 0 if the (refilled) bucket holds
    /// them; otherwise returns how many milliseconds remain of the current
    /// window, leaving the tokens as they are.
    pub fn wait_if_needed_at(&mut self, now: u64, bytes: u64) -> (r: u64)
        requires
            old(self).wf(),
        ensures
            old(self).waited(final(self), now, bytes, r),
    {
        if self.consume_at(now, bytes) {
            return 0;
        }
        let elapsed = if now >= self.last_refill {
            now - self.last_refill
        } else {
            0
        };
        if elapsed >= self.window_size {
            0
        } else {
            self.window_size - elapsed
        }
    }

    /// Refills the bucket if a whole window has passed since the last refill.
    pub fn refill_tokens(&mut self)
        requires
            old(self).wf(),
        ensures
            final(self).wf(),
            final(self).max_speed == old(self).max_speed,
            final(self).window_size == old(self).window_size,
            exists|now: u64| (final(self).tokens, final(self).last_refill) == old(self).refilled(now),
    {
        let now = millis_since(&self.origin);
        self.refill_tokens_at(now);
        proof {
            assert((self.tokens, self.last_refill) == old(self).refilled(now));
        }
    }

    /// Pays `bytes` tokens if the bucket, refilled as due, holds them.
    pub fn consume(&mut self, bytes: u64) -> (r: bool)
        requires
            old(self).wf(),
        ensures
            final(self).wf(),
            final(self).max_speed == old(self).max_speed,
            final(self).window_size == old(self).window_size,
            old(self).tokens >= bytes ==> r,
            bytes > old(self).max_speed ==> !r,
            exists|now: u64| old(self).consumed(final(self), now, bytes, r),
    {
        let now = millis_since(&self.origin);
        let r = self.consume_at(now, bytes);
        proof {
            assert(old(self).consumed(self, now, bytes, r));
        }
        r
    }

    /// How many milliseconds to wait before `bytes` may be sent; 0 when they
    /// were paid for now.
    pub fn wait_if_needed(&mut self, bytes: u64) -> (r: u64)
        requires
            old(self).wf(),
        ensures
            final(self).wf(),
            final(self).max_speed == old(self).max_speed,
            final(self).window_size == old(self).window_size,
            r <= final(self).window_size,
            old(self).tokens >= bytes ==> r == 0,
            exists|now: u64| old(self).waited(final(self), now, bytes, r),
    {
        let now = millis_since(&self.origin);
        let r = self.wait_if_needed_at(now, bytes);
        proof {
            assert(old(self).waited(self, now, bytes, r));
        }
        r
    }
}

} // verus!
