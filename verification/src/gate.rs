//! The admission gate: a token-bucket rate limiter with a bounded queue of
//! pending requests, sitting in front of the service's entry points. A
//! request beyond both the bucket and the queue bound is rejected at once
//! rather than left waiting without bound. The limiter touches no mapping
//! data; it is purely a front-door concern.

use vstd::prelude::*;

verus! {

/// The limiter's answer to one request.
#[derive(PartialEq, Eq, Structural, Clone, Copy, Debug)]
pub enum Admission {
    /// A token was available: proceed now.
    Admitted,
    /// No token, but room in the queue: wait for a refill.
    Queued,
    /// No token and the queue is full: rejected immediately.
    Rejected,
}

/// A token bucket of fixed capacity refilled at a fixed rate, with a
/// bounded FIFO of requests waiting for tokens.
pub struct AdmissionGate {
    capacity: u64,
    refill_rate: u64,
    queue_bound: u64,
    tokens: u64,
    queued: u64,
    last_refill: u64,
}

impl AdmissionGate {
    /// The bucket's size.
    pub closed spec fn capacity(&self) -> u64 {
        self.capacity
    }

    /// Tokens gained per clock tick.
    pub closed spec fn refill_rate(&self) -> u64 {
        self.refill_rate
    }

    /// How many requests may wait at once.
    pub closed spec fn queue_bound(&self) -> u64 {
        self.queue_bound
    }

    /// Tokens in the bucket.
    pub closed spec fn tokens(&self) -> u64 {
        self.tokens
    }

    /// Requests waiting.
    pub closed spec fn queued(&self) -> u64 {
        self.queued
    }

    /// The tick of the last refill.
    pub closed spec fn last_refill(&self) -> u64 {
        self.last_refill
    }

    /// Well-formedness: the bucket never overflows its capacity and the
    /// queue never exceeds its bound.
    pub open spec fn wf(&self) -> bool {
        &&& self.tokens() <= self.capacity()
        &&& self.queued() <= self.queue_bound()
    }

    /// The tokens available at `now`, before any is taken: what the bucket
    /// held, plus the refill for the ticks elapsed, clipped at capacity. A
    /// clock reading before the last refill adds nothing.
    pub open spec fn spec_refill(&self, now: u64) -> int {
        let elapsed: int = if now >= self.last_refill() {
            now - self.last_refill()
        } else {
            0
        };
        vstd::math::min(self.capacity() as int, self.tokens() + self.refill_rate() * elapsed)
    }

    /// A limiter whose bucket starts full and whose queue starts empty.
    pub fn new(capacity: u64, refill_rate: u64, queue_bound: u64, now: u64) -> (r: AdmissionGate)
        ensures
            r.wf(),
            r.capacity() == capacity,
            r.refill_rate() == refill_rate,
            r.queue_bound() == queue_bound,
            r.tokens() == capacity,
            r.queued() == 0,
            r.last_refill() == now,
    {
        AdmissionGate {
            capacity,
            refill_rate,
            queue_bound,
            tokens: capacity,
            queued: 0,
            last_refill: now,
        }
    }

    /// Bring the bucket up to date with the clock.
    fn refill(&mut self, now: u64)
        requires
            old(self).wf(),
        ensures
            final(self).wf(),
            final(self).capacity() == old(self).capacity(),
            final(self).refill_rate() == old(self).refill_rate(),
            final(self).queue_bound() == old(self).queue_bound(),
            final(self).queued() == old(self).queued(),
            final(self).tokens() == old(self).spec_refill(now),
            final(self).last_refill() == if now >= old(self).last_refill() {
                now
            } else {
                old(self).last_refill()
            },
    {
        if now > self.last_refill {
            let elapsed = now - self.last_refill;
            // gained == min(capacity, refill_rate * elapsed), without overflow
            let gained: u64 = match self.refill_rate.checked_mul(elapsed) {
                Some(g) => if g > self.capacity {
                    self.capacity
                } else {
                    g
                },
                None => self.capacity,
            };
            assert(gained <= self.capacity);
            assert(gained <= self.refill_rate * elapsed);
            self.tokens = if self.tokens >= self.capacity - gained {
                self.capacity
            } else {
                self.tokens + gained
            };
            self.last_refill = now;
            proof {
                let cap = old(self).capacity() as int;
                let tok = old(self).tokens() as int;
                let r_full = old(self).refill_rate() as int * (elapsed as int);
                assert(gained as int == vstd::math::min(cap, r_full));
                assert(self.tokens() as int == vstd::math::min(cap, tok + r_full));
                assert(old(self).spec_refill(now) == vstd::math::min(cap, tok + r_full));
            }
        } else {
            proof {
                let cap = old(self).capacity() as int;
                let tok = old(self).tokens() as int;
                assert(old(self).refill_rate() as int * 0 == 0);
                assert(old(self).spec_refill(now) == vstd::math::min(cap, tok));
            }
        }
    }

    /// Decide one inbound request at `now`: admit on an available token,
    /// queue while the queue has room, and otherwise reject immediately.
    pub fn request(&mut self, now: u64) -> (r: Admission)
        requires
            old(self).wf(),
        ensures
            final(self).wf(),
            final(self).capacity() == old(self).capacity(),
            final(self).refill_rate() == old(self).refill_rate(),
            final(self).queue_bound() == old(self).queue_bound(),
            final(self).last_refill() == if now >= old(self).last_refill() {
                now
            } else {
                old(self).last_refill()
            },
            ({
                let avail = old(self).spec_refill(now);
                if avail > 0 {
                    r == Admission::Admitted && final(self).tokens() == avail - 1 && final(self).queued() == old(self).queued()
                } else if old(self).queued() < old(self).queue_bound() {
                    r == Admission::Queued && final(self).tokens() == 0 && final(self).queued()
                        == old(self).queued() + 1
                } else {
                    r == Admission::Rejected && final(self).tokens() == 0 && final(self).queued()
                        == old(self).queued()
                }
            }),
    {
        self.refill(now);
        if self.tokens > 0 {
            self.tokens = self.tokens - 1;
            Admission::Admitted
        } else if self.queued < self.queue_bound {
            self.queued = self.queued + 1;
            Admission::Queued
        } else {
            Admission::Rejected
        }
    }

    /// A waiting request gives up its place in the queue (its caller timed
    /// out or went away); reports whether one was waiting.
    pub fn abandon_queued(&mut self) -> (r: bool)
        requires
            old(self).wf(),
        ensures
            final(self).wf(),
            final(self).capacity() == old(self).capacity(),
            final(self).refill_rate() == old(self).refill_rate(),
            final(self).queue_bound() == old(self).queue_bound(),
            final(self).tokens() == old(self).tokens(),
            final(self).last_refill() == old(self).last_refill(),
            r == (old(self).queued() > 0),
            final(self).queued() == if old(self).queued() > 0 {
                (old(self).queued() - 1) as u64
            } else {
                0
            },
    {
        if self.queued > 0 {
            self.queued = self.queued - 1;
            true
        } else {
            false
        }
    }

    /// Let one waiting request proceed if a token is available at `now`;
    /// reports whether one did.
    pub fn admit_queued(&mut self, now: u64) -> (r: bool)
        requires
            old(self).wf(),
        ensures
            final(self).wf(),
            final(self).capacity() == old(self).capacity(),
            final(self).refill_rate() == old(self).refill_rate(),
            final(self).queue_bound() == old(self).queue_bound(),
            final(self).last_refill() == if now >= old(self).last_refill() {
                now
            } else {
                old(self).last_refill()
            },
            ({
                let avail = old(self).spec_refill(now);
                if avail > 0 && old(self).queued() > 0 {
                    r && final(self).tokens() == avail - 1 && final(self).queued() == old(self).queued() - 1
                } else {
                    !r && final(self).tokens() == avail && final(self).queued() == old(self).queued()
                }
            }),
    {
        self.refill(now);
        if self.tokens > 0 && self.queued > 0 {
            self.tokens = self.tokens - 1;
            self.queued = self.queued - 1;
            true
        } else {
            false
        }
    }
}

} // verus!
