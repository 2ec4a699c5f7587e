//! Points in time on the server's monotonic clock.
//!
//! The library never reads a clock. Its caller samples one and hands each
//! reading in as a [`Timestamp`]: the time elapsed since a fixed origin,
//! such as the moment the process started.

use vstd::prelude::*;

verus! {

/// Nanoseconds in one second.
pub const NANOS_PER_SEC: u32 = 1_000_000_000;

/// Whole seconds from `start` to `now`, both in nanoseconds since the
/// origin; zero when `now` is not after `start`.
pub open spec fn secs_between(start: nat, now: nat) -> nat {
    if now >= start {
        ((now - start) / (NANOS_PER_SEC as int)) as nat
    } else {
        0
    }
}

/// A reading of the monotonic clock: seconds and nanoseconds since the
/// origin.
#[derive(Clone, Copy, Debug)]
pub struct Timestamp {
    secs: u64,
    nanos: u32,
}

impl View for Timestamp {
    type V = nat;

    /// Nanoseconds since the origin.
    closed spec fn view(&self) -> nat {
        (self.secs as nat) * (NANOS_PER_SEC as nat) + (self.nanos as nat)
    }
}

impl Timestamp {
    /// The sub-second part stays below one second.
    #[verifier::type_invariant]
    spec fn below_one_second(&self) -> bool {
        self.nanos < NANOS_PER_SEC
    }

    /// The reading `secs` seconds and `nanos` nanoseconds after the origin,
    /// or `None` when `nanos` does not lie within one second.
    pub fn new(secs: u64, nanos: u32) -> (t: Option<Timestamp>)
        ensures
            t is Some <==> nanos < NANOS_PER_SEC,
            t matches Some(ts) ==> ts@ == secs as nat * (NANOS_PER_SEC as nat) + nanos as nat,
    {
        if nanos < NANOS_PER_SEC {
            Some(Timestamp { secs, nanos })
        } else {
            None
        }
    }

    /// The reading exactly `secs` seconds after the origin.
    pub fn from_secs(secs: u64) -> (t: Timestamp)
        ensures
            t@ == secs as nat * (NANOS_PER_SEC as nat),
    {
        Timestamp { secs, nanos: 0 }
    }

    /// The whole seconds of this reading.
    pub fn as_secs(&self) -> (s: u64)
        ensures
            s as nat == self@ / (NANOS_PER_SEC as nat),
    {
        proof {
            use_type_invariant(self);
            s_div_bound(self.secs, self.nanos);
        }
        self.secs
    }

    /// The part of this reading below one second, in nanoseconds.
    pub fn subsec_nanos(&self) -> (n: u32)
        ensures
            n as nat == self@ % (NANOS_PER_SEC as nat),
    {
        proof {
            use_type_invariant(self);
            s_div_bound(self.secs, self.nanos);
        }
        self.nanos
    }

    /// Whole seconds elapsed from `self` to `now`, zero when `now` is not
    /// later.
    pub fn elapsed_secs(&self, now: &Timestamp) -> (e: u64)
        ensures
            e as nat == secs_between(self@, now@),
    {
        proof {
            use_type_invariant(self);
            use_type_invariant(now);
        }
        if now.secs < self.secs || (now.secs == self.secs && now.nanos < self.nanos) {
            0
        } else if now.nanos >= self.nanos {
            let d: u64 = now.secs - self.secs;
            let r: u32 = now.nanos - self.nanos;
            proof {
                s_div_bound(d, r);
            }
            d
        } else {
            let d: u64 = now.secs - self.secs - 1;
            let r: u32 = NANOS_PER_SEC - (self.nanos - now.nanos);
            proof {
                s_div_bound(d, r);
            }
            d
        }
    }
}

/// For `r` below one second, `secs` seconds and `r` nanoseconds hold
/// exactly `secs` whole seconds.
proof fn s_div_bound(secs: u64, r: u32)
    requires
        r < NANOS_PER_SEC,
    ensures
        (secs as nat * (NANOS_PER_SEC as nat) + r as nat) / (NANOS_PER_SEC as nat) == secs as nat,
        (secs as nat * (NANOS_PER_SEC as nat) + r as nat) % (NANOS_PER_SEC as nat) == r as nat,
{
    let n: int = NANOS_PER_SEC as int;
    let x: int = secs as int * n + r as int;
    assert(x / n == secs as int && x % n == r as int) by (nonlinear_arith)
        requires
            x == secs as int * n + r as int,
            0 <= r < n,
            n > 0,
    ;
}

} // verus!
