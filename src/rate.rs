use vstd::prelude::*;

use crate::error::Error;

verus! {

/// The resolution of a sampling probability: 2^53, the number of distinct
/// values a uniform draw from `[0, 1)` can take.
pub const DRAW_SCALE: u64 = 9007199254740992;

/// The largest output of the key hash; a hash is read as the fraction
/// `hash / HASH_MAX` of this value.
pub const HASH_MAX: u64 = 18446744073709551615;

/// `ceil(a / b)` for a positive `b`.
pub open spec fn ceil_div(a: nat, b: nat) -> nat
    recommends
        b > 0,
{
    ((a + b - 1) / (b as int)) as nat
}

/// A sampling probability in `[0, 1]`, held exactly as `threshold / DRAW_SCALE`.
#[derive(Clone, Copy, Debug, PartialEq, Eq, Structural)]
pub struct SampleRate {
    threshold: u64,
}

impl SampleRate {
    #[verifier::type_invariant]
    spec fn inv(self) -> bool {
        self.threshold <= DRAW_SCALE
    }

    /// The probability, in units of `1 / DRAW_SCALE`.
    pub closed spec fn spec_threshold(self) -> nat {
        self.threshold as nat
    }

    /// Whether the fraction `x / max` lies strictly below this probability.
    pub open spec fn admits(self, x: nat, max: nat) -> bool {
        x * DRAW_SCALE < self.spec_threshold() * max
    }

    /// A rate of exactly `threshold / DRAW_SCALE`; a threshold above
    /// `DRAW_SCALE` (a probability above one) is rejected.
    pub fn from_threshold(threshold: u64) -> (r: Result<SampleRate, Error>)
        ensures
            threshold <= DRAW_SCALE ==> r is Ok,
            threshold <= DRAW_SCALE ==> r.unwrap().spec_threshold() == threshold,
            threshold > DRAW_SCALE ==> r == Err::<SampleRate, Error>(Error::InvalidPercentage),
    {
        if threshold <= DRAW_SCALE {
            Ok(SampleRate { threshold })
        } else {
            Err(Error::InvalidPercentage)
        }
    }

    /// The rate of a whole percentage in `[0, 100]`, rounded up to the next
    /// multiple of `1 / DRAW_SCALE`; a percentage above 100 is rejected.
    pub fn from_percent(percent: u64) -> (r: Result<SampleRate, Error>)
        ensures
            percent <= 100 ==> r is Ok,
            percent <= 100 ==> r.unwrap().spec_threshold() == ceil_div(
                (percent * DRAW_SCALE) as nat,
                100,
            ),
            percent > 100 ==> r == Err::<SampleRate, Error>(Error::InvalidPercentage),
    {
        if percent <= 100 {
            let threshold: u64 = (percent * DRAW_SCALE + 99) / 100;
            assert(threshold <= DRAW_SCALE);
            Ok(SampleRate { threshold })
        } else {
            Err(Error::InvalidPercentage)
        }
    }

    /// The probability, in units of `1 / DRAW_SCALE`.
    pub fn threshold(&self) -> (r: u64)
        ensures
            r == self.spec_threshold(),
            r <= DRAW_SCALE,
    {
        proof {
            use_type_invariant(self);
        }
        self.threshold
    }

    /// Whether a uniform draw `raw` of 64 bits, reduced to its top 53 bits,
    /// falls below this probability.
    pub fn admits_draw(&self, raw: u64) -> (r: bool)
        ensures
            r == self.admits((raw / 2048) as nat, DRAW_SCALE as nat),
    {
        raw / 2048 < self.threshold
    }

    /// Whether the fraction `hash / HASH_MAX` falls below this probability.
    pub fn admits_hash(&self, hash: u64) -> (r: bool)
        ensures
            r == self.admits(hash as nat, HASH_MAX as nat),
    {
        proof {
            use_type_invariant(self);
            let t = self.threshold as int;
            assert(t * (HASH_MAX as int) <= (DRAW_SCALE as int) * (HASH_MAX as int)) by (nonlinear_arith)
                requires
                    t <= DRAW_SCALE,
            ;
            let h = hash as int;
            assert(h * (DRAW_SCALE as int) <= (HASH_MAX as int) * (DRAW_SCALE as int)) by (nonlinear_arith)
                requires
                    h <= HASH_MAX,
            ;
        }
        (hash as u128) * (DRAW_SCALE as u128) < (self.threshold as u128) * (HASH_MAX as u128)
    }
}

} // verus!
