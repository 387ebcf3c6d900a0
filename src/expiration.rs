use vstd::prelude::*;

use crate::block::BlockInfo;

verus! {

/// What `time_left` reports for a deadline that never passes: a large value
/// that stands for "unbounded". Callers that do arithmetic on a remaining time
/// should test for this value first, as adding to it may overflow.
pub const NEVER_TIME_LEFT: u64 = 1_000_000_000_000_000_000;

/// Why a deadline could not be renewed.
#[derive(Clone, Copy, Debug, PartialEq, Eq, Structural)]
pub enum ExpirationError {
    /// The renewal period, or the new deadline, does not fit in a `u64`.
    Overflow,
}

/// A deadline. At the given point and after it, the deadline has passed.
#[derive(Clone, Copy, Debug, PartialEq, Eq, Structural)]
pub enum Expiration {
    /// Passes once the block height reaches this value.
    AtHeight(u64),
    /// Passes once the block time (seconds since the UNIX epoch) reaches this value.
    AtTime(u64),
    /// Never passes.
    Never,
}

impl Expiration {
    /// Whether the deadline has passed at the given block height and time.
    pub open spec fn expired_at(self, height: u64, time: u64) -> bool {
        match self {
            Expiration::AtHeight(h) => height >= h,
            Expiration::AtTime(t) => time >= t,
            Expiration::Never => false,
        }
    }

    /// How much is left before the deadline passes at the given block height
    /// and time: zero once it has passed.
    pub open spec fn remaining(self, height: u64, time: u64) -> int {
        match self {
            Expiration::AtHeight(h) => if height >= h { 0 } else { h - height },
            Expiration::AtTime(t) => if time >= t { 0 } else { t - time },
            Expiration::Never => NEVER_TIME_LEFT as int,
        }
    }

    /// The deadline after one renewal of `period`, counted from the later of
    /// the current deadline and the current block; `Overflow` when the new
    /// deadline does not fit in a `u64`.
    pub open spec fn renewed(self, height: u64, time: u64, period: int) -> Result<Expiration, ExpirationError> {
        match self {
            Expiration::AtHeight(h) => {
                let v = if height >= h { height + period } else { h + period };
                if v <= u64::MAX { Ok(Expiration::AtHeight(v as u64)) } else { Err(ExpirationError::Overflow) }
            },
            Expiration::AtTime(t) => {
                let v = if time >= t { time + period } else { t + period };
                if v <= u64::MAX { Ok(Expiration::AtTime(v as u64)) } else { Err(ExpirationError::Overflow) }
            },
            Expiration::Never => Ok(Expiration::Never),
        }
    }

    /// Returns true when the deadline has passed at `block`.
    pub fn is_expired(&self, block: &BlockInfo) -> (r: bool)
        ensures
            r == self.expired_at(block.height, block.time),
    {
        match self {
            Expiration::AtHeight(height) => block.height >= *height,
            Expiration::AtTime(time) => block.time >= *time,
            Expiration::Never => false,
        }
    }

    /// Renews the deadline by `duration * frequency`, counted from the current
    /// deadline, or from `block` when the deadline has already passed there.
    /// A deadline that never passes stays so. A height or a time deadline
    /// fails with `Overflow` when the period or the new deadline exceeds
    /// `u64::MAX`, rather than wrapping around.
    pub fn add_time(&self, block: &BlockInfo, duration: u64, frequency: u64) -> (r: Result<Expiration, ExpirationError>)
        ensures
            r == self.renewed(block.height, block.time, duration * frequency),
    {
        match self {
            Expiration::Never => Ok(Expiration::Never),
            Expiration::AtTime(time) => {
                let period = match duration.checked_mul(frequency) {
                    Some(p) => p,
                    None => return Err(ExpirationError::Overflow),
                };
                let base = if block.time >= *time { block.time } else { *time };
                match base.checked_add(period) {
                    Some(t) => Ok(Expiration::AtTime(t)),
                    None => Err(ExpirationError::Overflow),
                }
            },
            Expiration::AtHeight(height) => {
                let period = match duration.checked_mul(frequency) {
                    Some(p) => p,
                    None => return Err(ExpirationError::Overflow),
                };
                let base = if block.height >= *height { block.height } else { *height };
                match base.checked_add(period) {
                    Some(h) => Ok(Expiration::AtHeight(h)),
                    None => Err(ExpirationError::Overflow),
                }
            },
        }
    }

    /// How long until the deadline passes at `block`: zero once it has
    /// passed, in blocks for a height and in seconds for a time, and
    /// `NEVER_TIME_LEFT` for a deadline that never passes.
    pub fn time_left(&self, block: &BlockInfo) -> (r: u64)
        ensures
            r == self.remaining(block.height, block.time),
    {
        match self {
            Expiration::AtTime(time) => {
                if block.time >= *time {
                    0
                } else {
                    *time - block.time
                }
            },
            Expiration::AtHeight(height) => {
                if block.height >= *height {
                    0
                } else {
                    *height - block.height
                }
            },
            Expiration::Never => NEVER_TIME_LEFT,
        }
    }
}

/// A height deadline has passed at its own height and at every later one,
/// and one set a block later has not.
pub proof fn lemma_height_deadline_passes(h1: u64, h2: u64, time: u64)
    requires
        h1 <= h2,
        h2 < u64::MAX,
    ensures
        Expiration::AtHeight(h1).expired_at(h2, time),
        !Expiration::AtHeight((h2 + 1) as u64).expired_at(h2, time),
{
}

/// A time deadline has passed at its own time and at every later one, and
/// one set a second later has not.
pub proof fn lemma_time_deadline_passes(t1: u64, t2: u64, height: u64)
    requires
        t1 <= t2,
        t2 < u64::MAX,
    ensures
        Expiration::AtTime(t1).expired_at(height, t2),
        !Expiration::AtTime((t2 + 1) as u64).expired_at(height, t2),
{
}

/// `Never` has not passed at any block, nor is anything other than
/// `NEVER_TIME_LEFT` left of it, and renewing it leaves it as it is.
pub proof fn lemma_never_stays(height: u64, time: u64, period: int)
    ensures
        !Expiration::Never.expired_at(height, time),
        Expiration::Never.remaining(height, time) == NEVER_TIME_LEFT,
        Expiration::Never.renewed(height, time, period) == Ok::<Expiration, ExpirationError>(Expiration::Never),
{
}

/// For a height or a time deadline, nothing is left exactly when it has
/// passed.
pub proof fn lemma_nothing_left_iff_expired(e: Expiration, height: u64, time: u64)
    requires
        e != Expiration::Never,
    ensures
        (e.remaining(height, time) == 0) <==> e.expired_at(height, time),
{
}

/// Renewing a time deadline by `duration * frequency` counts from the
/// deadline while it has not passed, and from the block's time once it has.
pub proof fn lemma_time_renewal_base(t: u64, height: u64, time: u64, duration: u64, frequency: u64)
    requires
        t + duration * frequency <= u64::MAX,
        time + duration * frequency <= u64::MAX,
    ensures
        time < t ==> Expiration::AtTime(t).renewed(height, time, duration * frequency)
            == Ok::<Expiration, ExpirationError>(Expiration::AtTime((t + duration * frequency) as u64)),
        time >= t ==> Expiration::AtTime(t).renewed(height, time, duration * frequency)
            == Ok::<Expiration, ExpirationError>(Expiration::AtTime((time + duration * frequency) as u64)),
{
}

/// Renewing a height deadline by `duration * frequency` counts from the
/// deadline while it has not passed, and from the block's height once it has.
pub proof fn lemma_height_renewal_base(h: u64, height: u64, time: u64, duration: u64, frequency: u64)
    requires
        h + duration * frequency <= u64::MAX,
        height + duration * frequency <= u64::MAX,
    ensures
        height < h ==> Expiration::AtHeight(h).renewed(height, time, duration * frequency)
            == Ok::<Expiration, ExpirationError>(Expiration::AtHeight((h + duration * frequency) as u64)),
        height >= h ==> Expiration::AtHeight(h).renewed(height, time, duration * frequency)
            == Ok::<Expiration, ExpirationError>(Expiration::AtHeight((height + duration * frequency) as u64)),
{
}

impl Default for Expiration {
    /// A deadline that never passes.
    fn default() -> (r: Expiration)
        ensures
            r == Expiration::Never,
    {
        Expiration::Never
    }
}

} // verus!
