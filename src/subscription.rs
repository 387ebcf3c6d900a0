use vstd::prelude::*;

verus! {

/// The terms of a subscription.
#[derive(Clone, Copy, Debug, PartialEq, Eq, Structural)]
pub struct Subscription {
    /// How many units of time one renewal lasts.
    pub frequency: u64,
    /// The price of one renewal.
    pub rate: u128,
}

} // verus!
