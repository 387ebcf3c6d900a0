//! Deadlines for subscriptions on a block chain: a deadline is a block height,
//! a UNIX time in seconds, or never; it is checked and renewed against the
//! height and time of the current block, and stored as a short JSON text.

pub mod block;
pub mod decimal;
pub mod expiration;
pub mod subscription;
pub mod text;
pub mod wire;

pub use block::BlockInfo;
pub use expiration::{Expiration, ExpirationError, NEVER_TIME_LEFT};
pub use subscription::Subscription;
