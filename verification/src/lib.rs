//! Helper logic for cumulus parachains: the routing rule that sends messages for
//! the relay chain upward, the trader that charges for execution in the first
//! asset of a payment and refunds what was not used, the rule that deposits
//! collected fees into an account, and the mortal era used by benchmarks.
//!
//! The data of the cross-consensus messages (locations, assets, the holding
//! register) is held in plain types of this crate; the calls into user-supplied
//! matchers, fee chargers and message queues are handed in as closures, or
//! their results as arguments.

pub mod location;
pub mod asset;
pub mod holding;
pub mod trader;
pub mod router;
pub mod fees;
pub mod benchmark;
