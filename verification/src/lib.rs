//! A verified ledger for fractional ownership of registered properties.
//!
//! The crate models a registry of properties, each divisible into shares,
//! together with per-owner share balances, aggregate statistics, and an
//! administrator-gated verification status. All state lives in an explicit
//! [`registry::RealEstateNFT`] value; the host environment (persistent
//! storage, caller authentication, and the clock) stays outside: operations
//! take the caller's identity and the current timestamp as plain arguments,
//! and every state change is stated in the operation's contract.

pub mod errors;
pub mod laws;
pub mod ledger;
pub mod registry;
pub mod types;

pub use errors::Error;
pub use registry::RealEstateNFT;
pub use types::OwnershipShare;
pub use types::Property;
pub use types::PropertyStats;
