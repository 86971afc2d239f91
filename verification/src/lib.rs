//! Authentication session and token lifecycle library.
//!
//! The crate turns an opaque bearer credential into a trusted, revocable
//! request identity, and rotates long-lived refresh credentials while
//! detecting reuse.  The durable session ledger is an explicit in-memory
//! state with fully specified transitions; a read-through blob cache in
//! front of it is backed by an outside cache crate behind trusted
//! contracts.

pub mod hex;
pub mod ids;
pub mod cache;
pub mod codec;
pub mod directory;
pub mod gate;
pub mod records;
pub mod store;
pub mod token;

pub use ids::Id;
