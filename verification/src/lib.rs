//! A coordinator for contested-name resolution on a decentralized naming
//! platform.
//!
//! The crate keeps a locally cached view of in-progress contests and their
//! vote tallies, manages the set of voting-capable identities, turns a user's
//! voting intent into per-identity submission outcomes, and exposes a
//! deterministic sorted projection of the cached contests together with a
//! single-slot, time-boxed status message. Rendering and network transport
//! are left to the surrounding application; this crate holds the decisions
//! and proves them against their contracts.

pub mod cache;
pub mod clock;
pub mod coordinator;
pub mod model;
pub mod order;
pub mod projection;
pub mod refresh;
pub mod status;
pub mod submission;
