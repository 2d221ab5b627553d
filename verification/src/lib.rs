//! A tamper-evident, append-only chain of records.
//!
//! Every node but the first carries the SHA-256 digest of its parent's hash
//! and value, so an edit of an earlier node shows when the links are
//! recomputed.
//!
//! - [`node`] holds the node type, the ways to make and extend a chain, and
//!   its height.
//! - [`audit`] walks the links and says whether they hold, and where not.
//! - [`model`] is the chain as a sequence of records, in which the contracts
//!   are written, and [`laws`] proves what holds of every such sequence.
//! - [`digest`] and [`nonce`] are where the chain meets SHA-256 and the
//!   clock.

pub mod audit;
pub mod digest;
pub mod laws;
pub mod model;
pub mod node;
pub mod nonce;

pub use crate::audit::IntegrityFailure;
pub use crate::node::{Node, NodeE};
