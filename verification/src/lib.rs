//! An append-only binary hash tree over ledger records.
//!
//! The tree commits to every record appended so far through one root
//! fingerprint, and lists for any record the sibling fingerprints that a
//! verifier needs to confirm the record's inclusion.

pub mod amount;
pub mod digest;
pub mod laws;
pub mod levels;
pub mod node;
pub mod path;
pub mod style;
pub mod tree;

pub use digest::Record;
pub use node::Node;
pub use path::{PathEntry, Role};
pub use tree::{MerkleTree, TreeError};
