//! Resolution of contextual anchors against immutable text snapshots.
//!
//! An anchor describes a place in a document by a short context snippet, a
//! token that the snippet contains, and an optional one-based index to pick
//! between repeated occurrences of the token. The resolver locates the single
//! matching occurrence in a snapshot and derives a line/column position at the
//! center of the token. A second path decides whether to hand a consumer the
//! full text of a document or a paginated outline of its symbols.

pub mod anchor;
pub mod number;
pub mod outline;
pub mod position;
pub mod refs;
pub mod resolve;
pub mod search;
pub mod textutil;
