//! A semantic router: labeled example utterances are embedded and stored in a
//! vector index, and a free-text query is routed to the topic of its nearest
//! stored utterance, or rejected when the best similarity score does not clear
//! a fixed acceptance threshold.
//!
//! The embedding provider and the vector index are external services; this
//! crate holds the data model and the routing decision procedure, verified.
//! Similarity scores and vector components are carried as fixed-point values
//! in millionths, so that the acceptance boundary is exact.

pub mod index;
pub mod router;
pub mod topic;

pub use router::SemanticRouter;
pub use topic::Topic;
pub use topic::Utterance;
