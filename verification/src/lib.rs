//! Detection, deduplication and rate-bounded enrichment pipeline for catalog
//! track links found in chat messages.
//!
//! The library is the decision core of a chat automation agent: it extracts
//! catalog track identifiers from free-form message text, drops candidates
//! the platform has already rendered, gates the action on the author's
//! resolved permissions, and assembles fetched metadata into presentation
//! cards. All I/O (chat transport, catalog fetches) lives outside; the
//! library works on plain values and is verified end to end.

pub mod assemble;
pub mod bytes;
pub mod extract;
pub mod gate;
pub mod pipeline;
pub mod previews;
