//! Revision-based collaborative editing core: a text operation algebra,
//! revisions and their wire envelope, synchronizable documents, and the
//! revision synchronizer that reconciles local and remote edits.

pub mod algebra;
pub mod cloud;
pub mod delta;
pub mod document;
pub mod error;
pub mod laws;
pub mod registry;
pub mod revision;
pub mod row;
pub mod sidecar;
pub mod synchronizer;
pub mod user;
pub mod wire;
