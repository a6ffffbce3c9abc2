#![verifier::loop_isolation(false)]
//! Federated state-reconciliation and moderation-cascade engine.
//!
//! The library keeps a locally held mirror of community-owned tags
//! consistent with a remote, federated source of truth through
//! idempotent diffing, applies moderation actions across an entire
//! comment subtree identified by a hierarchical path (cascading
//! report resolution along with it), and decodes a loosely typed,
//! extensible remote tag vocabulary into locally meaningful variants
//! while tolerating unknown future types.
//!
//! The persistent store is modelled as plain rows handed in by the
//! caller; every operation is a verified state transition over those
//! rows. Transport, authorization and storage are collaborators of
//! the surrounding application.

pub mod cascade;
pub mod comment;
pub mod community_tag;
pub mod error;
pub mod person;
pub mod post;
pub mod private_message;
pub mod report;
pub mod tag_ops;
pub mod tags;
pub mod validation;
