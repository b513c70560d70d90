//! Verified core of a chat-driven game-account linking service.
//!
//! The library owns the reference-counted credential store (identities,
//! game accounts, shared credentials, redemption codes), the dialog
//! session state machine, the linking and unlinking workflows, and the
//! broadcast-redemption fan-out. All transport (chat platform, database,
//! upstream game API) stays outside; the library speaks plain values.

pub mod broadcast;
pub mod claim_flow;
pub mod command;
pub mod cookie;
pub mod laws;
pub mod link_flow;
pub mod messages;
pub mod model;
pub mod seq_facts;
pub mod session;
pub mod store;
pub mod unlink_flow;
