//! Core of a plugin expansion service: a cache of loaded transformer
//! plugins keyed by artifact identity, an environment-scoping bracket for
//! each invocation, and the dispatcher decisions that tie them together.
//!
//! Loading a plugin, reading file metadata, mutating process environment
//! variables and invoking native code are performed by the embedding
//! program; this crate holds every decision taken between those steps, with
//! the contracts that pin them down.
pub mod cache;
pub mod env_scope;
pub mod srv;
