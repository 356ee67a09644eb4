//! Coordination core for a registry of named computational models.
//!
//! A model is a named, persistable definition plus, optionally, a live
//! worker that owns the loaded model exclusively.  This crate holds the
//! verified logic of that lifecycle: the registry state machine, the
//! host/worker message protocol, and the wire-level request dispatch.
//! Network and file plumbing live outside the library and drive it
//! through the functions defined here.

pub mod decimal;
pub mod dispatch;
pub mod errors;
pub mod json;
pub mod laws;
pub mod mdl_storage;
pub mod message;
pub mod names;
pub mod wire;
pub mod worker;

pub use errors::NnioError;
