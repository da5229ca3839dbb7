//! Reconciliation of declared container applications against a container runtime.
//!
//! The library holds the application model and its validation, the base-62 text form of
//! identifiers, the reading of runtime records, the classification of an application's
//! runtime state, the dependency order of its containers, the requests a runner makes,
//! and the registry with the decisions of its debounced persistence. Talking to the
//! runtime, sleeping and writing files are left to the caller.
pub mod ids;
pub mod text;
pub mod networking;
pub mod templates;
pub mod docker;
pub mod containers;
pub mod app;
pub mod env;
pub mod existing;
pub mod runner;
pub mod registry;
pub mod stores;
