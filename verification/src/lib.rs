//! Core logic of a desktop VPN profile manager.
//!
//! The crate models the pieces of the application that carry real
//! invariants: the connection-state machine (connect, disconnect,
//! reconnect, delete), the profile store with its name rules, the
//! startup reconciliation of the persisted "current profile" pointer
//! against the observed link status, and the batch import/export rules
//! with name sanitization and collision handling.
//!
//! All external effects (running the privileged toggle command,
//! touching the filesystem, querying the public IP) are performed by a
//! host program. The host feeds each outcome into the step functions of
//! [`controller::Controller`], which decide everything and keep the
//! in-memory model of the state, the marker file and the profile
//! directory.

pub mod chars;
pub mod errors;
pub mod state;
pub mod text;
pub mod store;
pub mod controller;
pub mod reconcile;
pub mod import;
pub mod lookup;
pub mod laws;
