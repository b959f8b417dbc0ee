//! Reconciliation of TCP port bindings observed by several independent sources
//! (the host TCP stack, container port mappings, guest distributions and a
//! direct bind probe) into one verdict per scanned port.

pub mod text;
pub mod state;
pub mod docker;
pub mod wsl;
pub mod winstack;
pub mod reconcile;
pub mod remedy;
pub mod hosts;
pub mod services;
