//! Reconciliation engine of a two-way synchroniser between a local workspace
//! and a remote content hub.
//!
//! The engine holds an index that binds each path of the workspace to one
//! content of the hub, and a list of the echoes that it expects of its own
//! changes. Every observed change arrives as a message; the handler says
//! what the message asks of the hub and of the disk, and what it changes in
//! the index. The requests themselves, the watching of the disk and the
//! storing of the index are left to the program around the library.

pub mod consistency;
pub mod error;
pub mod handler;
pub mod index;
pub mod local;
pub mod operation;
pub mod path;
pub mod types;
