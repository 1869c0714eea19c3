//! The client side: configuration, API addressing, sync planning and
//! watcher event mapping.
pub mod api;
pub mod config;
pub mod error;
pub mod sync;
pub mod watcher;
