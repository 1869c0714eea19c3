//! File synchronisation between devices and a central server: the shared
//! data model, the server's request logic and the client's sync planning.
pub mod client;
pub mod paths;
pub mod server;
pub mod shared;
pub mod text;
