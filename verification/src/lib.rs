//! Configuration and registration logic for a WireGuard address service.
pub mod common;
pub mod text;
pub mod crypto;
pub mod hooks;
pub mod ipnet;
pub mod inifile;
pub mod client;
pub mod server;
