//! The client side: what it sends to authenticate and the configuration file
//! it writes for `wg-quick`.
pub mod auth;
pub mod config;
