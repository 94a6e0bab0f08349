//! A small proxy toolkit: reading listen/forward addresses, deciding what to do
//! with a client's first request, and configuring the Shadowsocks server to
//! forward through, each with its contract.
pub mod cli;
pub mod common;
pub mod error;
pub mod proxy;
pub mod tunnel;
