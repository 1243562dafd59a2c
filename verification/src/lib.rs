use vstd::prelude::*;

pub mod text;
pub mod domain_suffix;
pub mod error;
pub mod models;
pub mod ids;
pub mod resolve;
pub mod caddy;
pub mod process;
pub mod dns;
pub mod dnsmasq;
pub mod paths;
pub mod projects;
pub mod sidecar;
pub mod store;
pub mod tray;
pub mod cli;

verus! {
}
