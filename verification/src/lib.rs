//! Decision logic of an SSH tunnel client: retry policy, packet framing,
//! transport and SOCKS state machines, and the VPN session with its routing
//! plan. Every function here is pure; sockets, timers and processes live
//! with the caller.

pub mod agent;
pub mod buffer;
pub mod cli;
pub mod config;
pub mod framing;
pub mod hooks;
pub mod net;
pub mod retry;
pub mod route_table;
pub mod routing;
pub mod session;
pub mod socks;
pub mod text;
pub mod thousands;
pub mod transport;
pub mod tun;
pub mod vpn;
