//! Core logic of a dual-protocol (HTTP and SOCKS5) forward proxy: request
//! parsing, reply framing, traffic-diversion planning and upstream node
//! bookkeeping, all specified and verified. The surrounding I/O (sockets,
//! timers, task spawning) lives outside this crate.
pub mod host;
pub mod http_proxy;
pub mod socks_proxy;
pub mod traffic_diversion;
pub mod types;
