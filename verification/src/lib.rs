//! Low-latency mirroring transport core: packet framing, the signaling
//! codec and registry, stream adapters, and the receiver-side dispatch
//! logic. Sockets and worker threads live outside this crate; everything
//! here is plain logic on values.

pub mod adapter;
pub mod capture;
pub mod client;
pub mod packet;
pub mod receiver;
pub mod route;
pub mod sender;
pub mod signal;
pub mod stream_info;
pub mod transport;
