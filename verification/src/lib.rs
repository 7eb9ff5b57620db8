//! Polling-based networking core: a table of sockets addressed by opaque
//! 64-bit handles, the state machine that turns reactor events into poll
//! results, and the protocol helpers (headers, paths, virtual files) that
//! the reactor tasks use.

pub mod handle;

pub use handle::SocketHandle;
pub mod socket;
pub mod table;
pub mod context;
pub mod api;
pub mod ids;
pub mod text;
pub mod headers;
pub mod http;
pub mod header_map;
pub mod paths;
pub mod vfiles;
pub mod reactor;
pub mod channel;
pub mod address;
pub mod laws;
