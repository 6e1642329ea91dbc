//! A WebSocket protocol engine: the opening handshake, the frame codec,
//! message reassembly, control-frame handling and the connection state
//! machine, all as functions on plain bytes and values.

pub mod bigendian;
pub mod client;
pub mod handshake;
pub mod header;
pub mod mask;
pub mod message;
pub mod primitives;
pub mod read;
pub mod server;
pub mod session;
pub mod write;
