//! The XFlash (v5) agent dialect: framed binary commands over the port,
//! stage upload, packet-length negotiation, chunked flash transfer with an
//! additive checksum, register access through the device-control
//! sub-protocol, and storage and partition discovery.
pub mod cmds;
pub mod flash;
pub mod proto;

pub use cmds::Cmd;
pub use proto::XFlash;
