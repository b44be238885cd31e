//! The XML (v6) agent dialect: commands as NUL-terminated XML documents over
//! the same framing as XFlash, device-driven file transfer sub-commands,
//! lifetime acknowledgments, and progress reports.
pub mod cmds;
pub mod proto;
pub use proto::Xml;
