//! Single-artifact transfer over one byte stream: wire framing of the
//! header, checksummed payload streaming, and the decisions of the sender,
//! the receiver and the listener.
pub mod addr_cache;
pub mod args;
pub mod cfg;
pub mod checksum;
pub mod error;
pub mod listener;
pub mod naming;
pub mod pkg_info;
pub mod receiver;
pub mod sender;
pub mod text;
pub mod wire;
