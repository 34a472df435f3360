//! The HTTP/3 protocol: what goes over the streams and the state that both ends keep.

pub mod connection;
pub mod fields;
pub mod frame;
pub mod headers;
pub mod laws;
pub mod settings;
pub mod state;
pub mod varint;
pub mod wire;
