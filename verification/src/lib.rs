//! HTTP/3 over QUIC: connection state, header compression and client requests.
//!
//! Nothing here performs I/O. The transport hands bytes and events to these types and carries
//! out what they answer.

use vstd::prelude::*;

pub mod buffer;
pub mod client;
pub mod connection;
pub mod error;
pub mod events;
pub mod exchange;
pub mod frame;
pub mod headers;
pub mod http_syntax;
pub mod laws;
pub mod proto;
pub mod qpack;
pub mod streams;
pub mod text;
pub mod words;

verus! {

/// Identifies a QUIC stream of a connection.
#[derive(Clone, Copy, Debug, PartialEq, Eq, Structural)]
pub struct StreamId(pub u64);

/// The role that an endpoint plays in a connection.
#[derive(Clone, Copy, Debug, PartialEq, Eq, Structural)]
pub enum Side {
    Client,
    Server,
}

} // verus!
