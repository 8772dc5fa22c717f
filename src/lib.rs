//! A network endpoint that carries typed envelopes over a stream transport
//! and a datagram transport, with the framing codec, the session table and
//! the coordinator's decisions stated and proved.
pub mod transport;
pub mod codec;
pub mod error;
pub mod logging;
pub mod event;
pub mod network;
