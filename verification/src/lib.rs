//! Client-side core for a JSON-over-WebSocket audio-node control protocol.
//!
//! The crate models the per-node session state, the registry of nodes with
//! penalty-based selection, the per-guild audio players, and the message
//! codec that frames and checks the JSON envelopes exchanged with a node.
//! Transport (sockets, TLS, the HTTP handshake) is left to the embedding
//! application; the library hands it plain values and encoded frames.

pub mod channel;
pub mod codec;
pub mod encode;
pub mod envelope;
pub mod error;
pub mod json;
pub mod laws;
pub mod nodes;
pub mod player;
pub mod stats;
pub mod text;

pub use error::Error;
