//! Node sessions: configuration, per-node state, the session handle, and
//! the registry that picks the best node for new players.

pub mod node;
pub mod node_manager;

pub use node::Node;
pub use node_manager::NodeManager;

use vstd::prelude::*;

use crate::stats::NodeStats;

verus! {

/// Configuration identifying the backend and the client user when a node
/// session is connected. Immutable once a session is created from it.
#[derive(Clone, Debug)]
pub struct NodeConfig {
    /// The HTTP host of the node, such as `http://127.0.0.1:2333`.
    pub http_host: String,
    /// The WebSocket host of the node, such as `ws://127.0.0.1:2333`.
    pub websocket_host: String,
    /// The id of the client user, as the gateway knows it.
    pub user_id: String,
    /// The password of the node.
    pub password: String,
    /// How many shards the client user runs in total.
    pub num_shards: u64,
}

/// The rolling state of a node: its most recent stats snapshot, absent
/// until the first stats frame arrives.
#[derive(Clone, Debug, Default)]
pub struct State {
    /// The most recent stats snapshot, if any frame has arrived.
    pub stats: Option<NodeStats>,
}

/// The handshake header values a session presents when connecting: the
/// node's password under `Authorization`, the shard count under
/// `Num-Shards`, and the user id under `User-Id`.
#[derive(Clone, Debug)]
pub struct HandshakeHeaders {
    /// The value of the `Authorization` header.
    pub authorization: String,
    /// The value of the `Num-Shards` header.
    pub num_shards: String,
    /// The value of the `User-Id` header.
    pub user_id: String,
}

/// The handshake header values for a configuration.
pub fn handshake_headers(config: &NodeConfig) -> (r: HandshakeHeaders)
    ensures
        r.authorization@ == config.password@,
        r.num_shards@ == crate::text::dec_of(config.num_shards as int),
        r.user_id@ == config.user_id@,
{
    let mut digits: Vec<char> = Vec::new();
    crate::text::push_u64_dec(&mut digits, config.num_shards);
    HandshakeHeaders {
        authorization: config.password.clone(),
        num_shards: crate::text::chars_to_string(&digits),
        user_id: config.user_id.clone(),
    }
}

} // verus!
