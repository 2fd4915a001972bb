//! One node session: the handle around a connected node, the read-loop
//! classification of socket frames, and the dispatcher that absorbs
//! inbound envelopes into player and node state.

use vstd::prelude::*;

use crate::channel::{channel_send, OutboundFrame};
use crate::envelope::{decode_envelope, sp_decode, EnvModel, Envelope};
use crate::error::Error;
use crate::player::{has_guild, index_of_guild, AudioPlayerManager, PlayerModel};
use crate::stats::{sp_penalty, penalty_of, NodeStats};
use super::State;

verus! {

/// The handle of one connected node session.
///
/// The embedding application performs the socket connect and hands this
/// struct the sending half of the session's outbound channel; the writer it
/// spawns drains the other half, and owns the socket's write side alone.
#[derive(Debug)]
pub struct Node {
    /// The HTTP host of the node.
    pub http_host: String,
    /// The password of the node.
    pub password: String,
    /// The rolling state of the node, fed by its stats frames.
    pub state: State,
    /// The sending half of the session's outbound channel. Players bound
    /// to this node hold clones of it.
    pub user_to_node: futures::sync::mpsc::Sender<OutboundFrame>,
    /// The WebSocket host of the node, and its key in the registry.
    pub websocket_host: String,
}

/// The spec-level mirror of a node session: everything but its channel.
pub struct NodeModel {
    /// The HTTP host of the node.
    pub http_host: Seq<char>,
    /// The password of the node.
    pub password: Seq<char>,
    /// The most recent stats snapshot, if any frame has arrived.
    pub stats: Option<NodeStats>,
    /// The WebSocket host of the node.
    pub websocket_host: Seq<char>,
}

impl View for Node {
    type V = NodeModel;

    open spec fn view(&self) -> NodeModel {
        NodeModel {
            http_host: self.http_host@,
            password: self.password@,
            stats: self.state.stats,
            websocket_host: self.websocket_host@,
        }
    }
}

impl Node {
    /// Wraps a freshly connected session. No stats have arrived yet, so
    /// the node starts unavailable for penalty ranking.
    pub fn new(
        config: super::NodeConfig,
        user_to_node: futures::sync::mpsc::Sender<OutboundFrame>,
    ) -> (r: Node)
        ensures
            r.http_host@ == config.http_host@,
            r.password@ == config.password@,
            r.websocket_host@ == config.websocket_host@,
            r.state.stats is None,
    {
        Node {
            http_host: config.http_host,
            password: config.password,
            websocket_host: config.websocket_host,
            state: State { stats: None },
            user_to_node,
        }
    }

    /// Enqueues a close frame, asking the writer to shut the connection
    /// down. Does not remove the node from any registry, and pending
    /// dispatch work is left to finish.
    pub fn close(&mut self) -> (r: Result<(), Error>)
        ensures
            final(self).state == old(self).state,
            final(self).websocket_host == old(self).websocket_host,
            final(self).http_host == old(self).http_host,
            final(self).password == old(self).password,
            (match r {
                Ok(u) => u == (),
                Err(e) => e == Error::SendFailure,
            }),
        no_unwind
    {
        channel_send(&mut self.user_to_node, OutboundFrame::Close)
    }

    /// The penalty of the node: absent until a stats frame has arrived,
    /// and a pure function of the latest snapshot afterwards.
    pub fn penalty(&self) -> (r: Option<i32>)
        ensures
            match self.state.stats {
                None => r is None,
                Some(st) => r == Some(sp_penalty(st) as i32) && r->0 == sp_penalty(st),
            },
    {
        match &self.state.stats {
            None => None,
            Some(st) => Some(penalty_of(st)),
        }
    }
}

/// One frame read off a node's socket, as the transport hands it over.
#[derive(Clone, Debug, PartialEq)]
pub enum SocketFrame {
    /// The peer closed, or asked to close, the connection.
    Close,
    /// A ping that wants its payload echoed back.
    Ping(Vec<u8>),
    /// A pong; the session never sends pings, so none is expected.
    Pong(Vec<u8>),
    /// A text frame carrying one envelope.
    Text(String),
    /// A binary frame carrying one envelope in UTF-8 bytes.
    Binary(Vec<u8>),
}

/// What the read loop does with one socket frame.
#[derive(Clone, Debug, PartialEq)]
pub enum ReadStep {
    /// Reply with a bare close frame and end the read loop.
    CloseAndStop,
    /// Reply with a pong carrying the ping's payload.
    ReplyPong(Vec<u8>),
    /// Hand the text to the dispatcher as one unit of work.
    Dispatch(String),
    /// Log the frame and read on.
    Ignore,
}

/// The spec-level mirror of [`ReadStep`].
pub enum ReadStepModel {
    /// Reply with a bare close frame and end the read loop.
    CloseAndStop,
    /// Reply with a pong carrying the ping's payload.
    ReplyPong(Seq<u8>),
    /// Hand the text to the dispatcher as one unit of work.
    Dispatch(Seq<char>),
    /// Log the frame and read on.
    Ignore,
}

impl View for ReadStep {
    type V = ReadStepModel;

    open spec fn view(&self) -> ReadStepModel {
        match self {
            ReadStep::CloseAndStop => ReadStepModel::CloseAndStop,
            ReadStep::ReplyPong(data) => ReadStepModel::ReplyPong(data@),
            ReadStep::Dispatch(text) => ReadStepModel::Dispatch(text@),
            ReadStep::Ignore => ReadStepModel::Ignore,
        }
    }
}

/// How the read loop classifies one socket frame: a close is answered with
/// a close and ends the loop, a ping is answered with a pong, text and
/// binary frames become dispatch work, and a stray pong is only logged.
/// Binary bytes that are not UTF-8 cannot hold a JSON envelope, so such a
/// frame is dropped where it is read.
pub open spec fn sp_read_step(frame: SocketFrame) -> ReadStepModel {
    match frame {
        SocketFrame::Close => ReadStepModel::CloseAndStop,
        SocketFrame::Ping(data) => ReadStepModel::ReplyPong(data@),
        SocketFrame::Pong(_) => ReadStepModel::Ignore,
        SocketFrame::Text(text) => ReadStepModel::Dispatch(text@),
        SocketFrame::Binary(bytes) => {
            if vstd::utf8::valid_utf8(bytes@) {
                ReadStepModel::Dispatch(vstd::utf8::decode_utf8(bytes@))
            } else {
                ReadStepModel::Ignore
            }
        },
    }
}

/// Relies on `String::from_utf8`: the UTF-8 decoding of the bytes when
/// they are valid, and an error exactly otherwise.
#[verifier::external_body]
fn utf8_to_string(bytes: Vec<u8>) -> (r: Option<String>)
    ensures
        r is Some <==> vstd::utf8::valid_utf8(bytes@),
        r is Some ==> r->0@ == vstd::utf8::decode_utf8(bytes@),
{
    String::from_utf8(bytes).ok()
}

/// Classifies one socket frame for the read loop.
pub fn read_step(frame: SocketFrame) -> (r: ReadStep)
    ensures
        r@ == sp_read_step(frame),
{
    match frame {
        SocketFrame::Close => ReadStep::CloseAndStop,
        SocketFrame::Ping(data) => ReadStep::ReplyPong(data),
        SocketFrame::Pong(_) => ReadStep::Ignore,
        SocketFrame::Text(text) => ReadStep::Dispatch(text),
        SocketFrame::Binary(bytes) => match utf8_to_string(bytes) {
            Some(text) => ReadStep::Dispatch(text),
            None => ReadStep::Ignore,
        },
    }
}

/// A call the dispatcher asks the gateway bridge to make. The bridge is
/// the embedding application's callback set toward the voice gateway; the
/// dispatcher itself never performs such a call.
#[derive(Clone, Debug, PartialEq)]
pub enum BridgeCall {
    /// Forward a message to the gateway of one shard.
    Forward { shard_id: u64, message: String },
    /// Ask whether a guild and optional channel are valid.
    IsValid { guild_id: String, channel_id: Option<String> },
    /// Ask whether a shard's gateway is connected.
    IsConnected { shard_id: u64 },
    /// Tell the bridge a track ended, and why.
    TrackEnd { track: String, reason: String },
    /// Tell the bridge a track failed, and how.
    TrackException { track: String, error: String },
    /// Tell the bridge a track stalled past the node's threshold.
    TrackStuck { track: String, threshold_ms: i64 },
}

/// The spec-level mirror of [`BridgeCall`].
pub enum BridgeCallModel {
    /// Forward a message to the gateway of one shard.
    Forward { shard_id: int, message: Seq<char> },
    /// Ask whether a guild and optional channel are valid.
    IsValid { guild_id: Seq<char>, channel_id: Option<Seq<char>> },
    /// Ask whether a shard's gateway is connected.
    IsConnected { shard_id: int },
    /// Tell the bridge a track ended, and why.
    TrackEnd { track: Seq<char>, reason: Seq<char> },
    /// Tell the bridge a track failed, and how.
    TrackException { track: Seq<char>, error: Seq<char> },
    /// Tell the bridge a track stalled past the node's threshold.
    TrackStuck { track: Seq<char>, threshold_ms: int },
}

impl View for BridgeCall {
    type V = BridgeCallModel;

    open spec fn view(&self) -> BridgeCallModel {
        match self {
            BridgeCall::Forward { shard_id, message } => BridgeCallModel::Forward {
                shard_id: *shard_id as int,
                message: message@,
            },
            BridgeCall::IsValid { guild_id, channel_id } => BridgeCallModel::IsValid {
                guild_id: guild_id@,
                channel_id: crate::envelope::opt_text_view(*channel_id),
            },
            BridgeCall::IsConnected { shard_id } => BridgeCallModel::IsConnected {
                shard_id: *shard_id as int,
            },
            BridgeCall::TrackEnd { track, reason } => BridgeCallModel::TrackEnd {
                track: track@,
                reason: reason@,
            },
            BridgeCall::TrackException { track, error } => BridgeCallModel::TrackException {
                track: track@,
                error: error@,
            },
            BridgeCall::TrackStuck { track, threshold_ms } => BridgeCallModel::TrackStuck {
                track: track@,
                threshold_ms: *threshold_ms as int,
            },
        }
    }
}

/// The view of an optional bridge call.
pub open spec fn opt_call_view(o: Option<BridgeCall>) -> Option<BridgeCallModel> {
    match o {
        Some(c) => Some(c@),
        None => None,
    }
}

/// What dispatching one envelope does: the node state afterwards, the
/// players afterwards, and the bridge call it asks for, if any.
///
/// A frame that does not decode, an envelope the protocol does not know,
/// and an outbound command echoed back are all dropped without effect. An
/// event envelope resolves its guild against the players first: without a
/// player it is dropped, never fabricating one.
pub open spec fn sp_dispatch(
    env: Option<EnvModel>,
    stats0: Option<NodeStats>,
    players0: Seq<PlayerModel>,
) -> (Option<NodeStats>, Seq<PlayerModel>, Option<BridgeCallModel>) {
    match env {
        Some(EnvModel::SendWs { shard_id, message }) => (
            stats0,
            players0,
            Some(BridgeCallModel::Forward { shard_id, message }),
        ),
        Some(EnvModel::ValidationReq { guild_id, channel_id }) => (
            stats0,
            players0,
            Some(BridgeCallModel::IsValid { guild_id, channel_id }),
        ),
        Some(EnvModel::IsConnectedReq { shard_id }) => (
            stats0,
            players0,
            Some(BridgeCallModel::IsConnected { shard_id }),
        ),
        Some(EnvModel::PlayerUpdate { guild_id, time, position }) => {
            if 0 <= guild_id <= u64::MAX && i64::MIN <= time <= i64::MAX && i64::MIN <= position
                <= i64::MAX && has_guild(players0, guild_id as u64) {
                let j = index_of_guild(players0, guild_id as u64);
                (
                    stats0,
                    players0.update(
                        j,
                        PlayerModel {
                            time: time as i64,
                            position: position as i64,
                            ..players0[j]
                        },
                    ),
                    None,
                )
            } else {
                (stats0, players0, None)
            }
        },
        Some(EnvModel::Stats { stats }) => (Some(stats), players0, None),
        Some(EnvModel::TrackEnd { guild_id, track, reason }) => {
            if 0 <= guild_id <= u64::MAX && has_guild(players0, guild_id as u64) {
                let j = index_of_guild(players0, guild_id as u64);
                (
                    stats0,
                    players0.update(
                        j,
                        PlayerModel { track: None, time: 0, position: 0, ..players0[j] },
                    ),
                    Some(BridgeCallModel::TrackEnd { track, reason }),
                )
            } else {
                (stats0, players0, None)
            }
        },
        Some(EnvModel::TrackException { guild_id, track, error }) => {
            if 0 <= guild_id <= u64::MAX && has_guild(players0, guild_id as u64) {
                (stats0, players0, Some(BridgeCallModel::TrackException { track, error }))
            } else {
                (stats0, players0, None)
            }
        },
        Some(EnvModel::TrackStuck { guild_id, track, threshold_ms }) => {
            if 0 <= guild_id <= u64::MAX && has_guild(players0, guild_id as u64) {
                (stats0, players0, Some(BridgeCallModel::TrackStuck { track, threshold_ms }))
            } else {
                (stats0, players0, None)
            }
        },
        _ => (stats0, players0, None),
    }
}

/// Dispatches one frame of text against a node's state and the shared
/// players: decodes it, absorbs its effect, and returns the bridge call
/// it asks for, if any. A frame that does not decode is dropped here and
/// the session stays up.
pub fn handle_message(
    state: &mut State,
    players: &mut AudioPlayerManager,
    text: &str,
) -> (r: Option<BridgeCall>)
    requires
        old(players).wf(),
    ensures
        final(players).wf(),
        (final(state).stats, final(players)@, opt_call_view(r)) == sp_dispatch(
            sp_decode(text@),
            old(state).stats,
            old(players)@,
        ),
{
    let env = match decode_envelope(text) {
        None => {
            return None;
        },
        Some(env) => env,
    };
    match env {
        Envelope::SendWs { shard_id, message } => Some(
            BridgeCall::Forward { shard_id, message },
        ),
        Envelope::ValidationReq { guild_id, channel_id } => Some(
            BridgeCall::IsValid { guild_id, channel_id },
        ),
        Envelope::IsConnectedReq { shard_id } => Some(BridgeCall::IsConnected { shard_id }),
        Envelope::PlayerUpdate { guild_id, time, position } => {
            players.update_player_state(guild_id, time, position);
            None
        },
        Envelope::Stats { stats } => {
            state.stats = Some(stats);
            None
        },
        Envelope::TrackEnd { guild_id, track, reason } => {
            if players.reset_player_track(guild_id) {
                Some(BridgeCall::TrackEnd { track, reason })
            } else {
                None
            }
        },
        Envelope::TrackException { guild_id, track, error } => {
            if players.has(&guild_id) {
                Some(BridgeCall::TrackException { track, error })
            } else {
                None
            }
        },
        Envelope::TrackStuck { guild_id, track, threshold_ms } => {
            if players.has(&guild_id) {
                Some(BridgeCall::TrackStuck { track, threshold_ms })
            } else {
                None
            }
        },
        _ => None,
    }
}

/// What the bridge answered one call with.
#[derive(Clone, Debug, PartialEq)]
pub enum BridgeOutcome {
    /// The answer to a forward: an optional message for the node.
    Forwarded(Option<String>),
    /// The answer to a validity or connectivity question.
    Flag(bool),
    /// The acknowledgement of a track event.
    Done,
}

/// The reply frame owed to the node after a bridge call resolves: the
/// forwarded message as it is, the validation verdict as a validation
/// response, the connectivity verdict as a connectivity response, and
/// nothing for track events or a mismatched outcome.
pub open spec fn sp_bridge_reply(call: BridgeCallModel, outcome: BridgeOutcome) -> Option<
    Seq<char>,
> {
    match (call, outcome) {
        (BridgeCallModel::Forward { shard_id, message }, BridgeOutcome::Forwarded(m)) => {
            match m {
                Some(text) => Some(text@),
                None => None,
            }
        },
        (
            BridgeCallModel::IsValid { guild_id, channel_id },
            BridgeOutcome::Flag(valid),
        ) => Some(crate::encode::sp_validation_reply(guild_id, channel_id, valid)),
        (
            BridgeCallModel::IsConnected { shard_id },
            BridgeOutcome::Flag(connected),
        ) => Some(crate::encode::sp_connected_reply(shard_id, connected)),
        _ => None,
    }
}

/// Builds the reply frame owed to the node after a bridge call resolves.
pub fn bridge_reply(call: &BridgeCall, outcome: BridgeOutcome) -> (r: Option<String>)
    ensures
        crate::envelope::opt_text_view(r) == sp_bridge_reply(call@, outcome),
{
    match (call, outcome) {
        (BridgeCall::Forward { .. }, BridgeOutcome::Forwarded(m)) => m,
        (BridgeCall::IsValid { guild_id, channel_id }, BridgeOutcome::Flag(valid)) => Some(
            crate::encode::validation_reply(guild_id.as_str(), channel_id, valid),
        ),
        (BridgeCall::IsConnected { shard_id }, BridgeOutcome::Flag(connected)) => Some(
            crate::encode::connected_reply(*shard_id, connected),
        ),
        _ => None,
    }
}

} // verus!
