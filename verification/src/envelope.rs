//! The tagged envelope forms the protocol exchanges, assembled from the
//! fields the decoder collected.
//!
//! Every opcode the protocol knows becomes its own variant, and anything
//! else becomes [`Envelope::Unknown`], so dispatch is an exhaustive match
//! rather than string branching.

use vstd::prelude::*;

use crate::codec::{fields_of_text, sp_fields_of_text, Fields, FieldsModel};
use crate::json::{parse_u64, sp_num_i64, sp_parse_u64, NumModel};
use crate::stats::{
    load_myriadths, num_i32, num_u64, sp_load_myriadths, sp_num_i32, sp_num_u64, FrameStats,
    NodeStats,
};
use crate::text::str_eq;

verus! {

/// The spec-level mirror of [`Envelope`].
pub enum EnvModel {
    /// A request to forward a message to the gateway of one shard.
    SendWs { shard_id: int, message: Seq<char> },
    /// A request to judge whether a guild and optional channel are valid.
    ValidationReq { guild_id: Seq<char>, channel_id: Option<Seq<char>> },
    /// A request to report whether a shard's gateway is connected.
    IsConnectedReq { shard_id: int },
    /// An authoritative update of one player's clock and position.
    PlayerUpdate { guild_id: int, time: int, position: int },
    /// A health snapshot of the node.
    Stats { stats: NodeStats },
    /// A track finished, with the node's reason.
    TrackEnd { guild_id: int, track: Seq<char>, reason: Seq<char> },
    /// A track failed, with the node's error text.
    TrackException { guild_id: int, track: Seq<char>, error: Seq<char> },
    /// A track stalled past the node's threshold.
    TrackStuck { guild_id: int, track: Seq<char>, threshold_ms: int },
    /// A command binding a guild's session to a voice channel.
    Connect { guild_id: int, channel_id: Seq<char> },
    /// A command releasing a guild's session.
    Disconnect { guild_id: int },
    /// A command to play a track, with optional start and end offsets.
    Play { guild_id: int, track: Seq<char>, start_time: Option<int>, end_time: Option<int> },
    /// A command to pause or resume.
    Pause { guild_id: int, pause: bool },
    /// A command to seek to a position.
    Seek { guild_id: int, position: int },
    /// A command to stop playback.
    Stop { guild_id: int },
    /// A command to set the volume.
    Volume { guild_id: int, volume: int },
    /// A recognized JSON object whose opcode the protocol does not know.
    Unknown,
}

/// One decoded protocol envelope.
#[derive(Clone, Debug, PartialEq)]
pub enum Envelope {
    /// A request to forward a message to the gateway of one shard.
    SendWs { shard_id: u64, message: String },
    /// A request to judge whether a guild and optional channel are valid.
    ValidationReq { guild_id: String, channel_id: Option<String> },
    /// A request to report whether a shard's gateway is connected.
    IsConnectedReq { shard_id: u64 },
    /// An authoritative update of one player's clock and position.
    PlayerUpdate { guild_id: u64, time: i64, position: i64 },
    /// A health snapshot of the node.
    Stats { stats: NodeStats },
    /// A track finished, with the node's reason.
    TrackEnd { guild_id: u64, track: String, reason: String },
    /// A track failed, with the node's error text.
    TrackException { guild_id: u64, track: String, error: String },
    /// A track stalled past the node's threshold.
    TrackStuck { guild_id: u64, track: String, threshold_ms: i64 },
    /// A command binding a guild's session to a voice channel.
    Connect { guild_id: u64, channel_id: String },
    /// A command releasing a guild's session.
    Disconnect { guild_id: u64 },
    /// A command to play a track, with optional start and end offsets.
    Play { guild_id: u64, track: String, start_time: Option<u64>, end_time: Option<u64> },
    /// A command to pause or resume.
    Pause { guild_id: u64, pause: bool },
    /// A command to seek to a position.
    Seek { guild_id: u64, position: i64 },
    /// A command to stop playback.
    Stop { guild_id: u64 },
    /// A command to set the volume.
    Volume { guild_id: u64, volume: i32 },
    /// A recognized JSON object whose opcode the protocol does not know.
    Unknown,
}

/// The view of optional text.
pub open spec fn opt_text_view(o: Option<String>) -> Option<Seq<char>> {
    match o {
        Some(s) => Some(s@),
        None => None,
    }
}

/// The view of an optional unsigned integer.
pub open spec fn opt_u64_view(o: Option<u64>) -> Option<int> {
    match o {
        Some(v) => Some(v as int),
        None => None,
    }
}

impl View for Envelope {
    type V = EnvModel;

    open spec fn view(&self) -> EnvModel {
        match self {
            Envelope::SendWs { shard_id, message } => EnvModel::SendWs {
                shard_id: *shard_id as int,
                message: message@,
            },
            Envelope::ValidationReq { guild_id, channel_id } => EnvModel::ValidationReq {
                guild_id: guild_id@,
                channel_id: opt_text_view(*channel_id),
            },
            Envelope::IsConnectedReq { shard_id } => EnvModel::IsConnectedReq {
                shard_id: *shard_id as int,
            },
            Envelope::PlayerUpdate { guild_id, time, position } => EnvModel::PlayerUpdate {
                guild_id: *guild_id as int,
                time: *time as int,
                position: *position as int,
            },
            Envelope::Stats { stats } => EnvModel::Stats { stats: *stats },
            Envelope::TrackEnd { guild_id, track, reason } => EnvModel::TrackEnd {
                guild_id: *guild_id as int,
                track: track@,
                reason: reason@,
            },
            Envelope::TrackException { guild_id, track, error } => EnvModel::TrackException {
                guild_id: *guild_id as int,
                track: track@,
                error: error@,
            },
            Envelope::TrackStuck { guild_id, track, threshold_ms } => EnvModel::TrackStuck {
                guild_id: *guild_id as int,
                track: track@,
                threshold_ms: *threshold_ms as int,
            },
            Envelope::Connect { guild_id, channel_id } => EnvModel::Connect {
                guild_id: *guild_id as int,
                channel_id: channel_id@,
            },
            Envelope::Disconnect { guild_id } => EnvModel::Disconnect {
                guild_id: *guild_id as int,
            },
            Envelope::Play { guild_id, track, start_time, end_time } => EnvModel::Play {
                guild_id: *guild_id as int,
                track: track@,
                start_time: opt_u64_view(*start_time),
                end_time: opt_u64_view(*end_time),
            },
            Envelope::Pause { guild_id, pause } => EnvModel::Pause {
                guild_id: *guild_id as int,
                pause: *pause,
            },
            Envelope::Seek { guild_id, position } => EnvModel::Seek {
                guild_id: *guild_id as int,
                position: *position as int,
            },
            Envelope::Stop { guild_id } => EnvModel::Stop { guild_id: *guild_id as int },
            Envelope::Volume { guild_id, volume } => EnvModel::Volume {
                guild_id: *guild_id as int,
                volume: *volume as int,
            },
            Envelope::Unknown => EnvModel::Unknown,
        }
    }
}

/// The guild id a collected `guildId` field names, as an integer.
pub open spec fn sp_guild_of(f: FieldsModel) -> Option<int> {
    match f.guild_id {
        None => None,
        Some(g) => sp_parse_u64(g),
    }
}

/// A required integer field's value under a conversion.
pub open spec fn sp_req(o: Option<NumModel>, conv: spec_fn(NumModel) -> Option<int>) -> Option<
    int,
> {
    match o {
        None => None,
        Some(m) => conv(m),
    }
}

/// An optional integer field's value: absent stays absent, present must
/// convert.
pub open spec fn sp_opt(o: Option<NumModel>, conv: spec_fn(NumModel) -> Option<int>) -> Option<
    Option<int>,
> {
    match o {
        None => Some(None),
        Some(m) => match conv(m) {
            None => None,
            Some(v) => Some(Some(v)),
        },
    }
}

/// Assembles the envelope the collected fields describe: `None` when a
/// required field of the recognized opcode is missing or malformed,
/// `Unknown` when the opcode or event type is not recognized.
pub open spec fn sp_env_of_fields(f: FieldsModel) -> Option<EnvModel> {
    match f.op {
        None => None,
        Some(op) => {
            if op == "sendWS"@ {
                match (sp_req(f.shard_id, |m: NumModel| sp_num_u64(m)), f.message) {
                    (Some(sh), Some(msg)) => Some(EnvModel::SendWs { shard_id: sh, message: msg }),
                    _ => None,
                }
            } else if op == "validationReq"@ {
                match f.guild_id {
                    Some(g) => Some(
                        EnvModel::ValidationReq { guild_id: g, channel_id: f.channel_id },
                    ),
                    None => None,
                }
            } else if op == "isConnectedReq"@ {
                match sp_req(f.shard_id, |m: NumModel| sp_num_u64(m)) {
                    Some(sh) => Some(EnvModel::IsConnectedReq { shard_id: sh }),
                    None => None,
                }
            } else if op == "playerUpdate"@ {
                if !f.has_state {
                    None
                } else {
                    match (
                        sp_guild_of(f),
                        sp_req(f.state_time, |m: NumModel| sp_num_i64(m)),
                        sp_req(f.state_position, |m: NumModel| sp_num_i64(m)),
                    ) {
                        (Some(g), Some(tm), Some(pos)) => Some(
                            EnvModel::PlayerUpdate { guild_id: g, time: tm, position: pos },
                        ),
                        _ => None,
                    }
                }
            } else if op == "stats"@ {
                if !(f.has_cpu && f.system_load is Some) {
                    None
                } else {
                    match sp_req(f.playing_players, |m: NumModel| sp_num_i32(m)) {
                        None => None,
                        Some(pp) => {
                            if f.has_frame_stats {
                                match (
                                    sp_req(f.fs_deficit, |m: NumModel| sp_num_i32(m)),
                                    sp_req(f.fs_nulled, |m: NumModel| sp_num_i32(m)),
                                ) {
                                    (Some(d), Some(nl)) => Some(
                                        EnvModel::Stats {
                                            stats: NodeStats {
                                                system_load_myriadths: sp_load_myriadths(
                                                    f.system_load->0,
                                                ) as u64,
                                                frame_stats: Some(
                                                    FrameStats { deficit: d as i32, nulled: nl as i32 },
                                                ),
                                                playing_players: pp as i32,
                                            },
                                        },
                                    ),
                                    _ => None,
                                }
                            } else {
                                Some(
                                    EnvModel::Stats {
                                        stats: NodeStats {
                                            system_load_myriadths: sp_load_myriadths(
                                                f.system_load->0,
                                            ) as u64,
                                            frame_stats: None,
                                            playing_players: pp as i32,
                                        },
                                    },
                                )
                            }
                        },
                    }
                }
            } else if op == "event"@ {
                match (f.event_type, sp_guild_of(f), f.track) {
                    (Some(ty), Some(g), Some(track)) => {
                        if ty == "TrackEndEvent"@ {
                            match f.reason {
                                Some(reason) => Some(
                                    EnvModel::TrackEnd { guild_id: g, track, reason },
                                ),
                                None => None,
                            }
                        } else if ty == "TrackExceptionEvent"@ {
                            match f.error {
                                Some(error) => Some(
                                    EnvModel::TrackException { guild_id: g, track, error },
                                ),
                                None => None,
                            }
                        } else if ty == "TrackStuckEvent"@ {
                            match sp_req(f.threshold_ms, |m: NumModel| sp_num_i64(m)) {
                                Some(th) => Some(
                                    EnvModel::TrackStuck {
                                        guild_id: g,
                                        track,
                                        threshold_ms: th,
                                    },
                                ),
                                None => None,
                            }
                        } else {
                            Some(EnvModel::Unknown)
                        }
                    },
                    _ => None,
                }
            } else if op == "connect"@ {
                match (sp_guild_of(f), f.channel_id) {
                    (Some(g), Some(ch)) => Some(
                        EnvModel::Connect { guild_id: g, channel_id: ch },
                    ),
                    _ => None,
                }
            } else if op == "disconnect"@ {
                match sp_guild_of(f) {
                    Some(g) => Some(EnvModel::Disconnect { guild_id: g }),
                    None => None,
                }
            } else if op == "play"@ {
                match (
                    sp_guild_of(f),
                    f.track,
                    sp_opt(f.start_time, |m: NumModel| sp_num_u64(m)),
                    sp_opt(f.end_time, |m: NumModel| sp_num_u64(m)),
                ) {
                    (Some(g), Some(track), Some(st), Some(et)) => Some(
                        EnvModel::Play { guild_id: g, track, start_time: st, end_time: et },
                    ),
                    _ => None,
                }
            } else if op == "pause"@ {
                match (sp_guild_of(f), f.pause) {
                    (Some(g), Some(p)) => Some(EnvModel::Pause { guild_id: g, pause: p }),
                    _ => None,
                }
            } else if op == "seek"@ {
                match (sp_guild_of(f), sp_req(f.position, |m: NumModel| sp_num_i64(m))) {
                    (Some(g), Some(pos)) => Some(EnvModel::Seek { guild_id: g, position: pos }),
                    _ => None,
                }
            } else if op == "stop"@ {
                match sp_guild_of(f) {
                    Some(g) => Some(EnvModel::Stop { guild_id: g }),
                    None => None,
                }
            } else if op == "volume"@ {
                match (sp_guild_of(f), sp_req(f.volume, |m: NumModel| sp_num_i32(m))) {
                    (Some(g), Some(v)) => Some(EnvModel::Volume { guild_id: g, volume: v }),
                    _ => None,
                }
            } else {
                Some(EnvModel::Unknown)
            }
        },
    }
}

/// Decoding one whole frame: collect its fields, then assemble the envelope.
pub open spec fn sp_decode(t: Seq<char>) -> Option<EnvModel> {
    match sp_fields_of_text(t) {
        None => None,
        Some(fm) => sp_env_of_fields(fm),
    }
}

/// The guild id named by the collected `guildId` field.
fn guild_of(f: &Fields) -> (r: Option<u64>)
    ensures
        match sp_guild_of(f@) {
            Some(v) => r == Some(v as u64) && r->0 == v,
            None => r is None,
        },
{
    match &f.guild_id {
        None => None,
        Some(g) => parse_u64(g.as_str()),
    }
}

/// Assembles the envelope the collected fields describe.
pub fn env_of_fields(f: Fields) -> (r: Option<Envelope>)
    ensures
        match r {
            Some(e) => sp_env_of_fields(f@) == Some(e@),
            None => sp_env_of_fields(f@) is None,
        },
{
    let op = match &f.op {
        None => {
            return None;
        },
        Some(op) => op,
    };
    if str_eq(op.as_str(), "sendWS") {
        match (&f.shard_id, &f.message) {
            (Some(sh), Some(_)) => {
                match num_u64(sh) {
                    Some(shard_id) => {
                        let message = match f.message {
                            Some(m) => m,
                            None => {
                                return None;
                            },
                        };
                        Some(Envelope::SendWs { shard_id, message })
                    },
                    None => None,
                }
            },
            _ => None,
        }
    } else if str_eq(op.as_str(), "validationReq") {
        match f.guild_id {
            Some(guild_id) => Some(
                Envelope::ValidationReq { guild_id, channel_id: f.channel_id },
            ),
            None => None,
        }
    } else if str_eq(op.as_str(), "isConnectedReq") {
        match &f.shard_id {
            Some(sh) => match num_u64(sh) {
                Some(shard_id) => Some(Envelope::IsConnectedReq { shard_id }),
                None => None,
            },
            None => None,
        }
    } else if str_eq(op.as_str(), "playerUpdate") {
        if !f.has_state {
            return None;
        }
        let g = match guild_of(&f) {
            Some(g) => g,
            None => {
                return None;
            },
        };
        let tm = match &f.state_time {
            Some(m) => match m.to_i64() {
                Some(v) => v,
                None => {
                    return None;
                },
            },
            None => {
                return None;
            },
        };
        let pos = match &f.state_position {
            Some(m) => match m.to_i64() {
                Some(v) => v,
                None => {
                    return None;
                },
            },
            None => {
                return None;
            },
        };
        Some(Envelope::PlayerUpdate { guild_id: g, time: tm, position: pos })
    } else if str_eq(op.as_str(), "stats") {
        let load = match &f.system_load {
            Some(m) => load_myriadths(m),
            None => {
                return None;
            },
        };
        if !f.has_cpu {
            return None;
        }
        let pp = match &f.playing_players {
            Some(m) => match num_i32(m) {
                Some(v) => v,
                None => {
                    return None;
                },
            },
            None => {
                return None;
            },
        };
        let frame_stats = if f.has_frame_stats {
            let d = match &f.fs_deficit {
                Some(m) => match num_i32(m) {
                    Some(v) => v,
                    None => {
                        return None;
                    },
                },
                None => {
                    return None;
                },
            };
            let nl = match &f.fs_nulled {
                Some(m) => match num_i32(m) {
                    Some(v) => v,
                    None => {
                        return None;
                    },
                },
                None => {
                    return None;
                },
            };
            Some(FrameStats { deficit: d, nulled: nl })
        } else {
            None
        };
        Some(
            Envelope::Stats {
                stats: NodeStats {
                    system_load_myriadths: load,
                    frame_stats,
                    playing_players: pp,
                },
            },
        )
    } else if str_eq(op.as_str(), "event") {
        let g = match guild_of(&f) {
            Some(g) => g,
            None => {
                return None;
            },
        };
        let ty = match &f.event_type {
            Some(ty) => ty,
            None => {
                return None;
            },
        };
        if f.track.is_none() {
            return None;
        }
        if str_eq(ty.as_str(), "TrackEndEvent") {
            match (f.track, f.reason) {
                (Some(track), Some(reason)) => Some(
                    Envelope::TrackEnd { guild_id: g, track, reason },
                ),
                _ => None,
            }
        } else if str_eq(ty.as_str(), "TrackExceptionEvent") {
            match (f.track, f.error) {
                (Some(track), Some(error)) => Some(
                    Envelope::TrackException { guild_id: g, track, error },
                ),
                _ => None,
            }
        } else if str_eq(ty.as_str(), "TrackStuckEvent") {
            let th = match &f.threshold_ms {
                Some(m) => match m.to_i64() {
                    Some(v) => v,
                    None => {
                        return None;
                    },
                },
                None => {
                    return None;
                },
            };
            match f.track {
                Some(track) => Some(
                    Envelope::TrackStuck { guild_id: g, track, threshold_ms: th },
                ),
                None => None,
            }
        } else {
            Some(Envelope::Unknown)
        }
    } else if str_eq(op.as_str(), "connect") {
        let g = match guild_of(&f) {
            Some(g) => g,
            None => {
                return None;
            },
        };
        match f.channel_id {
            Some(channel_id) => Some(Envelope::Connect { guild_id: g, channel_id }),
            None => None,
        }
    } else if str_eq(op.as_str(), "disconnect") {
        match guild_of(&f) {
            Some(g) => Some(Envelope::Disconnect { guild_id: g }),
            None => None,
        }
    } else if str_eq(op.as_str(), "play") {
        let g = match guild_of(&f) {
            Some(g) => g,
            None => {
                return None;
            },
        };
        let st: Option<u64> = match &f.start_time {
            None => None,
            Some(m) => match num_u64(m) {
                Some(v) => Some(v),
                None => {
                    return None;
                },
            },
        };
        let et: Option<u64> = match &f.end_time {
            None => None,
            Some(m) => match num_u64(m) {
                Some(v) => Some(v),
                None => {
                    return None;
                },
            },
        };
        match f.track {
            Some(track) => Some(
                Envelope::Play { guild_id: g, track, start_time: st, end_time: et },
            ),
            None => None,
        }
    } else if str_eq(op.as_str(), "pause") {
        let g = match guild_of(&f) {
            Some(g) => g,
            None => {
                return None;
            },
        };
        match f.pause {
            Some(p) => Some(Envelope::Pause { guild_id: g, pause: p }),
            None => None,
        }
    } else if str_eq(op.as_str(), "seek") {
        let g = match guild_of(&f) {
            Some(g) => g,
            None => {
                return None;
            },
        };
        match &f.position {
            Some(m) => match m.to_i64() {
                Some(pos) => Some(Envelope::Seek { guild_id: g, position: pos }),
                None => None,
            },
            None => None,
        }
    } else if str_eq(op.as_str(), "stop") {
        match guild_of(&f) {
            Some(g) => Some(Envelope::Stop { guild_id: g }),
            None => None,
        }
    } else if str_eq(op.as_str(), "volume") {
        let g = match guild_of(&f) {
            Some(g) => g,
            None => {
                return None;
            },
        };
        match &f.volume {
            Some(m) => match num_i32(m) {
                Some(v) => Some(Envelope::Volume { guild_id: g, volume: v }),
                None => None,
            },
            None => None,
        }
    } else {
        Some(Envelope::Unknown)
    }
}

/// Decodes one whole frame into an envelope: `None` when the frame is not
/// a single JSON object, has no opcode, or misses a required field of a
/// recognized opcode.
pub fn decode_envelope(s: &str) -> (r: Option<Envelope>)
    ensures
        match r {
            Some(e) => sp_decode(s@) == Some(e@),
            None => sp_decode(s@) is None,
        },
{
    match fields_of_text(s) {
        None => None,
        Some(f) => env_of_fields(f),
    }
}

} // verus!