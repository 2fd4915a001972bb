//! Envelope decoder: reads one JSON object off a frame and collects the
//! protocol's known fields, skipping anything it does not recognize.
//!
//! The collector is specified against a spec-level twin, so the decoded
//! envelope is pinned down exactly by the frame's characters.

use vstd::prelude::*;
use vstd::string::StrSliceExecFns;

use crate::json::{
    sp_ws, sp_str_body, sp_number, sp_null, sp_bool, sp_skip_value, skip_ws, scan_string,
    scan_number, scan_null, scan_bool, skip_value, JsonNum, NumModel,
};
use crate::text::str_eq;

verus! {

/// Which object of an envelope the collector is inside: the envelope itself,
/// its `state` object, its `cpu` object, or its `frameStats` object.
#[derive(Clone, Copy, Debug)]
pub enum Ctx {
    /// The envelope object itself.
    Top,
    /// The `state` object of a `playerUpdate` envelope.
    State,
    /// The `cpu` object of a `stats` envelope.
    Cpu,
    /// The `frameStats` object of a `stats` envelope.
    Fs,
}

/// The spec-level mirror of [`Fields`], over sequences of characters.
pub struct FieldsModel {
    pub op: Option<Seq<char>>,
    pub guild_id: Option<Seq<char>>,
    pub track: Option<Seq<char>>,
    pub reason: Option<Seq<char>>,
    pub error: Option<Seq<char>>,
    pub event_type: Option<Seq<char>>,
    pub message: Option<Seq<char>>,
    pub channel_id: Option<Seq<char>>,
    pub shard_id: Option<NumModel>,
    pub threshold_ms: Option<NumModel>,
    pub start_time: Option<NumModel>,
    pub end_time: Option<NumModel>,
    pub position: Option<NumModel>,
    pub volume: Option<NumModel>,
    pub playing_players: Option<NumModel>,
    pub pause: Option<bool>,
    pub valid: Option<bool>,
    pub connected: Option<bool>,
    pub state_time: Option<NumModel>,
    pub state_position: Option<NumModel>,
    pub system_load: Option<NumModel>,
    pub fs_deficit: Option<NumModel>,
    pub fs_nulled: Option<NumModel>,
    pub has_state: bool,
    pub has_cpu: bool,
    pub has_frame_stats: bool,
}

/// A collector with nothing seen yet.
pub open spec fn empty_fields() -> FieldsModel {
    FieldsModel {
        op: None,
        guild_id: None,
        track: None,
        reason: None,
        error: None,
        event_type: None,
        message: None,
        channel_id: None,
        shard_id: None,
        threshold_ms: None,
        start_time: None,
        end_time: None,
        position: None,
        volume: None,
        playing_players: None,
        pause: None,
        valid: None,
        connected: None,
        state_time: None,
        state_position: None,
        system_load: None,
        fs_deficit: None,
        fs_nulled: None,
        has_state: false,
        has_cpu: false,
        has_frame_stats: false,
    }
}

/// The protocol fields found in one envelope. A field set to JSON `null`
/// counts as absent.
#[derive(Debug)]
pub struct Fields {
    pub op: Option<String>,
    pub guild_id: Option<String>,
    pub track: Option<String>,
    pub reason: Option<String>,
    pub error: Option<String>,
    pub event_type: Option<String>,
    pub message: Option<String>,
    pub channel_id: Option<String>,
    pub shard_id: Option<JsonNum>,
    pub threshold_ms: Option<JsonNum>,
    pub start_time: Option<JsonNum>,
    pub end_time: Option<JsonNum>,
    pub position: Option<JsonNum>,
    pub volume: Option<JsonNum>,
    pub playing_players: Option<JsonNum>,
    pub pause: Option<bool>,
    pub valid: Option<bool>,
    pub connected: Option<bool>,
    pub state_time: Option<JsonNum>,
    pub state_position: Option<JsonNum>,
    pub system_load: Option<JsonNum>,
    pub fs_deficit: Option<JsonNum>,
    pub fs_nulled: Option<JsonNum>,
    pub has_state: bool,
    pub has_cpu: bool,
    pub has_frame_stats: bool,
}

/// The view of an optional piece of text.
pub open spec fn opt_str_view(o: Option<String>) -> Option<Seq<char>> {
    match o {
        Some(s) => Some(s@),
        None => None,
    }
}

/// The view of an optional scanned number.
pub open spec fn opt_num_view(o: Option<JsonNum>) -> Option<NumModel> {
    match o {
        Some(m) => Some(m@),
        None => None,
    }
}

impl View for Fields {
    type V = FieldsModel;

    open spec fn view(&self) -> FieldsModel {
        FieldsModel {
            op: opt_str_view(self.op),
            guild_id: opt_str_view(self.guild_id),
            track: opt_str_view(self.track),
            reason: opt_str_view(self.reason),
            error: opt_str_view(self.error),
            event_type: opt_str_view(self.event_type),
            message: opt_str_view(self.message),
            channel_id: opt_str_view(self.channel_id),
            shard_id: opt_num_view(self.shard_id),
            threshold_ms: opt_num_view(self.threshold_ms),
            start_time: opt_num_view(self.start_time),
            end_time: opt_num_view(self.end_time),
            position: opt_num_view(self.position),
            volume: opt_num_view(self.volume),
            playing_players: opt_num_view(self.playing_players),
            pause: self.pause,
            valid: self.valid,
            connected: self.connected,
            state_time: opt_num_view(self.state_time),
            state_position: opt_num_view(self.state_position),
            system_load: opt_num_view(self.system_load),
            fs_deficit: opt_num_view(self.fs_deficit),
            fs_nulled: opt_num_view(self.fs_nulled),
            has_state: self.has_state,
            has_cpu: self.has_cpu,
            has_frame_stats: self.has_frame_stats,
        }
    }
}

impl Fields {
    /// A collector with nothing seen yet.
    pub fn new() -> (r: Fields)
        ensures
            r@ == empty_fields(),
    {
        Fields {
            op: None,
            guild_id: None,
            track: None,
            reason: None,
            error: None,
            event_type: None,
            message: None,
            channel_id: None,
            shard_id: None,
            threshold_ms: None,
            start_time: None,
            end_time: None,
            position: None,
            volume: None,
            playing_players: None,
            pause: None,
            valid: None,
            connected: None,
            state_time: None,
            state_position: None,
            system_load: None,
            fs_deficit: None,
            fs_nulled: None,
            has_state: false,
            has_cpu: false,
            has_frame_stats: false,
        }
    }
}

/// Collects the fields of the object whose `{` stands just before `i`:
/// the updated collector and the index just past the closing `}`.
pub open spec fn sp_object(t: Seq<char>, i: int, acc: FieldsModel, ctx: Ctx) -> Option<
    (FieldsModel, int),
>
    decreases t.len() - i, 1int,
{
    if !(0 <= i <= t.len()) {
        None
    } else {
        let a = sp_ws(t, i);
        if !(i <= a < t.len()) {
            None
        } else if t[a] == '}' {
            Some((acc, a + 1))
        } else {
            sp_members(t, a, acc, ctx)
        }
    }
}

/// Collects members starting at the quote of a key.
pub open spec fn sp_members(t: Seq<char>, i: int, acc: FieldsModel, ctx: Ctx) -> Option<
    (FieldsModel, int),
>
    decreases t.len() - i, 0int,
{
    if !(0 <= i < t.len() && t[i] == '"') {
        None
    } else {
        match sp_str_body(t, i + 1) {
            None => None,
            Some((key, j)) => {
                if !(i + 1 < j <= t.len()) {
                    None
                } else {
                    let b = sp_ws(t, j);
                    if !(j <= b < t.len()) || t[b] != ':' {
                        None
                    } else {
                        let c = sp_ws(t, b + 1);
                        if !(b + 1 <= c <= t.len() && i < c) {
                            None
                        } else {
                            match sp_member_value(t, c, acc, ctx, key) {
                                None => None,
                                Some((acc2, d)) => {
                                    if !(c < d <= t.len()) {
                                        None
                                    } else {
                                        let e = sp_ws(t, d);
                                        if !(d <= e < t.len()) {
                                            None
                                        } else if t[e] == '}' {
                                            Some((acc2, e + 1))
                                        } else if t[e] == ',' {
                                            let f = sp_ws(t, e + 1);
                                            if !(e + 1 <= f <= t.len()) {
                                                None
                                            } else {
                                                sp_members(t, f, acc2, ctx)
                                            }
                                        } else {
                                            None
                                        }
                                    }
                                },
                            }
                        }
                    }
                }
            },
        }
    }
}

/// Collects one member's value, standing at `c`, for the key named `key` of
/// the object kind `ctx`. A `null` leaves the collector unchanged; a known
/// key with a value of the wrong shape fails the scan.
pub open spec fn sp_member_value(
    t: Seq<char>,
    c: int,
    acc: FieldsModel,
    ctx: Ctx,
    key: Seq<char>,
) -> Option<(FieldsModel, int)>
    decreases t.len() - c, 0int,
{
    if !(0 <= c < t.len()) {
        None
    } else {
        match ctx {
            Ctx::Top => {
                if key == "op"@ {
                    sp_take_str(t, c, acc, key)
                } else if key == "guildId"@ {
                    sp_take_str(t, c, acc, key)
                } else if key == "track"@ {
                    sp_take_str(t, c, acc, key)
                } else if key == "reason"@ {
                    sp_take_str(t, c, acc, key)
                } else if key == "error"@ {
                    sp_take_str(t, c, acc, key)
                } else if key == "type"@ {
                    sp_take_str(t, c, acc, key)
                } else if key == "message"@ {
                    sp_take_str(t, c, acc, key)
                } else if key == "channelId"@ {
                    sp_take_str(t, c, acc, key)
                } else if key == "shardId"@ {
                    sp_take_num(t, c, acc, Ctx::Top, key)
                } else if key == "thresholdMs"@ {
                    sp_take_num(t, c, acc, Ctx::Top, key)
                } else if key == "startTime"@ {
                    sp_take_num(t, c, acc, Ctx::Top, key)
                } else if key == "endTime"@ {
                    sp_take_num(t, c, acc, Ctx::Top, key)
                } else if key == "position"@ {
                    sp_take_num(t, c, acc, Ctx::Top, key)
                } else if key == "volume"@ {
                    sp_take_num(t, c, acc, Ctx::Top, key)
                } else if key == "playingPlayers"@ {
                    sp_take_num(t, c, acc, Ctx::Top, key)
                } else if key == "pause"@ || key == "valid"@ || key == "connected"@ {
                    sp_take_bool(t, c, acc, key)
                } else if key == "state"@ {
                    if t[c] == 'n' {
                        match sp_null(t, c) {
                            None => None,
                            Some(d) => Some((acc, d)),
                        }
                    } else if t[c] == '{' {
                        sp_object(t, c + 1, FieldsModel { has_state: true, ..acc }, Ctx::State)
                    } else {
                        None
                    }
                } else if key == "cpu"@ {
                    if t[c] == 'n' {
                        match sp_null(t, c) {
                            None => None,
                            Some(d) => Some((acc, d)),
                        }
                    } else if t[c] == '{' {
                        sp_object(t, c + 1, FieldsModel { has_cpu: true, ..acc }, Ctx::Cpu)
                    } else {
                        None
                    }
                } else if key == "frameStats"@ {
                    if t[c] == 'n' {
                        match sp_null(t, c) {
                            None => None,
                            Some(d) => Some((acc, d)),
                        }
                    } else if t[c] == '{' {
                        sp_object(
                            t,
                            c + 1,
                            FieldsModel { has_frame_stats: true, ..acc },
                            Ctx::Fs,
                        )
                    } else {
                        None
                    }
                } else {
                    sp_take_skip(t, c, acc)
                }
            },
            Ctx::State => {
                if key == "time"@ || key == "position"@ {
                    sp_take_num(t, c, acc, Ctx::State, key)
                } else {
                    sp_take_skip(t, c, acc)
                }
            },
            Ctx::Cpu => {
                if key == "systemLoad"@ {
                    sp_take_num(t, c, acc, Ctx::Cpu, key)
                } else {
                    sp_take_skip(t, c, acc)
                }
            },
            Ctx::Fs => {
                if key == "deficit"@ || key == "nulled"@ {
                    sp_take_num(t, c, acc, Ctx::Fs, key)
                } else {
                    sp_take_skip(t, c, acc)
                }
            },
        }
    }
}

/// Stores a string-valued member into the field that `key` names.
pub open spec fn sp_take_str(t: Seq<char>, c: int, acc: FieldsModel, key: Seq<char>) -> Option<
    (FieldsModel, int),
> {
    if !(0 <= c < t.len()) {
        None
    } else if t[c] == 'n' {
        match sp_null(t, c) {
            None => None,
            Some(d) => Some((acc, d)),
        }
    } else if t[c] == '"' {
        match sp_str_body(t, c + 1) {
            None => None,
            Some((content, d)) => Some((sp_set_str(acc, key, content), d)),
        }
    } else {
        None
    }
}

/// The collector with the string field that `key` names set to `content`.
pub open spec fn sp_set_str(acc: FieldsModel, key: Seq<char>, content: Seq<char>) -> FieldsModel {
    if key == "op"@ {
        FieldsModel { op: Some(content), ..acc }
    } else if key == "guildId"@ {
        FieldsModel { guild_id: Some(content), ..acc }
    } else if key == "track"@ {
        FieldsModel { track: Some(content), ..acc }
    } else if key == "reason"@ {
        FieldsModel { reason: Some(content), ..acc }
    } else if key == "error"@ {
        FieldsModel { error: Some(content), ..acc }
    } else if key == "type"@ {
        FieldsModel { event_type: Some(content), ..acc }
    } else if key == "message"@ {
        FieldsModel { message: Some(content), ..acc }
    } else {
        FieldsModel { channel_id: Some(content), ..acc }
    }
}

/// Stores a number-valued member into the field that `(ctx, key)` names.
pub open spec fn sp_take_num(
    t: Seq<char>,
    c: int,
    acc: FieldsModel,
    ctx: Ctx,
    key: Seq<char>,
) -> Option<(FieldsModel, int)> {
    if !(0 <= c < t.len()) {
        None
    } else if t[c] == 'n' {
        match sp_null(t, c) {
            None => None,
            Some(d) => Some((acc, d)),
        }
    } else {
        match sp_number(t, c) {
            None => None,
            Some((m, d)) => Some((sp_set_num(acc, ctx, key, m), d)),
        }
    }
}

/// The collector with the number field that `(ctx, key)` names set to `m`.
pub open spec fn sp_set_num(acc: FieldsModel, ctx: Ctx, key: Seq<char>, m: NumModel) -> FieldsModel {
    match ctx {
        Ctx::Top => {
            if key == "shardId"@ {
                FieldsModel { shard_id: Some(m), ..acc }
            } else if key == "thresholdMs"@ {
                FieldsModel { threshold_ms: Some(m), ..acc }
            } else if key == "startTime"@ {
                FieldsModel { start_time: Some(m), ..acc }
            } else if key == "endTime"@ {
                FieldsModel { end_time: Some(m), ..acc }
            } else if key == "position"@ {
                FieldsModel { position: Some(m), ..acc }
            } else if key == "volume"@ {
                FieldsModel { volume: Some(m), ..acc }
            } else {
                FieldsModel { playing_players: Some(m), ..acc }
            }
        },
        Ctx::State => {
            if key == "time"@ {
                FieldsModel { state_time: Some(m), ..acc }
            } else {
                FieldsModel { state_position: Some(m), ..acc }
            }
        },
        Ctx::Cpu => FieldsModel { system_load: Some(m), ..acc },
        Ctx::Fs => {
            if key == "deficit"@ {
                FieldsModel { fs_deficit: Some(m), ..acc }
            } else {
                FieldsModel { fs_nulled: Some(m), ..acc }
            }
        },
    }
}

/// Stores a boolean member into the field that `key` names.
pub open spec fn sp_take_bool(t: Seq<char>, c: int, acc: FieldsModel, key: Seq<char>) -> Option<
    (FieldsModel, int),
> {
    if !(0 <= c < t.len()) {
        None
    } else if t[c] == 'n' {
        match sp_null(t, c) {
            None => None,
            Some(d) => Some((acc, d)),
        }
    } else {
        match sp_bool(t, c) {
            None => None,
            Some((b, d)) => Some((sp_set_bool(acc, key, b), d)),
        }
    }
}

/// The collector with the boolean field that `key` names set to `b`.
pub open spec fn sp_set_bool(acc: FieldsModel, key: Seq<char>, b: bool) -> FieldsModel {
    if key == "pause"@ {
        FieldsModel { pause: Some(b), ..acc }
    } else if key == "valid"@ {
        FieldsModel { valid: Some(b), ..acc }
    } else {
        FieldsModel { connected: Some(b), ..acc }
    }
}

/// Skips the value of a key the collector does not know.
pub open spec fn sp_take_skip(t: Seq<char>, c: int, acc: FieldsModel) -> Option<
    (FieldsModel, int),
> {
    match sp_skip_value(t, c) {
        None => None,
        Some(d) => {
            if c < d <= t.len() {
                Some((acc, d))
            } else {
                None
            }
        },
    }
}

/// Collects the fields of the object whose `{` stands just before `i`.
pub fn collect_object(s: &str, i: usize, fields: &mut Fields, ctx: Ctx) -> (r: Option<usize>)
    requires
        i <= s@.len(),
    ensures
        match r {
            Some(j) => sp_object(s@, i as int, old(fields)@, ctx) == Some(
                (final(fields)@, j as int),
            ) && i < j <= s@.len(),
            None => sp_object(s@, i as int, old(fields)@, ctx) is None,
        },
    decreases s@.len() - i, 1int,
{
    let n = s.unicode_len();
    let a = skip_ws(s, i);
    if a >= n {
        return None;
    }
    if s.get_char(a) == '}' {
        return Some(a + 1);
    }
    let mut j = a;
    loop
        invariant
            i <= j <= n,
            n == s@.len(),
            sp_object(s@, i as int, old(fields)@, ctx) == sp_members(s@, j as int, fields@, ctx),
        decreases n - j,
    {
        if j >= n {
            return None;
        }
        if s.get_char(j) != '"' {
            return None;
        }
        let (key, k) = match scan_string(s, j + 1) {
            None => {
                return None;
            },
            Some(p) => p,
        };
        let b = skip_ws(s, k);
        if b >= n {
            return None;
        }
        if s.get_char(b) != ':' {
            return None;
        }
        let c = skip_ws(s, b + 1);
        let d = match collect_value(s, c, fields, ctx, key.as_str()) {
            None => {
                return None;
            },
            Some(d) => d,
        };
        let e = skip_ws(s, d);
        if e >= n {
            return None;
        }
        let ec = s.get_char(e);
        if ec == '}' {
            return Some(e + 1);
        }
        if ec != ',' {
            return None;
        }
        let f = skip_ws(s, e + 1);
        j = f;
    }
}

/// Collects one member's value for the key named `key`.
pub fn collect_value(s: &str, c: usize, fields: &mut Fields, ctx: Ctx, key: &str) -> (r: Option<
    usize,
>)
    requires
        c <= s@.len(),
    ensures
        match r {
            Some(d) => sp_member_value(s@, c as int, old(fields)@, ctx, key@) == Some(
                (final(fields)@, d as int),
            ) && c < d <= s@.len(),
            None => sp_member_value(s@, c as int, old(fields)@, ctx, key@) is None,
        },
    decreases s@.len() - c, 0int,
{
    let n = s.unicode_len();
    if c >= n {
        return None;
    }
    match ctx {
        Ctx::Top => {
            if str_eq(key, "op") {
                let r = scan_text_value(s, c);
                if let Some((content, d)) = r {
                    if let Some(text) = content {
                        fields.op = Some(text);
                    }
                    Some(d)
                } else {
                    None
                }
            } else if str_eq(key, "guildId") {
                let r = scan_text_value(s, c);
                if let Some((content, d)) = r {
                    if let Some(text) = content {
                        fields.guild_id = Some(text);
                    }
                    Some(d)
                } else {
                    None
                }
            } else if str_eq(key, "track") {
                let r = scan_text_value(s, c);
                if let Some((content, d)) = r {
                    if let Some(text) = content {
                        fields.track = Some(text);
                    }
                    Some(d)
                } else {
                    None
                }
            } else if str_eq(key, "reason") {
                let r = scan_text_value(s, c);
                if let Some((content, d)) = r {
                    if let Some(text) = content {
                        fields.reason = Some(text);
                    }
                    Some(d)
                } else {
                    None
                }
            } else if str_eq(key, "error") {
                let r = scan_text_value(s, c);
                if let Some((content, d)) = r {
                    if let Some(text) = content {
                        fields.error = Some(text);
                    }
                    Some(d)
                } else {
                    None
                }
            } else if str_eq(key, "type") {
                let r = scan_text_value(s, c);
                if let Some((content, d)) = r {
                    if let Some(text) = content {
                        fields.event_type = Some(text);
                    }
                    Some(d)
                } else {
                    None
                }
            } else if str_eq(key, "message") {
                let r = scan_text_value(s, c);
                if let Some((content, d)) = r {
                    if let Some(text) = content {
                        fields.message = Some(text);
                    }
                    Some(d)
                } else {
                    None
                }
            } else if str_eq(key, "channelId") {
                let r = scan_text_value(s, c);
                if let Some((content, d)) = r {
                    if let Some(text) = content {
                        fields.channel_id = Some(text);
                    }
                    Some(d)
                } else {
                    None
                }
            } else if str_eq(key, "shardId") {
                let r = scan_num_value(s, c);
                if let Some((num, d)) = r {
                    if let Some(m) = num {
                        fields.shard_id = Some(m);
                    }
                    Some(d)
                } else {
                    None
                }
            } else if str_eq(key, "thresholdMs") {
                let r = scan_num_value(s, c);
                if let Some((num, d)) = r {
                    if let Some(m) = num {
                        fields.threshold_ms = Some(m);
                    }
                    Some(d)
                } else {
                    None
                }
            } else if str_eq(key, "startTime") {
                let r = scan_num_value(s, c);
                if let Some((num, d)) = r {
                    if let Some(m) = num {
                        fields.start_time = Some(m);
                    }
                    Some(d)
                } else {
                    None
                }
            } else if str_eq(key, "endTime") {
                let r = scan_num_value(s, c);
                if let Some((num, d)) = r {
                    if let Some(m) = num {
                        fields.end_time = Some(m);
                    }
                    Some(d)
                } else {
                    None
                }
            } else if str_eq(key, "position") {
                let r = scan_num_value(s, c);
                if let Some((num, d)) = r {
                    if let Some(m) = num {
                        fields.position = Some(m);
                    }
                    Some(d)
                } else {
                    None
                }
            } else if str_eq(key, "volume") {
                let r = scan_num_value(s, c);
                if let Some((num, d)) = r {
                    if let Some(m) = num {
                        fields.volume = Some(m);
                    }
                    Some(d)
                } else {
                    None
                }
            } else if str_eq(key, "playingPlayers") {
                let r = scan_num_value(s, c);
                if let Some((num, d)) = r {
                    if let Some(m) = num {
                        fields.playing_players = Some(m);
                    }
                    Some(d)
                } else {
                    None
                }
            } else if str_eq(key, "pause") {
                let r = scan_bool_value(s, c);
                if let Some((val, d)) = r {
                    if let Some(b) = val {
                        fields.pause = Some(b);
                    }
                    Some(d)
                } else {
                    None
                }
            } else if str_eq(key, "valid") {
                let r = scan_bool_value(s, c);
                if let Some((val, d)) = r {
                    if let Some(b) = val {
                        fields.valid = Some(b);
                    }
                    Some(d)
                } else {
                    None
                }
            } else if str_eq(key, "connected") {
                let r = scan_bool_value(s, c);
                if let Some((val, d)) = r {
                    if let Some(b) = val {
                        fields.connected = Some(b);
                    }
                    Some(d)
                } else {
                    None
                }
            } else if str_eq(key, "state") {
                let ch = s.get_char(c);
                if ch == 'n' {
                    scan_null(s, c)
                } else if ch == '{' {
                    fields.has_state = true;
                    collect_object(s, c + 1, fields, Ctx::State)
                } else {
                    None
                }
            } else if str_eq(key, "cpu") {
                let ch = s.get_char(c);
                if ch == 'n' {
                    scan_null(s, c)
                } else if ch == '{' {
                    fields.has_cpu = true;
                    collect_object(s, c + 1, fields, Ctx::Cpu)
                } else {
                    None
                }
            } else if str_eq(key, "frameStats") {
                let ch = s.get_char(c);
                if ch == 'n' {
                    scan_null(s, c)
                } else if ch == '{' {
                    fields.has_frame_stats = true;
                    collect_object(s, c + 1, fields, Ctx::Fs)
                } else {
                    None
                }
            } else {
                skip_value(s, c)
            }
        },
        Ctx::State => {
            if str_eq(key, "time") {
                let r = scan_num_value(s, c);
                if let Some((num, d)) = r {
                    if let Some(m) = num {
                        fields.state_time = Some(m);
                    }
                    Some(d)
                } else {
                    None
                }
            } else if str_eq(key, "position") {
                let r = scan_num_value(s, c);
                if let Some((num, d)) = r {
                    if let Some(m) = num {
                        fields.state_position = Some(m);
                    }
                    Some(d)
                } else {
                    None
                }
            } else {
                skip_value(s, c)
            }
        },
        Ctx::Cpu => {
            if str_eq(key, "systemLoad") {
                let r = scan_num_value(s, c);
                if let Some((num, d)) = r {
                    if let Some(m) = num {
                        fields.system_load = Some(m);
                    }
                    Some(d)
                } else {
                    None
                }
            } else {
                skip_value(s, c)
            }
        },
        Ctx::Fs => {
            if str_eq(key, "deficit") {
                let r = scan_num_value(s, c);
                if let Some((num, d)) = r {
                    if let Some(m) = num {
                        fields.fs_deficit = Some(m);
                    }
                    Some(d)
                } else {
                    None
                }
            } else if str_eq(key, "nulled") {
                let r = scan_num_value(s, c);
                if let Some((num, d)) = r {
                    if let Some(m) = num {
                        fields.fs_nulled = Some(m);
                    }
                    Some(d)
                } else {
                    None
                }
            } else {
                skip_value(s, c)
            }
        },
    }
}

/// Scans a member value that must be a string or `null`: `Some((None, d))`
/// for `null`, the unescaped content for a string.
fn scan_text_value(s: &str, c: usize) -> (r: Option<(Option<String>, usize)>)
    requires
        c < s@.len(),
        s@.len() <= usize::MAX,
    ensures
        match r {
            Some((content, d)) => c < d <= s@.len() && (match content {
                Some(text) => s@[c as int] == '"' && sp_str_body(s@, c as int + 1) == Some(
                    (text@, d as int),
                ),
                None => s@[c as int] == 'n' && sp_null(s@, c as int) == Some(d as int),
            }),
            None => (s@[c as int] == 'n' ==> sp_null(s@, c as int) is None) && (s@[c as int]
                == '"' ==> sp_str_body(s@, c as int + 1) is None),
        },
{
    let ch = s.get_char(c);
    if ch == 'n' {
        match scan_null(s, c) {
            None => None,
            Some(d) => Some((None, d)),
        }
    } else if ch == '"' {
        match scan_string(s, c + 1) {
            None => None,
            Some((text, d)) => Some((Some(text), d)),
        }
    } else {
        None
    }
}

/// Scans a member value that must be a number or `null`.
fn scan_num_value(s: &str, c: usize) -> (r: Option<(Option<JsonNum>, usize)>)
    requires
        c < s@.len(),
        s@.len() <= usize::MAX,
    ensures
        match r {
            Some((num, d)) => c < d <= s@.len() && (match num {
                Some(m) => s@[c as int] != 'n' && sp_number(s@, c as int) == Some(
                    (m@, d as int),
                ),
                None => s@[c as int] == 'n' && sp_null(s@, c as int) == Some(d as int),
            }),
            None => (s@[c as int] == 'n' ==> sp_null(s@, c as int) is None) && (s@[c as int]
                != 'n' ==> sp_number(s@, c as int) is None),
        },
{
    let ch = s.get_char(c);
    if ch == 'n' {
        match scan_null(s, c) {
            None => None,
            Some(d) => Some((None, d)),
        }
    } else {
        match scan_number(s, c) {
            None => None,
            Some((m, d)) => Some((Some(m), d)),
        }
    }
}

/// Scans a member value that must be a boolean or `null`.
fn scan_bool_value(s: &str, c: usize) -> (r: Option<(Option<bool>, usize)>)
    requires
        c < s@.len(),
        s@.len() <= usize::MAX,
    ensures
        match r {
            Some((val, d)) => c < d <= s@.len() && (match val {
                Some(b) => s@[c as int] != 'n' && sp_bool(s@, c as int) == Some((b, d as int)),
                None => s@[c as int] == 'n' && sp_null(s@, c as int) == Some(d as int),
            }),
            None => (s@[c as int] == 'n' ==> sp_null(s@, c as int) is None) && (s@[c as int]
                != 'n' ==> sp_bool(s@, c as int) is None),
        },
{
    let ch = s.get_char(c);
    if ch == 'n' {
        match scan_null(s, c) {
            None => None,
            Some(d) => Some((None, d)),
        }
    } else {
        match scan_bool(s, c) {
            None => None,
            Some((b, d)) => Some((Some(b), d)),
        }
    }
}

/// Collects the protocol fields of one whole frame: leading whitespace, one
/// JSON object, trailing whitespace, nothing else.
pub open spec fn sp_fields_of_text(t: Seq<char>) -> Option<FieldsModel> {
    let a = sp_ws(t, 0);
    if !(0 <= a < t.len()) || t[a] != '{' {
        None
    } else {
        match sp_object(t, a + 1, empty_fields(), Ctx::Top) {
            None => None,
            Some((fm, j)) => {
                if 0 <= j <= t.len() && sp_ws(t, j) == t.len() {
                    Some(fm)
                } else {
                    None
                }
            },
        }
    }
}

/// Collects the protocol fields of one whole frame.
pub fn fields_of_text(s: &str) -> (r: Option<Fields>)
    ensures
        match r {
            Some(f) => sp_fields_of_text(s@) == Some(f@),
            None => sp_fields_of_text(s@) is None,
        },
{
    let n = s.unicode_len();
    let a = skip_ws(s, 0);
    if a >= n {
        return None;
    }
    if s.get_char(a) != '{' {
        return None;
    }
    let mut fields = Fields::new();
    let j = match collect_object(s, a + 1, &mut fields, Ctx::Top) {
        None => {
            return None;
        },
        Some(j) => j,
    };
    let e = skip_ws(s, j);
    if e < n {
        return None;
    }
    Some(fields)
}

} // verus!
