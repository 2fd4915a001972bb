//! Envelope encoders: the outbound command and reply frames, built
//! character by character with exact contracts over their text.

use vstd::prelude::*;

use crate::text::{chars_to_string, dec_of, dec_of_signed, push_i64_dec, push_str, push_u64_dec};

verus! {

/// The hexadecimal digit character for a value in `0 ..= 15`.
pub open spec fn hex_char(d: int) -> char {
    if d < 10 {
        crate::text::digit_char(d)
    } else if d == 10 {
        'a'
    } else if d == 11 {
        'b'
    } else if d == 12 {
        'c'
    } else if d == 13 {
        'd'
    } else if d == 14 {
        'e'
    } else {
        'f'
    }
}

/// How one character is written inside a JSON string.
pub open spec fn esc_char(c: char) -> Seq<char> {
    if c == '"' {
        seq!['\\', '"']
    } else if c == '\\' {
        seq!['\\', '\\']
    } else if c == '\n' {
        seq!['\\', 'n']
    } else if c == '\r' {
        seq!['\\', 'r']
    } else if c == '\t' {
        seq!['\\', 't']
    } else if c == '\u{8}' {
        seq!['\\', 'b']
    } else if c == '\u{c}' {
        seq!['\\', 'f']
    } else if (c as u32) < 32 {
        seq!['\\', 'u', '0', '0', hex_char(c as u32 as int / 16), hex_char(c as u32 as int % 16)]
    } else {
        seq![c]
    }
}

/// How a whole string is written inside JSON quotes.
pub open spec fn sp_escape(t: Seq<char>) -> Seq<char>
    decreases t.len(),
{
    if t.len() == 0 {
        Seq::empty()
    } else {
        sp_escape(t.drop_last()) + esc_char(t.last())
    }
}

/// The text of a JSON boolean.
pub open spec fn bool_text(b: bool) -> Seq<char> {
    if b {
        "true"@
    } else {
        "false"@
    }
}

/// Pushes the hexadecimal digit character for `d`.
fn push_hex(v: &mut Vec<char>, d: u32)
    requires
        d < 16,
    ensures
        final(v)@ == old(v)@ + seq![hex_char(d as int)],
{
    let c: char = if d == 0 {
        '0'
    } else if d == 1 {
        '1'
    } else if d == 2 {
        '2'
    } else if d == 3 {
        '3'
    } else if d == 4 {
        '4'
    } else if d == 5 {
        '5'
    } else if d == 6 {
        '6'
    } else if d == 7 {
        '7'
    } else if d == 8 {
        '8'
    } else if d == 9 {
        '9'
    } else if d == 10 {
        'a'
    } else if d == 11 {
        'b'
    } else if d == 12 {
        'c'
    } else if d == 13 {
        'd'
    } else if d == 14 {
        'e'
    } else {
        'f'
    };
    v.push(c);
}

/// Appends the JSON-escaped form of `s` to `v`.
pub fn push_escaped(v: &mut Vec<char>, s: &str)
    ensures
        final(v)@ == old(v)@ + sp_escape(s@),
{
    let n = vstd::string::StrSliceExecFns::unicode_len(s);
    let mut i: usize = 0;
    while i < n
        invariant
            i <= n,
            n == s@.len(),
            v@ == old(v)@ + sp_escape(s@.subrange(0, i as int)),
        decreases n - i,
    {
        let c = vstd::string::StrSliceExecFns::get_char(s, i);
        if c == '"' {
            v.push('\\');
            v.push('"');
        } else if c == '\\' {
            v.push('\\');
            v.push('\\');
        } else if c == '\n' {
            v.push('\\');
            v.push('n');
        } else if c == '\r' {
            v.push('\\');
            v.push('r');
        } else if c == '\t' {
            v.push('\\');
            v.push('t');
        } else if c == '\u{8}' {
            v.push('\\');
            v.push('b');
        } else if c == '\u{c}' {
            v.push('\\');
            v.push('f');
        } else {
            let u = c as u32;
            if u < 32 {
                v.push('\\');
                v.push('u');
                v.push('0');
                v.push('0');
                push_hex(v, u / 16);
                push_hex(v, u % 16);
            } else {
                v.push(c);
            }
        }
        proof {
            assert(s@.subrange(0, i + 1).drop_last() =~= s@.subrange(0, i as int));
            assert(s@.subrange(0, i + 1).last() == s@[i as int]);
            assert(v@ =~= old(v)@ + sp_escape(s@.subrange(0, i + 1)));
        }
        i += 1;
    }
    proof {
        assert(s@.subrange(0, n as int) =~= s@);
    }
}

/// The text of the `connect` command for a guild and channel.
pub open spec fn sp_connect_msg(guild_id: int, channel_id: Seq<char>) -> Seq<char> {
    "{\"op\":\"connect\",\"guildId\":\""@ + dec_of(guild_id) + "\",\"channelId\":\""@
        + sp_escape(channel_id) + "\"}"@
}

/// Builds the `connect` command frame.
pub fn connect_message(guild_id: u64, channel_id: &str) -> (r: String)
    ensures
        r@ == sp_connect_msg(guild_id as int, channel_id@),
{
    let mut v: Vec<char> = Vec::new();
    push_str(&mut v, "{\"op\":\"connect\",\"guildId\":\"");
    push_u64_dec(&mut v, guild_id);
    push_str(&mut v, "\",\"channelId\":\"");
    push_escaped(&mut v, channel_id);
    push_str(&mut v, "\"}");
    proof {
        assert(v@ =~= sp_connect_msg(guild_id as int, channel_id@));
    }
    chars_to_string(&v)
}

/// The text of the `disconnect` command for a guild.
pub open spec fn sp_disconnect_msg(guild_id: int) -> Seq<char> {
    "{\"op\":\"disconnect\",\"guildId\":\""@ + dec_of(guild_id) + "\"}"@
}

/// Builds the `disconnect` command frame.
pub fn disconnect_message(guild_id: u64) -> (r: String)
    ensures
        r@ == sp_disconnect_msg(guild_id as int),
{
    let mut v: Vec<char> = Vec::new();
    push_str(&mut v, "{\"op\":\"disconnect\",\"guildId\":\"");
    push_u64_dec(&mut v, guild_id);
    push_str(&mut v, "\"}");
    proof {
        assert(v@ =~= sp_disconnect_msg(guild_id as int));
    }
    chars_to_string(&v)
}

/// The text of the `play` command for a guild.
pub open spec fn sp_play_msg(
    guild_id: int,
    track: Seq<char>,
    start_time: Option<int>,
    end_time: Option<int>,
) -> Seq<char> {
    "{\"op\":\"play\",\"guildId\":\""@ + dec_of(guild_id) + "\",\"track\":\""@ + sp_escape(track)
        + "\""@ + (match start_time {
        Some(v) => ",\"startTime\":"@ + dec_of(v),
        None => Seq::empty(),
    }) + (match end_time {
        Some(v) => ",\"endTime\":"@ + dec_of(v),
        None => Seq::empty(),
    }) + "}"@
}

/// Builds the `play` command frame.
pub fn play_message(
    guild_id: u64,
    track: &str,
    start_time: Option<u64>,
    end_time: Option<u64>,
) -> (r: String)
    ensures
        r@ == sp_play_msg(
            guild_id as int,
            track@,
            crate::envelope::opt_u64_view(start_time),
            crate::envelope::opt_u64_view(end_time),
        ),
{
    let mut v: Vec<char> = Vec::new();
    push_str(&mut v, "{\"op\":\"play\",\"guildId\":\"");
    push_u64_dec(&mut v, guild_id);
    push_str(&mut v, "\",\"track\":\"");
    push_escaped(&mut v, track);
    push_str(&mut v, "\"");
    if let Some(st) = start_time {
        push_str(&mut v, ",\"startTime\":");
        push_u64_dec(&mut v, st);
    }
    if let Some(et) = end_time {
        push_str(&mut v, ",\"endTime\":");
        push_u64_dec(&mut v, et);
    }
    push_str(&mut v, "}");
    proof {
        assert(v@ =~= sp_play_msg(
            guild_id as int,
            track@,
            crate::envelope::opt_u64_view(start_time),
            crate::envelope::opt_u64_view(end_time),
        ));
    }
    chars_to_string(&v)
}

/// The text of the `pause` command for a guild.
pub open spec fn sp_pause_msg(guild_id: int, pause: bool) -> Seq<char> {
    "{\"op\":\"pause\",\"guildId\":\""@ + dec_of(guild_id) + "\",\"pause\":"@ + bool_text(pause)
        + "}"@
}

/// Builds the `pause` command frame.
pub fn pause_message(guild_id: u64, pause: bool) -> (r: String)
    ensures
        r@ == sp_pause_msg(guild_id as int, pause),
{
    let mut v: Vec<char> = Vec::new();
    push_str(&mut v, "{\"op\":\"pause\",\"guildId\":\"");
    push_u64_dec(&mut v, guild_id);
    push_str(&mut v, "\",\"pause\":");
    if pause {
        push_str(&mut v, "true");
    } else {
        push_str(&mut v, "false");
    }
    push_str(&mut v, "}");
    proof {
        assert(v@ =~= sp_pause_msg(guild_id as int, pause));
    }
    chars_to_string(&v)
}

/// The text of the `seek` command for a guild.
pub open spec fn sp_seek_msg(guild_id: int, position: int) -> Seq<char> {
    "{\"op\":\"seek\",\"guildId\":\""@ + dec_of(guild_id) + "\",\"position\":"@ + dec_of_signed(
        position,
    ) + "}"@
}

/// Builds the `seek` command frame.
pub fn seek_message(guild_id: u64, position: i64) -> (r: String)
    ensures
        r@ == sp_seek_msg(guild_id as int, position as int),
{
    let mut v: Vec<char> = Vec::new();
    push_str(&mut v, "{\"op\":\"seek\",\"guildId\":\"");
    push_u64_dec(&mut v, guild_id);
    push_str(&mut v, "\",\"position\":");
    push_i64_dec(&mut v, position);
    push_str(&mut v, "}");
    proof {
        assert(v@ =~= sp_seek_msg(guild_id as int, position as int));
    }
    chars_to_string(&v)
}

/// The text of the `stop` command for a guild.
pub open spec fn sp_stop_msg(guild_id: int) -> Seq<char> {
    "{\"op\":\"stop\",\"guildId\":\""@ + dec_of(guild_id) + "\"}"@
}

/// Builds the `stop` command frame.
pub fn stop_message(guild_id: u64) -> (r: String)
    ensures
        r@ == sp_stop_msg(guild_id as int),
{
    let mut v: Vec<char> = Vec::new();
    push_str(&mut v, "{\"op\":\"stop\",\"guildId\":\"");
    push_u64_dec(&mut v, guild_id);
    push_str(&mut v, "\"}");
    proof {
        assert(v@ =~= sp_stop_msg(guild_id as int));
    }
    chars_to_string(&v)
}

/// The text of the `volume` command for a guild.
pub open spec fn sp_volume_msg(guild_id: int, volume: int) -> Seq<char> {
    "{\"op\":\"volume\",\"guildId\":\""@ + dec_of(guild_id) + "\",\"volume\":"@ + dec_of_signed(
        volume,
    ) + "}"@
}

/// Builds the `volume` command frame.
pub fn volume_message(guild_id: u64, volume: i32) -> (r: String)
    ensures
        r@ == sp_volume_msg(guild_id as int, volume as int),
{
    let mut v: Vec<char> = Vec::new();
    push_str(&mut v, "{\"op\":\"volume\",\"guildId\":\"");
    push_u64_dec(&mut v, guild_id);
    push_str(&mut v, "\",\"volume\":");
    push_i64_dec(&mut v, volume as i64);
    push_str(&mut v, "}");
    proof {
        assert(v@ =~= sp_volume_msg(guild_id as int, volume as int));
    }
    chars_to_string(&v)
}

/// The text of the reply to a validation request.
pub open spec fn sp_validation_reply(
    guild_id: Seq<char>,
    channel_id: Option<Seq<char>>,
    valid: bool,
) -> Seq<char> {
    "{\"guildId\":\""@ + sp_escape(guild_id) + "\""@ + (match channel_id {
        Some(ch) => ",\"channelId\":\""@ + sp_escape(ch) + "\""@,
        None => Seq::empty(),
    }) + ",\"valid\":"@ + bool_text(valid) + "}"@
}

/// Builds the reply to a validation request.
pub fn validation_reply(guild_id: &str, channel_id: &Option<String>, valid: bool) -> (r: String)
    ensures
        r@ == sp_validation_reply(
            guild_id@,
            crate::envelope::opt_text_view(*channel_id),
            valid,
        ),
{
    let mut v: Vec<char> = Vec::new();
    push_str(&mut v, "{\"guildId\":\"");
    push_escaped(&mut v, guild_id);
    push_str(&mut v, "\"");
    match channel_id {
        Some(ch) => {
            push_str(&mut v, ",\"channelId\":\"");
            push_escaped(&mut v, ch.as_str());
            push_str(&mut v, "\"");
        },
        None => {},
    }
    push_str(&mut v, ",\"valid\":");
    if valid {
        push_str(&mut v, "true");
    } else {
        push_str(&mut v, "false");
    }
    push_str(&mut v, "}");
    proof {
        assert(v@ =~= sp_validation_reply(
            guild_id@,
            crate::envelope::opt_text_view(*channel_id),
            valid,
        ));
    }
    chars_to_string(&v)
}

/// The text of the reply to a connectivity request.
pub open spec fn sp_connected_reply(shard_id: int, connected: bool) -> Seq<char> {
    "{\"shardId\":"@ + dec_of(shard_id) + ",\"connected\":"@ + bool_text(connected) + "}"@
}

/// Builds the reply to a connectivity request.
pub fn connected_reply(shard_id: u64, connected: bool) -> (r: String)
    ensures
        r@ == sp_connected_reply(shard_id as int, connected),
{
    let mut v: Vec<char> = Vec::new();
    push_str(&mut v, "{\"shardId\":");
    push_u64_dec(&mut v, shard_id);
    push_str(&mut v, ",\"connected\":");
    if connected {
        push_str(&mut v, "true");
    } else {
        push_str(&mut v, "false");
    }
    push_str(&mut v, "}");
    proof {
        assert(v@ =~= sp_connected_reply(shard_id as int, connected));
    }
    chars_to_string(&v)
}

} // verus!