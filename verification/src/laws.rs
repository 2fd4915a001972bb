//! Round-trip laws of the codec, built up from its pieces: a rendered
//! decimal parses back to the value it came from, an escaped string scans
//! back to the characters it came from, and encoding a `stop` or `play`
//! command and decoding the frame yields the same command back, for every
//! guild id, track, and offset.

use vstd::prelude::*;

use crate::encode::{esc_char, hex_char, sp_escape};
use crate::json::{
    all_digits, dec_val, digit_val, hex_val, is_digit_char, is_hex_char, sp_hex4, sp_parse_u64,
    sp_str_body, sp_unescape, sp_ws,
};
use crate::text::{dec_of, digit_char};

verus! {

/// A digit character carries its digit back.
proof fn lemma_digit_char_val(d: int)
    requires
        0 <= d <= 9,
    ensures
        is_digit_char(digit_char(d)),
        digit_val(digit_char(d)) == d,
{
}

/// The decimal rendering of a value is all digits and reads back as the
/// value itself.
proof fn lemma_dec_of_value(n: int)
    requires
        n >= 0,
    ensures
        all_digits(dec_of(n)),
        dec_of(n).len() >= 1,
        dec_val(dec_of(n)) == n,
    decreases n,
{
    if n < 10 {
        lemma_digit_char_val(n);
        assert(dec_of(n) =~= seq![digit_char(n)]);
        assert(dec_of(n).drop_last() =~= Seq::<char>::empty());
        assert(dec_of(n).last() == digit_char(n));
        assert(dec_val(Seq::<char>::empty()) == 0);
        assert(dec_val(dec_of(n)) == 0 * 10 + digit_val(digit_char(n)));
    } else {
        lemma_dec_of_value(n / 10);
        lemma_digit_char_val(n % 10);
        assert(dec_of(n) =~= dec_of(n / 10) + seq![digit_char(n % 10)]);
        assert(dec_of(n).drop_last() =~= dec_of(n / 10));
        assert(dec_of(n).last() == digit_char(n % 10));
        assert forall|k: int| 0 <= k < dec_of(n).len() implies is_digit_char(
            dec_of(n)[k],
        ) by {
            if k < dec_of(n / 10).len() {
                assert(dec_of(n)[k] == dec_of(n / 10)[k]);
            }
        }
    }
}

/// Rendering an unsigned value in decimal and parsing the text back yields
/// the value itself.
pub proof fn lemma_decimal_round_trip(n: int)
    requires
        0 <= n <= u64::MAX,
    ensures
        sp_parse_u64(dec_of(n)) == Some(n),
{
    lemma_dec_of_value(n);
}

/// A whole string escapes one leading character at a time.
proof fn lemma_escape_first(t: Seq<char>)
    requires
        t.len() > 0,
    ensures
        sp_escape(t) == esc_char(t.first()) + sp_escape(t.drop_first()),
    decreases t.len(),
{
    if t.len() == 1 {
        assert(t.drop_last() =~= Seq::<char>::empty());
        assert(t.drop_first() =~= Seq::<char>::empty());
        assert(t.last() == t.first());
        assert(sp_escape(t) =~= esc_char(t.first()) + sp_escape(t.drop_first()));
    } else {
        lemma_escape_first(t.drop_last());
        assert(t.drop_last().first() == t.first());
        assert(t.drop_last().drop_first() =~= t.drop_first().drop_last());
        assert(t.drop_first().last() == t.last());
        assert(sp_escape(t.drop_first()) == sp_escape(t.drop_first().drop_last()) + esc_char(
            t.drop_first().last(),
        ));
        assert(sp_escape(t) =~= esc_char(t.first()) + sp_escape(t.drop_first()));
    }
}

/// A hexadecimal digit character carries its value back.
proof fn lemma_hex_char_val(d: int)
    requires
        0 <= d <= 15,
    ensures
        is_hex_char(hex_char(d)),
        hex_val(hex_char(d)) == d,
{
}

/// Scanning an escaped string body followed by a closing quote yields the
/// original characters and stops just past the quote: what the encoder
/// writes inside quotes, the decoder reads back, whatever the characters.
pub proof fn lemma_escape_scan(t: Seq<char>, u: Seq<char>, i: int)
    requires
        0 <= i,
        i + sp_escape(t).len() < u.len(),
        u.subrange(i, i + sp_escape(t).len()) == sp_escape(t),
        u[i + sp_escape(t).len()] == '"',
    ensures
        sp_str_body(u, i) == Some((t, i + sp_escape(t).len() + 1)),
    decreases t.len(),
{
    if t.len() == 0 {
        assert(sp_escape(t).len() == 0);
        assert(u[i] == '"');
    } else {
        let c = t.first();
        let e = esc_char(c);
        let rest = t.drop_first();
        lemma_escape_first(t);
        let el = e.len() as int;
        let full = sp_escape(t).len() as int;
        assert forall|k: int| 0 <= k < el implies u[i + k] == e[k] by {
            assert(u.subrange(i, i + full)[k] == u[i + k]);
            assert((e + sp_escape(rest))[k] == e[k]);
        }
        assert(u.subrange(i + el, i + full) =~= sp_escape(rest)) by {
            assert forall|k: int| 0 <= k < full - el implies u.subrange(i + el, i + full)[k]
                == sp_escape(rest)[k] by {
                assert(u.subrange(i + el, i + full)[k] == u[i + el + k]);
                assert(u[i + el + k] == u.subrange(i, i + full)[el + k]);
                assert((e + sp_escape(rest))[el + k] == sp_escape(rest)[k]);
            }
        }
        lemma_escape_scan(rest, u, i + el);
        if c == '"' || c == '\\' {
            assert(u[i + 0] == e[0] && u[i + 1] == e[1]);
            assert(u[i] == '\\' && u[i + 1] == c);
            assert(sp_unescape(u[i + 1]) == Some(c));
            assert(sp_str_body(u, i) == Some((seq![c] + rest, i + full + 1)));
        } else if c == '\n' || c == '\r' || c == '\t' || c == '\u{8}' || c == '\u{c}' {
            assert(u[i + 0] == e[0] && u[i + 1] == e[1]);
            assert(u[i] == '\\');
            assert(sp_unescape(u[i + 1]) == Some(c));
            assert(sp_str_body(u, i) == Some((seq![c] + rest, i + full + 1)));
        } else if (c as u32) < 32 {
            let hi = c as u32 as int / 16;
            let lo = c as u32 as int % 16;
            assert(e =~= seq!['\\', 'u', '0', '0', hex_char(hi), hex_char(lo)]);
            assert(u[i + 0] == e[0] && u[i + 1] == e[1] && u[i + 2] == e[2] && u[i + 3]
                == e[3] && u[i + 4] == e[4] && u[i + 5] == e[5]);
            assert(u[i] == '\\' && u[i + 1] == 'u' && u[i + 2] == '0' && u[i + 3] == '0');
            assert(u[i + 4] == hex_char(hi) && u[i + 5] == hex_char(lo));
            assert(0 <= hi * 16 + lo < 128);
            lemma_hex_char_val(hi);
            lemma_hex_char_val(lo);
            assert(is_hex_char('0') && hex_val('0') == 0);
            assert(sp_hex4(u, i + 2) == hi * 16 + lo);
            assert(hi * 16 + lo == c as u32) by {
                assert(c as u32 as int / 16 * 16 + c as u32 as int % 16 == c as u32 as int);
            }
            let cu: u32 = c as u32;
            vstd::utf8::char_u32_cast(c, cu);
            assert((cu as char) == c);
            assert(sp_hex4(u, i + 2) == cu);
            assert(((sp_hex4(u, i + 2) as u32) as char) == c);
            assert(sp_str_body(u, i) == Some((seq![c] + rest, i + full + 1)));
        } else {
            assert(e =~= seq![c]);
            assert(u[i + 0] == e[0]);
            assert(u[i] == c);
            assert(sp_str_body(u, i) == Some((seq![c] + rest, i + full + 1)));
        }
        assert(seq![c] + rest =~= t);
    }
}

/// Escaping changes nothing in text free of quotes, backslashes, and
/// control characters.
proof fn lemma_escape_raw(t: Seq<char>)
    requires
        forall|k: int|
            0 <= k < t.len() ==> (t[k] as u32) >= 32 && t[k] != '"' && t[k] != '\\',
    ensures
        sp_escape(t) == t,
    decreases t.len(),
{
    if t.len() > 0 {
        lemma_escape_raw(t.drop_last());
        assert(esc_char(t.last()) =~= seq![t.last()]);
        assert(sp_escape(t) =~= t);
    }
}

/// A digit run embedded in text ends exactly at its end.
proof fn lemma_digits_scan(d: Seq<char>, u: Seq<char>, i: int)
    requires
        0 <= i,
        i + d.len() <= u.len(),
        u.subrange(i, i + d.len()) == d,
        all_digits(d),
        i + d.len() < u.len() ==> !is_digit_char(u[i + d.len()]),
        i + d.len() == u.len() || !is_digit_char(u[i + d.len()]),
    ensures
        crate::json::sp_digits_end(u, i) == i + d.len(),
    decreases d.len(),
{
    if d.len() == 0 {
        if i < u.len() {
            assert(!is_digit_char(u[i]));
        }
    } else {
        assert(u[i + 0] == u.subrange(i, i + d.len())[0]);
        assert(u[i] == d[0]);
        assert(is_digit_char(u[i]));
        assert(u.subrange(i + 1, i + d.len()) =~= d.drop_first()) by {
            assert forall|k: int| 0 <= k < d.len() - 1 implies u.subrange(
                i + 1,
                i + d.len(),
            )[k] == d.drop_first()[k] by {
                assert(u.subrange(i + 1, i + d.len())[k] == u[i + 1 + k]);
                assert(u[i + 1 + k] == u.subrange(i, i + d.len())[k + 1]);
            }
        }
        assert(all_digits(d.drop_first()));
        lemma_digits_scan(d.drop_first(), u, i + 1);
    }
}

/// A rendered decimal embedded in text scans as the integer it came from.
proof fn lemma_number_scan(n: int, u: Seq<char>, i: int)
    requires
        0 <= n <= u64::MAX,
        0 <= i,
        i + dec_of(n).len() < u.len(),
        u.subrange(i, i + dec_of(n).len()) == dec_of(n),
        !is_digit_char(u[i + dec_of(n).len()]),
        u[i + dec_of(n).len()] != '.',
        u[i + dec_of(n).len()] != 'e',
        u[i + dec_of(n).len()] != 'E',
    ensures
        crate::json::sp_number(u, i) == Some(
            (
                crate::json::NumModel { neg: false, whole: n, frac4: 0, is_int: true, exp10: 0 },
                i + dec_of(n).len(),
            ),
        ),
{
    lemma_dec_of_value(n);
    lemma_digits_scan(dec_of(n), u, i);
    assert(u[i + 0] == u.subrange(i, i + dec_of(n).len())[0]);
    assert(u[i] == dec_of(n)[0]);
    assert(is_digit_char(u[i]));
    assert(u[i] != '-') by {
        assert(is_digit_char(u[i]));
    }
    let e = crate::json::sp_digits_end(u, i);
    assert(e == i + dec_of(n).len());
    assert(dec_val(u.subrange(i, e)) == n);
}

/// Encoding the `stop` command for any guild and decoding the frame yields
/// the same command back: the codec round-trips it exactly.
#[verifier::rlimit(80)]
pub proof fn lemma_stop_round_trip(g: int)
    requires
        0 <= g <= u64::MAX,
    ensures
        crate::envelope::sp_decode(crate::encode::sp_stop_msg(g)) == Some(
            crate::envelope::EnvModel::Stop { guild_id: g },
        ),
{
    reveal_strlit("{\"op\":\"stop\",\"guildId\":\"");
    reveal_strlit("\"}");
    reveal_strlit("op");
    reveal_strlit("stop");
    reveal_strlit("guildId");
    let a = "{\"op\":\"stop\",\"guildId\":\""@;
    let b = "\"}"@;
    let d = dec_of(g);
    let t = crate::encode::sp_stop_msg(g);
    lemma_dec_of_value(g);
    let ll = d.len() as int;
    assert(t =~= a + d + b);
    assert(t.len() == 26 + ll);
    assert(forall|k: int| 0 <= k < 24 ==> t[k] == a[k]);
    assert(forall|k: int| 0 <= k < ll ==> t[24 + k] == d[k]);
    assert(t[24 + ll] == b[0] && t[25 + ll] == b[1]);
    assert(forall|k: int|
        0 <= k < ll ==> is_digit_char(#[trigger] d[k]) && 48 <= d[k] as u32 <= 57);

    // The frame is one object with leading brace and nothing after it.
    assert(crate::json::sp_ws(t, 0) == 0);
    assert(t[0] == '{');

    // First member: the key `op` with the value `stop`.
    assert(crate::json::sp_ws(t, 1) == 1);
    assert(t[1] == '"');
    lemma_escape_raw("op"@);
    assert(t.subrange(2, 4) =~= "op"@);
    assert(t[4] == '"');
    lemma_escape_scan("op"@, t, 2);
    assert(crate::json::sp_str_body(t, 2) == Some(("op"@, 5int)));
    assert(crate::json::sp_ws(t, 5) == 5);
    assert(t[5] == ':');
    assert(crate::json::sp_ws(t, 6) == 6);
    assert(t[6] == '"');
    lemma_escape_raw("stop"@);
    assert(t.subrange(7, 11) =~= "stop"@);
    assert(t[11] == '"');
    lemma_escape_scan("stop"@, t, 7);
    assert(crate::json::sp_str_body(t, 7) == Some(("stop"@, 12int)));
    let acc0 = crate::codec::empty_fields();
    let acc1 = crate::codec::FieldsModel { op: Some("stop"@), ..acc0 };
    assert(crate::codec::sp_take_str(t, 6, acc0, "op"@) == Some((acc1, 12int)));
    assert(crate::codec::sp_member_value(t, 6, acc0, crate::codec::Ctx::Top, "op"@) == Some(
        (acc1, 12int),
    ));
    assert(crate::json::sp_ws(t, 12) == 12);
    assert(t[12] == ',');
    assert(crate::json::sp_ws(t, 13) == 13);
    assert(crate::codec::sp_members(t, 1, acc0, crate::codec::Ctx::Top)
        == crate::codec::sp_members(t, 13, acc1, crate::codec::Ctx::Top));

    // Second member: the key `guildId` with the rendered guild id.
    assert(t[13] == '"');
    lemma_escape_raw("guildId"@);
    assert(t.subrange(14, 21) =~= "guildId"@);
    assert(t[21] == '"');
    lemma_escape_scan("guildId"@, t, 14);
    assert(crate::json::sp_str_body(t, 14) == Some(("guildId"@, 22int)));
    assert(crate::json::sp_ws(t, 22) == 22);
    assert(t[22] == ':');
    assert(crate::json::sp_ws(t, 23) == 23);
    assert(t[23] == '"');
    lemma_escape_raw(d);
    assert(t.subrange(24, 24 + ll) =~= d);
    assert(t[24 + ll] == '"');
    lemma_escape_scan(d, t, 24);
    assert(crate::json::sp_str_body(t, 24) == Some((d, 25 + ll)));
    assert("guildId"@ != "op"@) by {
        assert("guildId"@.len() != "op"@.len());
    }
    let acc2 = crate::codec::FieldsModel { guild_id: Some(d), ..acc1 };
    assert(crate::codec::sp_take_str(t, 23, acc1, "guildId"@) == Some((acc2, 25 + ll)));
    assert(crate::codec::sp_member_value(t, 23, acc1, crate::codec::Ctx::Top, "guildId"@)
        == Some((acc2, 25 + ll)));
    assert(crate::json::sp_ws(t, 25 + ll) == 25 + ll);
    assert(t[25 + ll] == '}');
    assert(crate::codec::sp_members(t, 13, acc1, crate::codec::Ctx::Top) == Some(
        (acc2, 26 + ll),
    ));

    // The collector hands the two fields to the envelope assembly.
    assert(crate::codec::sp_object(t, 1, acc0, crate::codec::Ctx::Top) == Some(
        (acc2, 26 + ll),
    ));
    assert(crate::json::sp_ws(t, 26 + ll) == 26 + ll);
    assert(crate::codec::sp_fields_of_text(t) == Some(acc2));
    lemma_op_is_stop(acc2.op->0);
    lemma_decimal_round_trip(g);
    assert(crate::envelope::sp_guild_of(acc2) == Some(g));
    assert(crate::envelope::sp_env_of_fields(acc2) == Some(
        crate::envelope::EnvModel::Stop { guild_id: g },
    ));
}

/// The opcode text `stop` matches no other opcode of the chain.
proof fn lemma_op_is_stop(op: Seq<char>)
    requires
        op == "stop"@,
    ensures
        op != "sendWS"@,
        op != "validationReq"@,
        op != "isConnectedReq"@,
        op != "playerUpdate"@,
        op != "stats"@,
        op != "event"@,
        op != "connect"@,
        op != "disconnect"@,
        op != "play"@,
        op != "pause"@,
        op != "seek"@,
        op != "volume"@,
{
    reveal_strlit("stop");
    reveal_strlit("sendWS");
    reveal_strlit("validationReq");
    reveal_strlit("isConnectedReq");
    reveal_strlit("playerUpdate");
    reveal_strlit("stats");
    reveal_strlit("event");
    reveal_strlit("connect");
    reveal_strlit("disconnect");
    reveal_strlit("play");
    reveal_strlit("pause");
    reveal_strlit("seek");
    reveal_strlit("volume");
    assert("stop"@.len() == 4);
    assert("sendWS"@.len() == 6);
    assert("validationReq"@.len() == 13);
    assert("isConnectedReq"@.len() == 14);
    assert("playerUpdate"@.len() == 12);
    assert("stats"@.len() == 5);
    assert("event"@.len() == 5);
    assert("connect"@.len() == 7);
    assert("disconnect"@.len() == 10);
    assert("pause"@.len() == 5);
    assert("volume"@.len() == 6);
    assert("stop"@[0] == 's' && "play"@[0] == 'p');
    assert("stop"@[1] == 't' && "seek"@[1] == 'e');
}

/// The member keys of the command envelopes are pairwise distinct as far
/// as the collector's key chain tests them.
proof fn lemma_member_keys()
    ensures
        "guildId"@ != "op"@,
        "track"@ != "op"@ && "track"@ != "guildId"@,
        "startTime"@ != "op"@ && "startTime"@ != "guildId"@ && "startTime"@ != "track"@
            && "startTime"@ != "reason"@ && "startTime"@ != "error"@ && "startTime"@
            != "type"@ && "startTime"@ != "message"@ && "startTime"@ != "channelId"@
            && "startTime"@ != "shardId"@ && "startTime"@ != "thresholdMs"@,
        "endTime"@ != "op"@ && "endTime"@ != "guildId"@ && "endTime"@ != "track"@
            && "endTime"@ != "reason"@ && "endTime"@ != "error"@ && "endTime"@ != "type"@
            && "endTime"@ != "message"@ && "endTime"@ != "channelId"@ && "endTime"@
            != "shardId"@ && "endTime"@ != "thresholdMs"@ && "endTime"@ != "startTime"@,
{
    reveal_strlit("op");
    reveal_strlit("guildId");
    reveal_strlit("track");
    reveal_strlit("reason");
    reveal_strlit("error");
    reveal_strlit("type");
    reveal_strlit("message");
    reveal_strlit("channelId");
    reveal_strlit("shardId");
    reveal_strlit("thresholdMs");
    reveal_strlit("startTime");
    reveal_strlit("endTime");
    assert("op"@.len() == 2);
    assert("guildId"@.len() == 7);
    assert("track"@.len() == 5);
    assert("reason"@.len() == 6);
    assert("error"@.len() == 5);
    assert("type"@.len() == 4);
    assert("message"@.len() == 7);
    assert("channelId"@.len() == 9);
    assert("shardId"@.len() == 7);
    assert("thresholdMs"@.len() == 11);
    assert("startTime"@.len() == 9);
    assert("endTime"@.len() == 7);
    assert("startTime"@[0] == 's' && "channelId"@[0] == 'c');
    assert("endTime"@[0] == 'e' && "guildId"@[0] == 'g' && "message"@[0] == 'm'
        && "shardId"@[0] == 's');
}

/// One string-valued member of a command envelope, read off by the
/// collector: the key, a colon, the escaped value in quotes, and either a
/// comma before the next member or the closing brace.
#[verifier::rlimit(80)]
proof fn lemma_str_member(
    t: Seq<char>,
    i: int,
    key: Seq<char>,
    content: Seq<char>,
    acc: crate::codec::FieldsModel,
)
    requires
        key == "op"@ || key == "guildId"@ || key == "track"@,
        0 <= i,
        i + key.len() + 5 + sp_escape(content).len() < t.len(),
        t[i] == '"',
        t.subrange(i + 1, i + 1 + key.len()) == key,
        t[i + 1 + key.len()] == '"',
        t[i + 2 + key.len()] == ':',
        t[i + 3 + key.len()] == '"',
        t.subrange(i + 4 + key.len(), i + 4 + key.len() + sp_escape(content).len())
            == sp_escape(content),
        t[i + 4 + key.len() + sp_escape(content).len()] == '"',
        t[i + 5 + key.len() + sp_escape(content).len()] == ','
            || t[i + 5 + key.len() + sp_escape(content).len()] == '}',
    ensures
        ({
            let r = i + 5 + key.len() + sp_escape(content).len();
            let acc2 = crate::codec::sp_set_str(acc, key, content);
            &&& (t[r] == '}' ==> crate::codec::sp_members(t, i, acc, crate::codec::Ctx::Top)
                == Some((acc2, r + 1)))
            &&& (t[r] == ',' ==> crate::codec::sp_members(t, i, acc, crate::codec::Ctx::Top)
                == crate::codec::sp_members(t, sp_ws(t, r + 1), acc2, crate::codec::Ctx::Top)
                && r + 1 <= sp_ws(t, r + 1) <= t.len())
        }),
{
    let kl = key.len() as int;
    let el = sp_escape(content).len() as int;
    let r = i + 5 + kl + el;
    reveal_strlit("op");
    reveal_strlit("guildId");
    reveal_strlit("track");
    lemma_member_keys();
    lemma_escape_raw(key);
    lemma_escape_scan(key, t, i + 1);
    assert(crate::json::sp_str_body(t, i + 1) == Some((key, i + 2 + kl)));
    assert(sp_ws(t, i + 2 + kl) == i + 2 + kl);
    assert(sp_ws(t, i + 3 + kl) == i + 3 + kl);
    lemma_escape_scan(content, t, i + 4 + kl);
    assert(crate::json::sp_str_body(t, i + 4 + kl) == Some((content, r)));
    let c = i + 3 + kl;
    assert(t[c] != 'n');
    let acc2 = crate::codec::sp_set_str(acc, key, content);
    assert(crate::codec::sp_take_str(t, c, acc, key) == Some((acc2, r)));
    assert(crate::codec::sp_member_value(t, c, acc, crate::codec::Ctx::Top, key) == Some(
        (acc2, r),
    ));
    assert(sp_ws(t, r) == r);
    if t[r] == ',' {
        crate::json::lemma_ws_bounds(t, r + 1);
    }
}

/// One integer-valued member of a command envelope, read off by the
/// collector: the key, a colon, the rendered value, and either a comma
/// before the next member or the closing brace.
#[verifier::rlimit(80)]
proof fn lemma_num_member(
    t: Seq<char>,
    i: int,
    key: Seq<char>,
    n: int,
    acc: crate::codec::FieldsModel,
)
    requires
        key == "startTime"@ || key == "endTime"@,
        0 <= n <= u64::MAX,
        0 <= i,
        i + key.len() + 3 + dec_of(n).len() < t.len(),
        t[i] == '"',
        t.subrange(i + 1, i + 1 + key.len()) == key,
        t[i + 1 + key.len()] == '"',
        t[i + 2 + key.len()] == ':',
        t.subrange(i + 3 + key.len(), i + 3 + key.len() + dec_of(n).len()) == dec_of(n),
        t[i + 3 + key.len() + dec_of(n).len()] == ','
            || t[i + 3 + key.len() + dec_of(n).len()] == '}',
    ensures
        ({
            let r = i + 3 + key.len() + dec_of(n).len();
            let m = crate::json::NumModel { neg: false, whole: n, frac4: 0, is_int: true, exp10: 0 };
            let acc2 = crate::codec::sp_set_num(acc, crate::codec::Ctx::Top, key, m);
            &&& (t[r] == '}' ==> crate::codec::sp_members(t, i, acc, crate::codec::Ctx::Top)
                == Some((acc2, r + 1)))
            &&& (t[r] == ',' ==> crate::codec::sp_members(t, i, acc, crate::codec::Ctx::Top)
                == crate::codec::sp_members(t, sp_ws(t, r + 1), acc2, crate::codec::Ctx::Top)
                && r + 1 <= sp_ws(t, r + 1) <= t.len())
        }),
{
    let kl = key.len() as int;
    let dl = dec_of(n).len() as int;
    let r = i + 3 + kl + dl;
    reveal_strlit("startTime");
    reveal_strlit("endTime");
    lemma_member_keys();
    lemma_escape_raw(key);
    lemma_escape_scan(key, t, i + 1);
    assert(crate::json::sp_str_body(t, i + 1) == Some((key, i + 2 + kl)));
    assert(sp_ws(t, i + 2 + kl) == i + 2 + kl);
    lemma_dec_of_value(n);
    let c = i + 3 + kl;
    assert(t[c + 0] == t.subrange(c, c + dl)[0]);
    assert(is_digit_char(t[c]));
    assert(sp_ws(t, c) == c);
    assert(t[c] != 'n' && t[c] != '"');
    lemma_number_scan(n, t, c);
    let m = crate::json::NumModel { neg: false, whole: n, frac4: 0, is_int: true, exp10: 0 };
    let acc2 = crate::codec::sp_set_num(acc, crate::codec::Ctx::Top, key, m);
    assert(crate::codec::sp_take_num(t, c, acc, crate::codec::Ctx::Top, key) == Some(
        (acc2, r),
    ));
    assert(crate::codec::sp_member_value(t, c, acc, crate::codec::Ctx::Top, key) == Some(
        (acc2, r),
    ));
    assert(sp_ws(t, r) == r);
    if t[r] == ',' {
        crate::json::lemma_ws_bounds(t, r + 1);
    }
}

/// The opcode text `play` matches no earlier opcode of the chain.
proof fn lemma_op_is_play(op: Seq<char>)
    requires
        op == "play"@,
    ensures
        op != "sendWS"@,
        op != "validationReq"@,
        op != "isConnectedReq"@,
        op != "playerUpdate"@,
        op != "stats"@,
        op != "event"@,
        op != "connect"@,
        op != "disconnect"@,
{
    reveal_strlit("play");
    reveal_strlit("sendWS");
    reveal_strlit("validationReq");
    reveal_strlit("isConnectedReq");
    reveal_strlit("playerUpdate");
    reveal_strlit("stats");
    reveal_strlit("event");
    reveal_strlit("connect");
    reveal_strlit("disconnect");
    assert("play"@.len() == 4);
    assert("sendWS"@.len() == 6);
    assert("validationReq"@.len() == 13);
    assert("isConnectedReq"@.len() == 14);
    assert("playerUpdate"@.len() == 12);
    assert("stats"@.len() == 5);
    assert("event"@.len() == 5);
    assert("connect"@.len() == 7);
    assert("disconnect"@.len() == 10);
}

/// The opening of every `play` frame: opcode, guild id, and track.
pub open spec fn play_frame_head(g: int, track: Seq<char>) -> Seq<char> {
    "{\"op\":\"play\",\"guildId\":\""@ + dec_of(g) + "\",\"track\":\""@ + sp_escape(track)
        + "\""@
}

/// The collector reads the three leading members of a `play` frame —
/// opcode, guild id, track — whatever well-shaped text follows them.
#[verifier::rlimit(100)]
proof fn lemma_play_prefix(g: int, track: Seq<char>, tail: Seq<char>)
    requires
        0 <= g <= u64::MAX,
        tail.len() >= 1,
        tail[0] == ',' || tail[0] == '}',
        tail[0] == ',' ==> tail.len() >= 2 && tail[1] == '"',
    ensures
        ({
            let t = play_frame_head(g, track) + tail;
            let q = play_frame_head(g, track).len() as int;
            let acc3 = crate::codec::FieldsModel {
                op: Some("play"@),
                guild_id: Some(dec_of(g)),
                track: Some(track),
                ..crate::codec::empty_fields()
            };
            &&& (tail[0] == '}' ==> crate::codec::sp_members(
                t,
                1,
                crate::codec::empty_fields(),
                crate::codec::Ctx::Top,
            ) == Some((acc3, q + 1)))
            &&& (tail[0] == ',' ==> crate::codec::sp_members(
                t,
                1,
                crate::codec::empty_fields(),
                crate::codec::Ctx::Top,
            ) == crate::codec::sp_members(t, q + 1, acc3, crate::codec::Ctx::Top))
        }),
{
    reveal_strlit("{\"op\":\"play\",\"guildId\":\"");
    reveal_strlit("\",\"track\":\"");
    reveal_strlit("\"");
    reveal_strlit("op");
    reveal_strlit("play");
    reveal_strlit("guildId");
    reveal_strlit("track");
    let a1 = "{\"op\":\"play\",\"guildId\":\""@;
    let a2 = "\",\"track\":\""@;
    let qt = "\""@;
    let d = dec_of(g);
    let ee = sp_escape(track);
    let t = play_frame_head(g, track) + tail;
    lemma_dec_of_value(g);
    let ll = d.len() as int;
    let el = ee.len() as int;
    let q = 36 + ll + el;
    assert(play_frame_head(g, track).len() == q);
    assert(a1.len() == 24 && a2.len() == 11 && qt.len() == 1);
    assert(forall|k: int| 0 <= k < 24 ==> t[k] == a1[k]);
    assert(forall|k: int| 0 <= k < ll ==> t[24 + k] == d[k]);
    assert(forall|k: int| 0 <= k < 11 ==> t[24 + ll + k] == a2[k]);
    assert(forall|k: int| 0 <= k < el ==> t[35 + ll + k] == ee[k]);
    assert(t[35 + ll + el] == qt[0]);
    assert(t[q] == tail[0]);
    assert(forall|k: int|
        0 <= k < ll ==> is_digit_char(#[trigger] d[k]) && 48 <= d[k] as u32 <= 57);

    let acc0 = crate::codec::empty_fields();
    lemma_member_keys();

    // First member: the opcode.
    lemma_escape_raw("play"@);
    assert(t.subrange(2, 4) =~= "op"@);
    assert(t.subrange(7, 11) =~= "play"@);
    lemma_str_member(t, 1, "op"@, "play"@, acc0);
    let acc1 = crate::codec::FieldsModel { op: Some("play"@), ..acc0 };
    assert(crate::codec::sp_set_str(acc0, "op"@, "play"@) == acc1);
    assert(t[12] == ',');
    assert(sp_ws(t, 13) == 13);
    assert(crate::codec::sp_members(t, 1, acc0, crate::codec::Ctx::Top)
        == crate::codec::sp_members(t, 13, acc1, crate::codec::Ctx::Top));

    // Second member: the guild id.
    lemma_escape_raw(d);
    assert(t.subrange(14, 21) =~= "guildId"@);
    assert(t.subrange(24, 24 + ll) =~= d);
    lemma_str_member(t, 13, "guildId"@, d, acc1);
    let acc2 = crate::codec::FieldsModel { guild_id: Some(d), ..acc1 };
    assert(crate::codec::sp_set_str(acc1, "guildId"@, d) == acc2);
    assert(t[25 + ll] == ',');
    assert(sp_ws(t, 26 + ll) == 26 + ll);
    assert(crate::codec::sp_members(t, 13, acc1, crate::codec::Ctx::Top)
        == crate::codec::sp_members(t, 26 + ll, acc2, crate::codec::Ctx::Top));

    // Third member: the track.
    assert(t.subrange(27 + ll, 32 + ll) =~= "track"@);
    assert(t.subrange(35 + ll, 35 + ll + el) =~= ee);
    assert(t[q - 1] == '"');
    lemma_str_member(t, 26 + ll, "track"@, track, acc2);
    let acc3 = crate::codec::FieldsModel { track: Some(track), ..acc2 };
    assert(crate::codec::sp_set_str(acc2, "track"@, track) == acc3);
    if tail[0] == ',' {
        assert(t[q + 1] == tail[1]);
        assert(sp_ws(t, q + 1) == q + 1);
    }
}

/// The envelope assembly reads a `play` command off the collected fields.
proof fn lemma_play_fields(
    f: crate::codec::FieldsModel,
    g: int,
    track: Seq<char>,
    st: Option<int>,
    et: Option<int>,
)
    requires
        0 <= g <= u64::MAX,
        f.op == Some("play"@),
        f.guild_id == Some(dec_of(g)),
        f.track == Some(track),
        f.start_time == (match st {
            Some(v) => Some(crate::json::NumModel { neg: false, whole: v, frac4: 0, is_int: true, exp10: 0 }),
            None => None::<crate::json::NumModel>,
        }),
        f.end_time == (match et {
            Some(v) => Some(crate::json::NumModel { neg: false, whole: v, frac4: 0, is_int: true, exp10: 0 }),
            None => None::<crate::json::NumModel>,
        }),
        (match st {
            Some(v) => 0 <= v <= u64::MAX,
            None => true,
        }),
        (match et {
            Some(v) => 0 <= v <= u64::MAX,
            None => true,
        }),
    ensures
        crate::envelope::sp_env_of_fields(f) == Some(
            crate::envelope::EnvModel::Play { guild_id: g, track, start_time: st, end_time: et },
        ),
{
    lemma_op_is_play(f.op->0);
    lemma_decimal_round_trip(g);
    assert(crate::envelope::sp_guild_of(f) == Some(g));
}

/// The fields the collector gathers from a `play` frame.
pub open spec fn play_fields_of(
    g: int,
    track: Seq<char>,
    st: Option<int>,
    et: Option<int>,
) -> crate::codec::FieldsModel {
    crate::codec::FieldsModel {
        op: Some("play"@),
        guild_id: Some(dec_of(g)),
        track: Some(track),
        start_time: match st {
            Some(v) => Some(crate::json::NumModel { neg: false, whole: v, frac4: 0, is_int: true, exp10: 0 }),
            None => None,
        },
        end_time: match et {
            Some(v) => Some(crate::json::NumModel { neg: false, whole: v, frac4: 0, is_int: true, exp10: 0 }),
            None => None,
        },
        ..crate::codec::empty_fields()
    }
}

/// The collector gathers the encoded fields from one shape of `play`
/// frame.
#[verifier::rlimit(100)]
proof fn lemma_play_members_plain(g: int, track: Seq<char>, st: Option<int>, et: Option<int>)
    requires
        0 <= g <= u64::MAX,
        (match st {
            Some(v) => 0 <= v <= u64::MAX,
            None => true,
        }),
        (match et {
            Some(v) => 0 <= v <= u64::MAX,
            None => true,
        }),
        st is None && et is None,
    ensures
        ({
            let t = crate::encode::sp_play_msg(g, track, st, et);
            let accn = play_fields_of(g, track, st, et);
            crate::codec::sp_members(t, 1, crate::codec::empty_fields(), crate::codec::Ctx::Top)
                == Some((accn, t.len() as int))
        }),
{
    reveal_strlit("{\"op\":\"play\",\"guildId\":\"");
    reveal_strlit(",\"startTime\":");
    reveal_strlit(",\"endTime\":");
    reveal_strlit("startTime");
    reveal_strlit("endTime");
    reveal_strlit("}");
    let p_st = ",\"startTime\":"@;
    let p_et = ",\"endTime\":"@;
    let br = "}"@;
    let head = play_frame_head(g, track);
    let q = head.len() as int;
    let t = crate::encode::sp_play_msg(g, track, st, et);
    let ps = match st {
        Some(v) => p_st + dec_of(v),
        None => Seq::<char>::empty(),
    };
    let pe = match et {
        Some(v) => p_et + dec_of(v),
        None => Seq::<char>::empty(),
    };
    let tail = ps + pe + br;
    assert(t =~= head + tail);
    assert(p_st.len() == 13 && p_et.len() == 11 && br.len() == 1);
    assert(forall|j: int| q <= j < t.len() ==> #[trigger] t[j] == tail[j - q]);
    assert(t.len() == q + tail.len());
    if st is Some {
        lemma_dec_of_value(st->0);
    }
    if et is Some {
        lemma_dec_of_value(et->0);
    }
    let acc3 = crate::codec::FieldsModel {
        op: Some("play"@),
        guild_id: Some(dec_of(g)),
        track: Some(track),
        ..crate::codec::empty_fields()
    };
    let m_of = |v: int| crate::json::NumModel { neg: false, whole: v, frac4: 0, is_int: true, exp10: 0 };
    let accn: crate::codec::FieldsModel = match (st, et) {
        (None, None) => acc3,
        (Some(sv), None) => crate::codec::FieldsModel {
            start_time: Some(m_of(sv)),
            ..acc3
        },
        (None, Some(ev)) => crate::codec::FieldsModel { end_time: Some(m_of(ev)), ..acc3 },
        (Some(sv), Some(ev)) => crate::codec::FieldsModel {
            start_time: Some(m_of(sv)),
            end_time: Some(m_of(ev)),
            ..acc3
        },
    };
    assert(accn == play_fields_of(g, track, st, et));
    lemma_member_keys();
        assert(tail =~= br);
        assert(tail[0] == '}');
        lemma_play_prefix(g, track, tail);
        assert(crate::codec::sp_members(
            t,
            1,
            crate::codec::empty_fields(),
            crate::codec::Ctx::Top,
        ) == Some((accn, t.len() as int)));
}

/// The collector gathers the encoded fields from one shape of `play`
/// frame.
#[verifier::rlimit(100)]
proof fn lemma_play_members_start(g: int, track: Seq<char>, st: Option<int>, et: Option<int>)
    requires
        0 <= g <= u64::MAX,
        (match st {
            Some(v) => 0 <= v <= u64::MAX,
            None => true,
        }),
        (match et {
            Some(v) => 0 <= v <= u64::MAX,
            None => true,
        }),
        st is Some && et is None,
    ensures
        ({
            let t = crate::encode::sp_play_msg(g, track, st, et);
            let accn = play_fields_of(g, track, st, et);
            crate::codec::sp_members(t, 1, crate::codec::empty_fields(), crate::codec::Ctx::Top)
                == Some((accn, t.len() as int))
        }),
{
    reveal_strlit("{\"op\":\"play\",\"guildId\":\"");
    reveal_strlit(",\"startTime\":");
    reveal_strlit(",\"endTime\":");
    reveal_strlit("startTime");
    reveal_strlit("endTime");
    reveal_strlit("}");
    let p_st = ",\"startTime\":"@;
    let p_et = ",\"endTime\":"@;
    let br = "}"@;
    let head = play_frame_head(g, track);
    let q = head.len() as int;
    let t = crate::encode::sp_play_msg(g, track, st, et);
    let ps = match st {
        Some(v) => p_st + dec_of(v),
        None => Seq::<char>::empty(),
    };
    let pe = match et {
        Some(v) => p_et + dec_of(v),
        None => Seq::<char>::empty(),
    };
    let tail = ps + pe + br;
    assert(t =~= head + tail);
    assert(p_st.len() == 13 && p_et.len() == 11 && br.len() == 1);
    assert(forall|j: int| q <= j < t.len() ==> #[trigger] t[j] == tail[j - q]);
    assert(t.len() == q + tail.len());
    if st is Some {
        lemma_dec_of_value(st->0);
    }
    if et is Some {
        lemma_dec_of_value(et->0);
    }
    let acc3 = crate::codec::FieldsModel {
        op: Some("play"@),
        guild_id: Some(dec_of(g)),
        track: Some(track),
        ..crate::codec::empty_fields()
    };
    let m_of = |v: int| crate::json::NumModel { neg: false, whole: v, frac4: 0, is_int: true, exp10: 0 };
    let accn: crate::codec::FieldsModel = match (st, et) {
        (None, None) => acc3,
        (Some(sv), None) => crate::codec::FieldsModel {
            start_time: Some(m_of(sv)),
            ..acc3
        },
        (None, Some(ev)) => crate::codec::FieldsModel { end_time: Some(m_of(ev)), ..acc3 },
        (Some(sv), Some(ev)) => crate::codec::FieldsModel {
            start_time: Some(m_of(sv)),
            end_time: Some(m_of(ev)),
            ..acc3
        },
    };
    assert(accn == play_fields_of(g, track, st, et));
    lemma_member_keys();
        let sv = st->0;
        let dv = dec_of(sv);
        let sl = dv.len() as int;
        assert(tail =~= p_st + dv + br);
        assert(tail[0] == ',' && tail[1] == '"');
        lemma_play_prefix(g, track, tail);
        assert(forall|j: int| 0 <= j < 13 ==> #[trigger] tail[j] == p_st[j]);
        assert(forall|j: int| 13 <= j < 13 + sl ==> #[trigger] tail[j] == dv[j - 13]);
        assert(tail[13 + sl] == '}');
        assert(t.subrange(q + 2, q + 11) =~= "startTime"@) by {
            assert forall|k: int| 0 <= k < 9 implies t.subrange(q + 2, q + 11)[k]
                == "startTime"@[k] by {
                assert(t.subrange(q + 2, q + 11)[k] == t[q + 2 + k]);
                assert(tail[2 + k] == p_st[2 + k]);
            }
        }
        assert(t[q + 1] == '"' && t[q + 11] == '"' && t[q + 12] == ':');
        assert(t.subrange(q + 13, q + 13 + sl) =~= dv) by {
            assert forall|k: int| 0 <= k < sl implies t.subrange(q + 13, q + 13 + sl)[k]
                == dv[k] by {
                assert(t.subrange(q + 13, q + 13 + sl)[k] == t[q + 13 + k]);
                assert(tail[13 + k] == dv[k]);
            }
        }
        assert(t[q + 13 + sl] == '}');
        lemma_num_member(t, q + 1, "startTime"@, sv, acc3);
        assert(crate::codec::sp_set_num(acc3, crate::codec::Ctx::Top, "startTime"@, m_of(sv))
            == accn);
        assert(crate::codec::sp_members(
            t,
            1,
            crate::codec::empty_fields(),
            crate::codec::Ctx::Top,
        ) == Some((accn, t.len() as int)));
}

/// The collector gathers the encoded fields from one shape of `play`
/// frame.
#[verifier::rlimit(100)]
proof fn lemma_play_members_end(g: int, track: Seq<char>, st: Option<int>, et: Option<int>)
    requires
        0 <= g <= u64::MAX,
        (match st {
            Some(v) => 0 <= v <= u64::MAX,
            None => true,
        }),
        (match et {
            Some(v) => 0 <= v <= u64::MAX,
            None => true,
        }),
        st is None && et is Some,
    ensures
        ({
            let t = crate::encode::sp_play_msg(g, track, st, et);
            let accn = play_fields_of(g, track, st, et);
            crate::codec::sp_members(t, 1, crate::codec::empty_fields(), crate::codec::Ctx::Top)
                == Some((accn, t.len() as int))
        }),
{
    reveal_strlit("{\"op\":\"play\",\"guildId\":\"");
    reveal_strlit(",\"startTime\":");
    reveal_strlit(",\"endTime\":");
    reveal_strlit("startTime");
    reveal_strlit("endTime");
    reveal_strlit("}");
    let p_st = ",\"startTime\":"@;
    let p_et = ",\"endTime\":"@;
    let br = "}"@;
    let head = play_frame_head(g, track);
    let q = head.len() as int;
    let t = crate::encode::sp_play_msg(g, track, st, et);
    let ps = match st {
        Some(v) => p_st + dec_of(v),
        None => Seq::<char>::empty(),
    };
    let pe = match et {
        Some(v) => p_et + dec_of(v),
        None => Seq::<char>::empty(),
    };
    let tail = ps + pe + br;
    assert(t =~= head + tail);
    assert(p_st.len() == 13 && p_et.len() == 11 && br.len() == 1);
    assert(forall|j: int| q <= j < t.len() ==> #[trigger] t[j] == tail[j - q]);
    assert(t.len() == q + tail.len());
    if st is Some {
        lemma_dec_of_value(st->0);
    }
    if et is Some {
        lemma_dec_of_value(et->0);
    }
    let acc3 = crate::codec::FieldsModel {
        op: Some("play"@),
        guild_id: Some(dec_of(g)),
        track: Some(track),
        ..crate::codec::empty_fields()
    };
    let m_of = |v: int| crate::json::NumModel { neg: false, whole: v, frac4: 0, is_int: true, exp10: 0 };
    let accn: crate::codec::FieldsModel = match (st, et) {
        (None, None) => acc3,
        (Some(sv), None) => crate::codec::FieldsModel {
            start_time: Some(m_of(sv)),
            ..acc3
        },
        (None, Some(ev)) => crate::codec::FieldsModel { end_time: Some(m_of(ev)), ..acc3 },
        (Some(sv), Some(ev)) => crate::codec::FieldsModel {
            start_time: Some(m_of(sv)),
            end_time: Some(m_of(ev)),
            ..acc3
        },
    };
    assert(accn == play_fields_of(g, track, st, et));
    lemma_member_keys();
        let ev = et->0;
        let dv = dec_of(ev);
        let tl = dv.len() as int;
        assert(tail =~= p_et + dv + br);
        assert(tail[0] == ',' && tail[1] == '"');
        lemma_play_prefix(g, track, tail);
        assert(forall|j: int| 0 <= j < 11 ==> #[trigger] tail[j] == p_et[j]);
        assert(forall|j: int| 11 <= j < 11 + tl ==> #[trigger] tail[j] == dv[j - 11]);
        assert(tail[11 + tl] == '}');
        assert(t.subrange(q + 2, q + 9) =~= "endTime"@) by {
            assert forall|k: int| 0 <= k < 7 implies t.subrange(q + 2, q + 9)[k]
                == "endTime"@[k] by {
                assert(t.subrange(q + 2, q + 9)[k] == t[q + 2 + k]);
                assert(tail[2 + k] == p_et[2 + k]);
            }
        }
        assert(t[q + 1] == '"' && t[q + 9] == '"' && t[q + 10] == ':');
        assert(t.subrange(q + 11, q + 11 + tl) =~= dv) by {
            assert forall|k: int| 0 <= k < tl implies t.subrange(q + 11, q + 11 + tl)[k]
                == dv[k] by {
                assert(t.subrange(q + 11, q + 11 + tl)[k] == t[q + 11 + k]);
                assert(tail[11 + k] == dv[k]);
            }
        }
        assert(t[q + 11 + tl] == '}');
        lemma_num_member(t, q + 1, "endTime"@, ev, acc3);
        assert(crate::codec::sp_set_num(acc3, crate::codec::Ctx::Top, "endTime"@, m_of(ev))
            == accn);
        assert(crate::codec::sp_members(
            t,
            1,
            crate::codec::empty_fields(),
            crate::codec::Ctx::Top,
        ) == Some((accn, t.len() as int)));
}

/// The collector gathers the encoded fields from one shape of `play`
/// frame.
#[verifier::rlimit(100)]
proof fn lemma_play_members_both(g: int, track: Seq<char>, st: Option<int>, et: Option<int>)
    requires
        0 <= g <= u64::MAX,
        (match st {
            Some(v) => 0 <= v <= u64::MAX,
            None => true,
        }),
        (match et {
            Some(v) => 0 <= v <= u64::MAX,
            None => true,
        }),
        st is Some && et is Some,
    ensures
        ({
            let t = crate::encode::sp_play_msg(g, track, st, et);
            let accn = play_fields_of(g, track, st, et);
            crate::codec::sp_members(t, 1, crate::codec::empty_fields(), crate::codec::Ctx::Top)
                == Some((accn, t.len() as int))
        }),
{
    reveal_strlit("{\"op\":\"play\",\"guildId\":\"");
    reveal_strlit(",\"startTime\":");
    reveal_strlit(",\"endTime\":");
    reveal_strlit("startTime");
    reveal_strlit("endTime");
    reveal_strlit("}");
    let p_st = ",\"startTime\":"@;
    let p_et = ",\"endTime\":"@;
    let br = "}"@;
    let head = play_frame_head(g, track);
    let q = head.len() as int;
    let t = crate::encode::sp_play_msg(g, track, st, et);
    let ps = match st {
        Some(v) => p_st + dec_of(v),
        None => Seq::<char>::empty(),
    };
    let pe = match et {
        Some(v) => p_et + dec_of(v),
        None => Seq::<char>::empty(),
    };
    let tail = ps + pe + br;
    assert(t =~= head + tail);
    assert(p_st.len() == 13 && p_et.len() == 11 && br.len() == 1);
    assert(forall|j: int| q <= j < t.len() ==> #[trigger] t[j] == tail[j - q]);
    assert(t.len() == q + tail.len());
    if st is Some {
        lemma_dec_of_value(st->0);
    }
    if et is Some {
        lemma_dec_of_value(et->0);
    }
    let acc3 = crate::codec::FieldsModel {
        op: Some("play"@),
        guild_id: Some(dec_of(g)),
        track: Some(track),
        ..crate::codec::empty_fields()
    };
    let m_of = |v: int| crate::json::NumModel { neg: false, whole: v, frac4: 0, is_int: true, exp10: 0 };
    let accn: crate::codec::FieldsModel = match (st, et) {
        (None, None) => acc3,
        (Some(sv), None) => crate::codec::FieldsModel {
            start_time: Some(m_of(sv)),
            ..acc3
        },
        (None, Some(ev)) => crate::codec::FieldsModel { end_time: Some(m_of(ev)), ..acc3 },
        (Some(sv), Some(ev)) => crate::codec::FieldsModel {
            start_time: Some(m_of(sv)),
            end_time: Some(m_of(ev)),
            ..acc3
        },
    };
    assert(accn == play_fields_of(g, track, st, et));
    lemma_member_keys();
        let sv = st->0;
        let ev = et->0;
        let dsv = dec_of(sv);
        let dev = dec_of(ev);
        let sl = dsv.len() as int;
        let tl = dev.len() as int;
        let acc4 = crate::codec::FieldsModel { start_time: Some(m_of(sv)), ..acc3 };
        assert(tail =~= p_st + dsv + (p_et + dev + br));
        assert(tail[0] == ',' && tail[1] == '"');
        lemma_play_prefix(g, track, tail);
        assert(forall|j: int| 0 <= j < 13 ==> #[trigger] tail[j] == p_st[j]);
        assert(forall|j: int| 13 <= j < 13 + sl ==> #[trigger] tail[j] == dsv[j - 13]);
        assert(forall|j: int|
            13 + sl <= j < 24 + sl ==> #[trigger] tail[j] == p_et[j - 13 - sl]);
        assert(forall|j: int|
            24 + sl <= j < 24 + sl + tl ==> #[trigger] tail[j] == dev[j - 24 - sl]);
        assert(tail[24 + sl + tl] == '}');
        assert(t.subrange(q + 2, q + 11) =~= "startTime"@) by {
            assert forall|k: int| 0 <= k < 9 implies t.subrange(q + 2, q + 11)[k]
                == "startTime"@[k] by {
                assert(t.subrange(q + 2, q + 11)[k] == t[q + 2 + k]);
                assert(tail[2 + k] == p_st[2 + k]);
            }
        }
        assert(t[q + 1] == '"' && t[q + 11] == '"' && t[q + 12] == ':');
        assert(t.subrange(q + 13, q + 13 + sl) =~= dsv) by {
            assert forall|k: int| 0 <= k < sl implies t.subrange(q + 13, q + 13 + sl)[k]
                == dsv[k] by {
                assert(t.subrange(q + 13, q + 13 + sl)[k] == t[q + 13 + k]);
                assert(tail[13 + k] == dsv[k]);
            }
        }
        let w = q + 13 + sl;
        assert(t[w] == ',') by {
            assert(t[w] == tail[13 + sl]);
            assert(tail[13 + sl] == p_et[0]);
        }
        lemma_num_member(t, q + 1, "startTime"@, sv, acc3);
        assert(crate::codec::sp_set_num(acc3, crate::codec::Ctx::Top, "startTime"@, m_of(sv))
            == acc4);
        assert(t[w + 1] == '"') by {
            assert(t[w + 1] == tail[13 + sl + 1]);
            assert(tail[13 + sl + 1] == p_et[1]);
        }
        assert(sp_ws(t, w + 1) == w + 1);
        assert(t.subrange(w + 2, w + 9) =~= "endTime"@) by {
            assert forall|k: int| 0 <= k < 7 implies t.subrange(w + 2, w + 9)[k]
                == "endTime"@[k] by {
                assert(t.subrange(w + 2, w + 9)[k] == t[w + 2 + k]);
                assert(tail[13 + sl + 2 + k] == p_et[2 + k]);
            }
        }
        assert(t[w + 9] == '"' && t[w + 10] == ':') by {
            assert(t[w + 9] == tail[13 + sl + 9]);
            assert(tail[13 + sl + 9] == p_et[9]);
            assert(t[w + 10] == tail[13 + sl + 10]);
            assert(tail[13 + sl + 10] == p_et[10]);
        }
        assert(t.subrange(w + 11, w + 11 + tl) =~= dev) by {
            assert forall|k: int| 0 <= k < tl implies t.subrange(w + 11, w + 11 + tl)[k]
                == dev[k] by {
                assert(t.subrange(w + 11, w + 11 + tl)[k] == t[w + 11 + k]);
                assert(tail[24 + sl + k] == dev[k]);
            }
        }
        assert(t[w + 11 + tl] == '}') by {
            assert(t[w + 11 + tl] == tail[24 + sl + tl]);
        }
        lemma_num_member(t, w + 1, "endTime"@, ev, acc4);
        assert(crate::codec::sp_set_num(acc4, crate::codec::Ctx::Top, "endTime"@, m_of(ev))
            == accn);
        assert(crate::codec::sp_members(
            t,
            1,
            crate::codec::empty_fields(),
            crate::codec::Ctx::Top,
        ) == Some((accn, t.len() as int)));
}

/// The collector gathers exactly the encoded fields from a `play` frame.
proof fn lemma_play_members(g: int, track: Seq<char>, st: Option<int>, et: Option<int>)
    requires
        0 <= g <= u64::MAX,
        (match st {
            Some(v) => 0 <= v <= u64::MAX,
            None => true,
        }),
        (match et {
            Some(v) => 0 <= v <= u64::MAX,
            None => true,
        }),
    ensures
        ({
            let t = crate::encode::sp_play_msg(g, track, st, et);
            let accn = play_fields_of(g, track, st, et);
            crate::codec::sp_members(t, 1, crate::codec::empty_fields(), crate::codec::Ctx::Top)
                == Some((accn, t.len() as int))
        }),
{
    if st is None && et is None {
        lemma_play_members_plain(g, track, st, et);
    } else if st is Some && et is None {
        lemma_play_members_start(g, track, st, et);
    } else if st is None && et is Some {
        lemma_play_members_end(g, track, st, et);
    } else {
        lemma_play_members_both(g, track, st, et);
    }
}

/// Encoding the `play` command for any guild, track, and optional start
/// and end offsets, then decoding the frame, yields the same command back:
/// the codec round-trips it exactly.
#[verifier::rlimit(80)]
pub proof fn lemma_play_round_trip(g: int, track: Seq<char>, st: Option<int>, et: Option<int>)
    requires
        0 <= g <= u64::MAX,
        (match st {
            Some(v) => 0 <= v <= u64::MAX,
            None => true,
        }),
        (match et {
            Some(v) => 0 <= v <= u64::MAX,
            None => true,
        }),
    ensures
        crate::envelope::sp_decode(crate::encode::sp_play_msg(g, track, st, et)) == Some(
            crate::envelope::EnvModel::Play { guild_id: g, track, start_time: st, end_time: et },
        ),
{
    reveal_strlit("{\"op\":\"play\",\"guildId\":\"");
    let t = crate::encode::sp_play_msg(g, track, st, et);
    let accn = play_fields_of(g, track, st, et);
    lemma_play_members(g, track, st, et);
    assert(t[0] == '{' && t[1] == '"') by {
        let head = play_frame_head(g, track);
        assert(t =~= head + (t.subrange(head.len() as int, t.len() as int)));
        assert(t[0] == head[0]);
        assert(t[1] == head[1]);
        assert(head[0] == "{\"op\":\"play\",\"guildId\":\""@[0]);
        assert(head[1] == "{\"op\":\"play\",\"guildId\":\""@[1]);
    }
    assert(sp_ws(t, 0) == 0);
    assert(sp_ws(t, 1) == 1);
    assert(t.len() >= 2) by {
        assert(play_frame_head(g, track).len() >= 2);
    }
    assert(crate::codec::sp_object(t, 1, crate::codec::empty_fields(), crate::codec::Ctx::Top)
        == Some((accn, t.len() as int)));
    assert(sp_ws(t, t.len() as int) == t.len());
    assert(crate::codec::sp_fields_of_text(t) == Some(accn));
    lemma_play_fields(accn, g, track, st, et);
}


} // verus!
