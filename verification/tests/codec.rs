//! The message codec: exact encoded frames, decoding of envelopes, the
//! play round trip, and a cross-check of the encoder against an
//! independent JSON parser.

use lavalink_futures::encode::{
    connect_message, connected_reply, disconnect_message, pause_message, play_message,
    seek_message, stop_message, validation_reply, volume_message,
};
use lavalink_futures::envelope::{decode_envelope, Envelope};

#[test]
fn encoded_command_frames_are_exact() {
    assert_eq!(
        connect_message(7, "123"),
        "{\"op\":\"connect\",\"guildId\":\"7\",\"channelId\":\"123\"}"
    );
    assert_eq!(
        disconnect_message(7),
        "{\"op\":\"disconnect\",\"guildId\":\"7\"}"
    );
    assert_eq!(
        pause_message(7, true),
        "{\"op\":\"pause\",\"guildId\":\"7\",\"pause\":true}"
    );
    assert_eq!(
        play_message(7, "abc", Some(10), Some(20)),
        "{\"op\":\"play\",\"guildId\":\"7\",\"track\":\"abc\",\"startTime\":10,\"endTime\":20}"
    );
    assert_eq!(
        play_message(7, "abc", None, None),
        "{\"op\":\"play\",\"guildId\":\"7\",\"track\":\"abc\"}"
    );
    assert_eq!(
        seek_message(7, -1500),
        "{\"op\":\"seek\",\"guildId\":\"7\",\"position\":-1500}"
    );
    assert_eq!(stop_message(7), "{\"op\":\"stop\",\"guildId\":\"7\"}");
    assert_eq!(
        volume_message(7, 110),
        "{\"op\":\"volume\",\"guildId\":\"7\",\"volume\":110}"
    );
    assert_eq!(
        validation_reply("19", &None, false),
        "{\"guildId\":\"19\",\"valid\":false}"
    );
    assert_eq!(connected_reply(2, true), "{\"shardId\":2,\"connected\":true}");
}

#[test]
fn play_round_trip() {
    // Encoding a play command and decoding the frame yields the same
    // opcode and fields back.
    let frame = play_message(7, "abc", Some(10), Some(20));
    let env = decode_envelope(&frame).unwrap();
    assert_eq!(
        env,
        Envelope::Play {
            guild_id: 7,
            track: String::from("abc"),
            start_time: Some(10),
            end_time: Some(20),
        }
    );
}

#[test]
fn command_round_trips() {
    assert_eq!(
        decode_envelope(&connect_message(9, "555")).unwrap(),
        Envelope::Connect { guild_id: 9, channel_id: String::from("555") }
    );
    assert_eq!(
        decode_envelope(&disconnect_message(9)).unwrap(),
        Envelope::Disconnect { guild_id: 9 }
    );
    assert_eq!(
        decode_envelope(&pause_message(9, false)).unwrap(),
        Envelope::Pause { guild_id: 9, pause: false }
    );
    assert_eq!(
        decode_envelope(&seek_message(9, 64000)).unwrap(),
        Envelope::Seek { guild_id: 9, position: 64000 }
    );
    assert_eq!(
        decode_envelope(&stop_message(9)).unwrap(),
        Envelope::Stop { guild_id: 9 }
    );
    assert_eq!(
        decode_envelope(&volume_message(9, 55)).unwrap(),
        Envelope::Volume { guild_id: 9, volume: 55 }
    );
}

#[test]
fn escaped_tracks_round_trip() {
    let track = "a\"b\\c\nd\te\re\u{8}f\u{c}g/h";
    let frame = play_message(3, track, None, None);
    match decode_envelope(&frame).unwrap() {
        Envelope::Play { guild_id, track: t, start_time, end_time } => {
            assert_eq!(guild_id, 3);
            assert_eq!(t, track);
            assert_eq!(start_time, None);
            assert_eq!(end_time, None);
        },
        other => panic!("decoded {:?}", other),
    }
}

#[test]
fn encoder_agrees_with_an_independent_parser() {
    let track = "tr\"ack\\one\ntwo";
    let frame = play_message(44, track, Some(5), None);
    let v: serde_json::Value = serde_json::from_str(&frame).unwrap();
    assert_eq!(v["op"].as_str(), Some("play"));
    assert_eq!(v["guildId"].as_str(), Some("44"));
    assert_eq!(v["track"].as_str(), Some(track));
    assert_eq!(v["startTime"].as_u64(), Some(5));
    assert_eq!(v.get("endTime"), None);

    let reply = validation_reply("1\"9", &Some(String::from("77")), true);
    let v: serde_json::Value = serde_json::from_str(&reply).unwrap();
    assert_eq!(v["guildId"].as_str(), Some("1\"9"));
    assert_eq!(v["channelId"].as_str(), Some("77"));
    assert_eq!(v["valid"].as_bool(), Some(true));
}

#[test]
fn decoder_reads_what_serde_json_accepts() {
    // Spacing, reordered members, unknown members, and nested unknown
    // structures are all tolerated.
    let text = " { \"playingPlayers\" : 5 , \"unknown\" : [ 1 , { \"x\" : null } , \"s\" ] ,\n\t\"cpu\" : { \"systemLoad\" : 0.25 , \"cores\" : 8 } , \"op\" : \"stats\" } ";
    match decode_envelope(text).unwrap() {
        Envelope::Stats { stats } => {
            assert_eq!(stats.system_load_myriadths, 2500);
            assert_eq!(stats.playing_players, 5);
            assert_eq!(stats.frame_stats, None);
        },
        other => panic!("decoded {:?}", other),
    }
}

#[test]
fn number_edges() {
    // The load keeps four fractional digits and truncates the rest.
    let text = "{\"op\":\"stats\",\"cpu\":{\"systemLoad\":0.123456},\"playingPlayers\":0}";
    match decode_envelope(text).unwrap() {
        Envelope::Stats { stats } => assert_eq!(stats.system_load_myriadths, 1234),
        other => panic!("decoded {:?}", other),
    }
    // A negative load counts as zero.
    let text = "{\"op\":\"stats\",\"cpu\":{\"systemLoad\":-0.5},\"playingPlayers\":0}";
    match decode_envelope(text).unwrap() {
        Envelope::Stats { stats } => assert_eq!(stats.system_load_myriadths, 0),
        other => panic!("decoded {:?}", other),
    }
    // Exponent notation shifts the load by its power of ten.
    let text = "{\"op\":\"stats\",\"cpu\":{\"systemLoad\":1e-2},\"playingPlayers\":0}";
    match decode_envelope(text).unwrap() {
        Envelope::Stats { stats } => assert_eq!(stats.system_load_myriadths, 100),
        other => panic!("decoded {:?}", other),
    }
    // The form a Java node prints for small loads.
    let text = "{\"op\":\"stats\",\"cpu\":{\"systemLoad\":7.9E-4},\"playingPlayers\":0}";
    match decode_envelope(text).unwrap() {
        Envelope::Stats { stats } => assert_eq!(stats.system_load_myriadths, 7),
        other => panic!("decoded {:?}", other),
    }
    // A fractional position is not an integer: the frame drops.
    let text = "{\"op\":\"seek\",\"guildId\":\"1\",\"position\":1.5}";
    assert_eq!(decode_envelope(text), None);
    // An exponent-written position is not an integer either.
    let text = "{\"op\":\"seek\",\"guildId\":\"1\",\"position\":1e3}";
    assert_eq!(decode_envelope(text), None);
    // A guild id beyond u64 drops.
    let text = "{\"op\":\"stop\",\"guildId\":\"99999999999999999999999\"}";
    assert_eq!(decode_envelope(text), None);
}

#[test]
fn null_fields_count_as_absent() {
    let text = "{\"op\":\"validationReq\",\"guildId\":\"19\",\"channelId\":null}";
    assert_eq!(
        decode_envelope(text).unwrap(),
        Envelope::ValidationReq { guild_id: String::from("19"), channel_id: None }
    );
}

#[test]
fn duplicate_members_keep_the_last_value() {
    let text = "{\"op\":\"stop\",\"guildId\":\"1\",\"guildId\":\"2\"}";
    assert_eq!(decode_envelope(text).unwrap(), Envelope::Stop { guild_id: 2 });
}

#[test]
fn unknown_opcode_decodes_as_unknown() {
    assert_eq!(
        decode_envelope("{\"op\":\"destroy\",\"guildId\":\"1\"}").unwrap(),
        Envelope::Unknown
    );
}

#[test]
fn trailing_garbage_drops_the_frame() {
    assert_eq!(decode_envelope("{\"op\":\"stop\",\"guildId\":\"1\"} x"), None);
    assert_eq!(decode_envelope("{\"op\":\"stop\",\"guildId\":\"1\"}{}"), None);
}

#[test]
fn unicode_escapes_decode() {
    // Basic-plane escapes and a surrogate pair decode to their characters.
    let text = "{\"op\":\"validationReq\",\"guildId\":\"\\u0041\\u00e9\\u2764\\ud83c\\udfb5\"}";
    assert_eq!(
        decode_envelope(text).unwrap(),
        Envelope::ValidationReq {
            guild_id: String::from("A\u{e9}\u{2764}\u{1f3b5}"),
            channel_id: None,
        }
    );
    // A lone high surrogate, a lone low surrogate, and a misordered pair
    // cannot name a character: the frame drops.
    for text in [
        "{\"op\":\"stop\",\"guildId\":\"\\ud83c\"}",
        "{\"op\":\"stop\",\"guildId\":\"\\udfb5\"}",
        "{\"op\":\"stop\",\"guildId\":\"\\udfb5\\ud83c\"}",
    ] {
        assert_eq!(decode_envelope(text), None);
    }
}

#[test]
fn decoder_agrees_with_serde_json_on_escapes() {
    let text = "{\"op\":\"validationReq\",\"guildId\":\"\\u00e9\\ud83c\\udfb5\"}";
    let v: serde_json::Value = serde_json::from_str(text).unwrap();
    let expected = v["guildId"].as_str().unwrap();
    match decode_envelope(text).unwrap() {
        Envelope::ValidationReq { guild_id, .. } => assert_eq!(guild_id, expected),
        other => panic!("decoded {:?}", other),
    }
}
