//! Dispatching inbound frames: opcode routing, player-state effects, stats
//! absorption, and the bridge calls and replies that come out of it.

use futures::sync::mpsc;

use lavalink_futures::channel::OutboundFrame;
use lavalink_futures::nodes::node::{
    bridge_reply, handle_message, read_step, BridgeCall, BridgeOutcome, Node, ReadStep,
    SocketFrame,
};
use lavalink_futures::nodes::{NodeConfig, NodeManager, State};
use lavalink_futures::player::AudioPlayerManager;

fn sender() -> mpsc::Sender<OutboundFrame> {
    let (tx, _rx) = mpsc::channel::<OutboundFrame>(8);
    tx
}

#[test]
fn track_end_resets_the_player_and_asks_for_the_bridge_call() {
    // An end-of-track event for an existing player clears its track and
    // zeroes clock and position, and asks for exactly one trackEnd call.
    let mut players = AudioPlayerManager::new();
    players.create(1, sender()).unwrap();
    players.get_mut(&1).unwrap().track = Some(String::from("t"));
    players.get_mut(&1).unwrap().time = 77;
    players.get_mut(&1).unwrap().position = 33;
    let mut state = State { stats: None };
    let r = handle_message(
        &mut state,
        &mut players,
        "{\"op\":\"event\",\"type\":\"TrackEndEvent\",\"guildId\":\"1\",\"track\":\"t\",\"reason\":\"FINISHED\"}",
    );
    assert_eq!(
        r,
        Some(BridgeCall::TrackEnd {
            track: String::from("t"),
            reason: String::from("FINISHED"),
        })
    );
    let p = players.get(&1).unwrap();
    assert_eq!(p.track, None);
    assert_eq!(p.time, 0);
    assert_eq!(p.position, 0);
}

#[test]
fn event_for_unknown_guild_is_dropped() {
    let mut players = AudioPlayerManager::new();
    let mut state = State { stats: None };
    let r = handle_message(
        &mut state,
        &mut players,
        "{\"op\":\"event\",\"type\":\"TrackEndEvent\",\"guildId\":\"1\",\"track\":\"t\",\"reason\":\"FINISHED\"}",
    );
    assert_eq!(r, None);
    assert!(!players.has(&1));
}

#[test]
fn player_update_overwrites_time_and_position() {
    let mut players = AudioPlayerManager::new();
    players.create(2, sender()).unwrap();
    let mut state = State { stats: None };
    let r = handle_message(
        &mut state,
        &mut players,
        "{\"op\":\"playerUpdate\",\"guildId\":\"2\",\"state\":{\"time\":1000,\"position\":500}}",
    );
    assert_eq!(r, None);
    let p = players.get(&2).unwrap();
    assert_eq!(p.time, 1000);
    assert_eq!(p.position, 500);
}

#[test]
fn player_update_for_unknown_guild_is_a_no_op() {
    // No player is fabricated and nothing fails.
    let mut players = AudioPlayerManager::new();
    let mut state = State { stats: None };
    let r = handle_message(
        &mut state,
        &mut players,
        "{\"op\":\"playerUpdate\",\"guildId\":\"2\",\"state\":{\"time\":1000,\"position\":500}}",
    );
    assert_eq!(r, None);
    assert!(!players.has(&2));
}

#[test]
fn stats_frame_overwrites_the_snapshot() {
    let mut players = AudioPlayerManager::new();
    let mut state = State { stats: None };
    let r = handle_message(
        &mut state,
        &mut players,
        "{\"op\":\"stats\",\"cpu\":{\"cores\":4,\"systemLoad\":0.25},\"playingPlayers\":5,\"uptime\":93}",
    );
    assert_eq!(r, None);
    let st = state.stats.unwrap();
    assert_eq!(st.system_load_myriadths, 2500);
    assert_eq!(st.playing_players, 5);
    assert_eq!(st.frame_stats, None);
}

#[test]
fn stats_frame_with_frame_stats() {
    let mut players = AudioPlayerManager::new();
    let mut state = State { stats: None };
    handle_message(
        &mut state,
        &mut players,
        "{\"op\":\"stats\",\"cpu\":{\"systemLoad\":1.0},\"frameStats\":{\"sent\":3000,\"deficit\":600,\"nulled\":30},\"playingPlayers\":0}",
    );
    let st = state.stats.unwrap();
    assert_eq!(st.system_load_myriadths, 10000);
    let fs = st.frame_stats.unwrap();
    assert_eq!(fs.deficit, 600);
    assert_eq!(fs.nulled, 30);
}

#[test]
fn gateway_requests_become_bridge_calls() {
    let mut players = AudioPlayerManager::new();
    let mut state = State { stats: None };
    let r = handle_message(
        &mut state,
        &mut players,
        "{\"op\":\"sendWS\",\"shardId\":3,\"message\":\"hello\"}",
    );
    assert_eq!(
        r,
        Some(BridgeCall::Forward { shard_id: 3, message: String::from("hello") })
    );
    let r = handle_message(
        &mut state,
        &mut players,
        "{\"op\":\"validationReq\",\"guildId\":\"19\",\"channelId\":\"77\"}",
    );
    assert_eq!(
        r,
        Some(BridgeCall::IsValid {
            guild_id: String::from("19"),
            channel_id: Some(String::from("77")),
        })
    );
    let r = handle_message(
        &mut state,
        &mut players,
        "{\"op\":\"isConnectedReq\",\"shardId\":2}",
    );
    assert_eq!(r, Some(BridgeCall::IsConnected { shard_id: 2 }));
}

#[test]
fn malformed_and_unknown_frames_are_dropped() {
    let mut players = AudioPlayerManager::new();
    let mut state = State { stats: None };
    for text in [
        "",
        "not json",
        "{\"op\":\"stats\"",
        "{\"no\":\"opcode\"}",
        "{\"op\":\"somethingElse\",\"guildId\":\"1\"}",
        "{\"op\":\"playerUpdate\",\"guildId\":\"2\"}",
        "{\"op\":\"event\",\"type\":\"OtherEvent\",\"guildId\":\"1\",\"track\":\"t\"}",
        "[1,2,3]",
        "{\"op\":\"stats\",\"playingPlayers\":5}",
    ] {
        assert_eq!(handle_message(&mut state, &mut players, text), None);
        assert!(state.stats.is_none());
    }
}

#[test]
fn track_exception_and_stuck_leave_the_player_untouched() {
    let mut players = AudioPlayerManager::new();
    players.create(1, sender()).unwrap();
    players.get_mut(&1).unwrap().track = Some(String::from("t"));
    let mut state = State { stats: None };
    let r = handle_message(
        &mut state,
        &mut players,
        "{\"op\":\"event\",\"type\":\"TrackExceptionEvent\",\"guildId\":\"1\",\"track\":\"t\",\"error\":\"boom\"}",
    );
    assert_eq!(
        r,
        Some(BridgeCall::TrackException {
            track: String::from("t"),
            error: String::from("boom"),
        })
    );
    let r = handle_message(
        &mut state,
        &mut players,
        "{\"op\":\"event\",\"type\":\"TrackStuckEvent\",\"guildId\":\"1\",\"track\":\"t\",\"thresholdMs\":250}",
    );
    assert_eq!(
        r,
        Some(BridgeCall::TrackStuck { track: String::from("t"), threshold_ms: 250 })
    );
    assert_eq!(players.get(&1).unwrap().track, Some(String::from("t")));
}

#[test]
fn dispatch_frame_routes_to_the_named_node() {
    let mut manager = NodeManager::new();
    manager.add_node(Node::new(
        NodeConfig {
            http_host: String::from("http://127.0.0.1:2333"),
            websocket_host: String::from("ws://a:2333"),
            user_id: String::from("10012"),
            password: String::from("youshallnotpass"),
            num_shards: 1,
        },
        sender(),
    ));
    let text = "{\"op\":\"stats\",\"cpu\":{\"systemLoad\":0},\"playingPlayers\":5}";
    assert_eq!(manager.dispatch_frame("ws://nowhere:1", text), None);
    assert_eq!(manager.get_node("ws://a:2333").unwrap().penalty(), None);
    assert_eq!(manager.dispatch_frame("ws://a:2333", text), None);
    assert_eq!(manager.get_node("ws://a:2333").unwrap().penalty(), Some(5));
}

#[test]
fn read_loop_classification() {
    assert_eq!(read_step(SocketFrame::Close), ReadStep::CloseAndStop);
    assert_eq!(
        read_step(SocketFrame::Ping(vec![1, 2])),
        ReadStep::ReplyPong(vec![1, 2])
    );
    assert_eq!(read_step(SocketFrame::Pong(vec![3])), ReadStep::Ignore);
    assert_eq!(
        read_step(SocketFrame::Text(String::from("{}"))),
        ReadStep::Dispatch(String::from("{}"))
    );
    assert_eq!(
        read_step(SocketFrame::Binary(b"{\"op\":1}".to_vec())),
        ReadStep::Dispatch(String::from("{\"op\":1}"))
    );
    assert_eq!(read_step(SocketFrame::Binary(vec![0xff, 0xfe])), ReadStep::Ignore);
}

#[test]
fn bridge_replies() {
    let forward = BridgeCall::Forward { shard_id: 1, message: String::from("m") };
    assert_eq!(
        bridge_reply(&forward, BridgeOutcome::Forwarded(Some(String::from("out")))),
        Some(String::from("out"))
    );
    assert_eq!(bridge_reply(&forward, BridgeOutcome::Forwarded(None)), None);
    let valid = BridgeCall::IsValid {
        guild_id: String::from("19"),
        channel_id: Some(String::from("77")),
    };
    assert_eq!(
        bridge_reply(&valid, BridgeOutcome::Flag(true)),
        Some(String::from("{\"guildId\":\"19\",\"channelId\":\"77\",\"valid\":true}"))
    );
    let connected = BridgeCall::IsConnected { shard_id: 2 };
    assert_eq!(
        bridge_reply(&connected, BridgeOutcome::Flag(false)),
        Some(String::from("{\"shardId\":2,\"connected\":false}"))
    );
    let end = BridgeCall::TrackEnd { track: String::from("t"), reason: String::from("r") };
    assert_eq!(bridge_reply(&end, BridgeOutcome::Done), None);
    assert_eq!(bridge_reply(&forward, BridgeOutcome::Done), None);
}
