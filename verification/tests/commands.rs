//! Player commands: the frames they enqueue on the bound channel, the
//! optimistic volume update, and the send failure when the channel is gone.

use futures::stream::Stream;
use futures::sync::mpsc;

use lavalink_futures::channel::OutboundFrame;
use lavalink_futures::player::AudioPlayer;
use lavalink_futures::Error;

fn drain(rx: mpsc::Receiver<OutboundFrame>) -> Vec<OutboundFrame> {
    rx.wait().map(|r| r.unwrap()).collect()
}

#[test]
fn commands_enqueue_their_frames_in_order() {
    let (tx, rx) = mpsc::channel::<OutboundFrame>(16);
    let mut player = AudioPlayer::new(7, tx);
    player.join("123").unwrap();
    player.play("abc", Some(10), Some(20)).unwrap();
    player.pause(true).unwrap();
    player.seek(1500).unwrap();
    player.volume(110).unwrap();
    player.stop().unwrap();
    player.leave().unwrap();
    drop(player);
    let frames = drain(rx);
    let expected = vec![
        "{\"op\":\"connect\",\"guildId\":\"7\",\"channelId\":\"123\"}",
        "{\"op\":\"play\",\"guildId\":\"7\",\"track\":\"abc\",\"startTime\":10,\"endTime\":20}",
        "{\"op\":\"pause\",\"guildId\":\"7\",\"pause\":true}",
        "{\"op\":\"seek\",\"guildId\":\"7\",\"position\":1500}",
        "{\"op\":\"volume\",\"guildId\":\"7\",\"volume\":110}",
        "{\"op\":\"stop\",\"guildId\":\"7\"}",
        "{\"op\":\"disconnect\",\"guildId\":\"7\"}",
    ];
    assert_eq!(frames.len(), expected.len());
    for (frame, want) in frames.iter().zip(expected.iter()) {
        match frame {
            OutboundFrame::Text(text) => assert_eq!(text, want),
            other => panic!("unexpected frame {:?}", other),
        }
    }
}

#[test]
fn volume_updates_the_local_setting() {
    let (tx, _rx) = mpsc::channel::<OutboundFrame>(8);
    let mut player = AudioPlayer::new(7, tx);
    assert_eq!(player.volume, 100);
    let _ = player.volume(150);
    assert_eq!(player.volume, 150);
}

#[test]
fn pause_does_not_touch_local_state() {
    let (tx, rx) = mpsc::channel::<OutboundFrame>(8);
    let mut player = AudioPlayer::new(7, tx);
    player.pause(true).unwrap();
    assert!(!player.paused);
    drop(player);
    drop(rx);
}

#[test]
fn send_fails_when_the_receiver_is_gone() {
    let (tx, rx) = mpsc::channel::<OutboundFrame>(8);
    drop(rx);
    let mut player = AudioPlayer::new(7, tx);
    assert_eq!(player.play("abc", None, None), Err(Error::SendFailure));
    assert_eq!(
        player.send(OutboundFrame::Close),
        Err(Error::SendFailure)
    );
}

#[test]
fn node_close_enqueues_a_close_frame() {
    let (tx, rx) = mpsc::channel::<OutboundFrame>(8);
    let mut node = lavalink_futures::nodes::node::Node::new(
        lavalink_futures::nodes::NodeConfig {
            http_host: String::from("http://127.0.0.1:2333"),
            websocket_host: String::from("ws://127.0.0.1:2333"),
            user_id: String::from("10012"),
            password: String::from("youshallnotpass"),
            num_shards: 1,
        },
        tx,
    );
    node.close().unwrap();
    drop(node);
    let frames = drain(rx);
    assert_eq!(frames, vec![OutboundFrame::Close]);
}

#[test]
fn handshake_headers_carry_the_config() {
    let headers = lavalink_futures::nodes::handshake_headers(
        &lavalink_futures::nodes::NodeConfig {
            http_host: String::from("http://127.0.0.1:2333"),
            websocket_host: String::from("ws://127.0.0.1:2333"),
            user_id: String::from("10012"),
            password: String::from("youshallnotpass"),
            num_shards: 64,
        },
    );
    assert_eq!(headers.authorization, "youshallnotpass");
    assert_eq!(headers.num_shards, "64");
    assert_eq!(headers.user_id, "10012");
}

#[test]
fn full_channel_refuses_the_frame() {
    // A zero-capacity channel accepts one frame per sender, then refuses
    // further ones until the writer drains it; the refusal is an error,
    // not a silent drop, and nothing panics outside a task context.
    let (tx, rx) = mpsc::channel::<OutboundFrame>(0);
    let mut player = AudioPlayer::new(7, tx);
    assert_eq!(player.stop(), Ok(()));
    assert_eq!(player.stop(), Err(Error::SendFailure));
    drop(player);
    let frames = drain(rx);
    assert_eq!(frames.len(), 1);
}
