//! The penalty score: unavailable before stats, deterministic afterwards,
//! and the documented example values.

use futures::sync::mpsc;

use lavalink_futures::channel::OutboundFrame;
use lavalink_futures::nodes::node::Node;
use lavalink_futures::nodes::NodeConfig;
use lavalink_futures::stats::{FrameStats, NodeStats};

fn test_node() -> Node {
    let (tx, _rx) = mpsc::channel::<OutboundFrame>(8);
    Node::new(
        NodeConfig {
            http_host: String::from("http://127.0.0.1:2333"),
            websocket_host: String::from("ws://127.0.0.1:2333"),
            user_id: String::from("10012"),
            password: String::from("youshallnotpass"),
            num_shards: 1,
        },
        tx,
    )
}

#[test]
fn penalty_unavailable_before_any_stats_frame() {
    let node = test_node();
    assert_eq!(node.penalty(), None);
}

#[test]
fn penalty_deterministic_given_same_stats() {
    let mut a = test_node();
    let mut b = test_node();
    let stats = NodeStats {
        system_load_myriadths: 2534,
        frame_stats: Some(FrameStats { deficit: 600, nulled: 30 }),
        playing_players: 7,
    };
    a.state.stats = Some(stats);
    b.state.stats = Some(stats);
    let pa = a.penalty();
    assert!(pa.is_some());
    assert_eq!(pa, b.penalty());
    assert_eq!(pa, a.penalty());
}

#[test]
fn penalty_zero_load_no_frames_counts_players() {
    // systemLoad = 0, no frame stats, five playing players: penalty 5.
    let mut node = test_node();
    node.state.stats = Some(NodeStats {
        system_load_myriadths: 0,
        frame_stats: None,
        playing_players: 5,
    });
    assert_eq!(node.penalty(), Some(5));
}

#[test]
fn penalty_full_load_no_frames() {
    // systemLoad = 1.0, no frame stats, no players: the processor curve
    // alone gives 1305.
    let mut node = test_node();
    node.state.stats = Some(NodeStats {
        system_load_myriadths: 10000,
        frame_stats: None,
        playing_players: 0,
    });
    assert_eq!(node.penalty(), Some(1305));
}

#[test]
fn penalty_counts_frame_deficit() {
    let mut node = test_node();
    node.state.stats = Some(NodeStats {
        system_load_myriadths: 0,
        frame_stats: Some(FrameStats { deficit: 600, nulled: 0 }),
        playing_players: 2,
    });
    assert_eq!(node.penalty(), Some(2 + 5465));
}

#[test]
fn penalty_doubles_nulled_frames() {
    let mut node = test_node();
    node.state.stats = Some(NodeStats {
        system_load_myriadths: 0,
        frame_stats: Some(FrameStats { deficit: 0, nulled: 600 }),
        playing_players: 2,
    });
    assert_eq!(node.penalty(), Some(2 + 2 * 5465));
}
