//! The player registry and the node registry: at most one player per
//! guild, penalty-ranked node selection, and the error cases.

use futures::sync::mpsc;

use lavalink_futures::channel::OutboundFrame;
use lavalink_futures::nodes::node::Node;
use lavalink_futures::nodes::{NodeConfig, NodeManager};
use lavalink_futures::player::AudioPlayerManager;
use lavalink_futures::stats::NodeStats;
use lavalink_futures::Error;

fn sender() -> mpsc::Sender<OutboundFrame> {
    let (tx, _rx) = mpsc::channel::<OutboundFrame>(8);
    tx
}

fn node(ws_host: &str) -> Node {
    Node::new(
        NodeConfig {
            http_host: String::from("http://127.0.0.1:2333"),
            websocket_host: String::from(ws_host),
            user_id: String::from("10012"),
            password: String::from("youshallnotpass"),
            num_shards: 2,
        },
        sender(),
    )
}

#[test]
fn second_create_for_same_guild_fails() {
    // The first creation succeeds; a second one, before removal, fails
    // with PlayerAlreadyExists, whatever the guild id.
    let mut players = AudioPlayerManager::new();
    for g in [1u64, 7, 42, u64::MAX] {
        assert!(players.create(g, sender()).is_ok());
        assert_eq!(players.create(g, sender()), Err(Error::PlayerAlreadyExists));
    }
}

#[test]
fn create_after_removal_succeeds_again() {
    let mut players = AudioPlayerManager::new();
    assert!(players.create(9, sender()).is_ok());
    assert!(players.remove(&9));
    assert!(players.create(9, sender()).is_ok());
}

#[test]
fn remove_reports_whether_a_player_existed() {
    let mut players = AudioPlayerManager::new();
    assert!(!players.remove(&5));
    players.create(5, sender()).unwrap();
    assert!(players.remove(&5));
    assert!(!players.remove(&5));
}

#[test]
fn fresh_player_fields() {
    let mut players = AudioPlayerManager::new();
    players.create(3, sender()).unwrap();
    assert!(players.has(&3));
    assert!(!players.has(&4));
    let p = players.get(&3).unwrap();
    assert_eq!(p.guild_id, 3);
    assert!(!p.paused);
    assert_eq!(p.position, 0);
    assert_eq!(p.time, 0);
    assert_eq!(p.track, None);
    assert_eq!(p.volume, 100);
    assert!(players.get(&4).is_none());
}

#[test]
fn get_mut_reaches_the_same_player() {
    let mut players = AudioPlayerManager::new();
    players.create(3, sender()).unwrap();
    players.get_mut(&3).unwrap().time = 250;
    assert_eq!(players.get(&3).unwrap().time, 250);
    assert!(players.get_mut(&8).is_none());
}

#[test]
fn best_node_prefers_the_unavailable_node() {
    // A has never reported stats and counts as penalty zero; B carries a
    // penalty of 50: A wins regardless of registration order.
    let mut manager = NodeManager::new();
    let mut b = node("ws://b:2333");
    b.state.stats = Some(NodeStats {
        system_load_myriadths: 0,
        frame_stats: None,
        playing_players: 50,
    });
    manager.add_node(b);
    manager.add_node(node("ws://a:2333"));
    assert_eq!(manager.best_node(), Some("ws://a:2333"));
}

#[test]
fn best_node_picks_least_penalty_first_encountered() {
    let mut manager = NodeManager::new();
    for (host, players) in [("ws://a:2333", 30), ("ws://b:2333", 10), ("ws://c:2333", 10)] {
        let mut n = node(host);
        n.state.stats = Some(NodeStats {
            system_load_myriadths: 0,
            frame_stats: None,
            playing_players: players,
        });
        manager.add_node(n);
    }
    assert_eq!(manager.best_node(), Some("ws://b:2333"));
}

#[test]
fn best_node_on_empty_registry_is_none() {
    let manager = NodeManager::new();
    assert_eq!(manager.best_node(), None);
}

#[test]
fn create_player_against_named_and_best_node() {
    let mut manager = NodeManager::new();
    manager.add_node(node("ws://a:2333"));
    assert!(manager.create_player(1, Some("ws://a:2333")).is_ok());
    assert_eq!(
        manager.create_player(1, Some("ws://a:2333")),
        Err(Error::PlayerAlreadyExists)
    );
    assert!(manager.create_player(2, None).is_ok());
    assert!(manager.player_manager.has(&2));
}

#[test]
fn create_player_without_a_node_fails() {
    let mut manager = NodeManager::new();
    assert_eq!(manager.create_player(1, None), Err(Error::NodeNotFound));
    manager.add_node(node("ws://a:2333"));
    assert_eq!(
        manager.create_player(1, Some("ws://elsewhere:2333")),
        Err(Error::NodeNotFound)
    );
}

#[test]
fn remove_player_reports_existence() {
    let mut manager = NodeManager::new();
    manager.add_node(node("ws://a:2333"));
    manager.create_player(6, None).unwrap();
    assert_eq!(manager.remove_player(&6), Ok(true));
    assert_eq!(manager.remove_player(&6), Ok(false));
}

#[test]
fn add_node_overwrites_on_host_collision() {
    let mut manager = NodeManager::new();
    manager.add_node(node("ws://a:2333"));
    let mut replacement = node("ws://a:2333");
    replacement.state.stats = Some(NodeStats {
        system_load_myriadths: 0,
        frame_stats: None,
        playing_players: 3,
    });
    manager.add_node(replacement);
    let n = manager.get_node("ws://a:2333").unwrap();
    assert_eq!(n.penalty(), Some(3));
}

#[test]
fn get_node_by_host() {
    let mut manager = NodeManager::new();
    manager.add_node(node("ws://a:2333"));
    assert!(manager.get_node("ws://a:2333").is_some());
    assert!(manager.get_node("ws://b:2333").is_none());
}

#[test]
fn close_reports_whether_the_host_is_registered() {
    let mut manager = NodeManager::new();
    manager.add_node(node("ws://a:2333"));
    assert_eq!(manager.close("ws://b:2333"), Ok(false));
    // The channel's receiver is already gone, yet closing a registered
    // host still succeeds: an enqueue failure is never fatal.
    assert_eq!(manager.close("ws://a:2333"), Ok(true));
    manager.close_all();
}

#[test]
fn error_messages_name_the_cases() {
    assert!(Error::ConnectionError.message().contains("connecting"));
    assert!(Error::NodeNotFound.message().contains("node"));
    assert!(Error::PlayerAlreadyExists.message().contains("player"));
    assert!(Error::SendFailure.message().contains("channel"));
}
