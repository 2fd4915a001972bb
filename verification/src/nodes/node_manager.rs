//! The registry of node sessions: penalty-based selection of the best
//! node, player creation against a chosen node, and shutdown.

use vstd::prelude::*;

use crate::channel::clone_sender;
use crate::error::Error;
use crate::player::{fresh_player, has_guild, index_of_guild, AudioPlayerManager};
use crate::stats::sp_penalty;
use super::node::{
    handle_message, opt_call_view, sp_dispatch, BridgeCall, Node, NodeModel,
};

verus! {

/// The score a node is ranked by: its penalty, with a node that has not
/// reported stats yet counting as zero, so fresh nodes are the preferred
/// candidates.
pub open spec fn node_score(n: NodeModel) -> int {
    match n.stats {
        None => 0,
        Some(st) => sp_penalty(st),
    }
}

/// Whether some node in the sequence has the host.
pub open spec fn has_host(nodes: Seq<NodeModel>, host: Seq<char>) -> bool {
    exists|i: int| 0 <= i < nodes.len() && nodes[i].websocket_host == host
}

/// The index of the host's node in the sequence.
pub open spec fn index_of_host(nodes: Seq<NodeModel>, host: Seq<char>) -> int {
    choose|i: int| 0 <= i < nodes.len() && nodes[i].websocket_host == host
}

/// Whether no two nodes share a host.
pub open spec fn unique_hosts(nodes: Seq<NodeModel>) -> bool {
    forall|i: int, j: int|
        0 <= i < j < nodes.len() ==> nodes[i].websocket_host != nodes[j].websocket_host
}

/// The registry of node sessions, keyed by WebSocket host, and the owner
/// of the player registry shared by all of them.
#[derive(Debug)]
pub struct NodeManager {
    nodes: Vec<Node>,
    /// The players of every guild served through this manager's nodes.
    pub player_manager: AudioPlayerManager,
}

impl NodeManager {
    /// The registered nodes, as the contracts speak of them.
    pub closed spec fn spec_nodes(&self) -> Seq<NodeModel> {
        Seq::new(self.nodes@.len(), |i: int| self.nodes@[i]@)
    }

    /// The registered players, as the contracts speak of them.
    pub closed spec fn spec_players(&self) -> Seq<crate::player::PlayerModel> {
        self.player_manager@
    }

    /// Whether the registry is well formed: hosts are unique and the
    /// player registry is well formed.
    pub closed spec fn wf(&self) -> bool {
        unique_hosts(self.spec_nodes()) && self.player_manager.wf()
    }

    /// Creates an empty registry.
    pub fn new() -> (r: NodeManager)
        ensures
            r.spec_nodes() == Seq::<NodeModel>::empty(),
            r.spec_players() == Seq::<crate::player::PlayerModel>::empty(),
            r.wf(),
    {
        let r = NodeManager { nodes: Vec::new(), player_manager: AudioPlayerManager::new() };
        proof {
            assert(r.spec_nodes() =~= Seq::<NodeModel>::empty());
        }
        r
    }

    /// Finds the position of the host's node, if it has one.
    fn find(&self, websocket_host: &str) -> (r: Option<usize>)
        ensures
            match r {
                Some(i) => i < self.spec_nodes().len() && self.spec_nodes()[i as int]
                    .websocket_host == websocket_host@ && has_host(
                    self.spec_nodes(),
                    websocket_host@,
                ),
                None => !has_host(self.spec_nodes(), websocket_host@),
            },
    {
        let n = self.nodes.len();
        let mut i: usize = 0;
        while i < n
            invariant
                i <= n,
                n == self.spec_nodes().len(),
                forall|k: int| 0 <= k < i ==> self.spec_nodes()[k].websocket_host != websocket_host@,
            decreases n - i,
        {
            if crate::text::str_eq(self.nodes[i].websocket_host.as_str(), websocket_host) {
                return Some(i);
            }
            i += 1;
        }
        None
    }

    /// Registers a connected node under its WebSocket host. A node already
    /// registered under the same host is replaced silently: avoiding
    /// duplicate hosts is the caller's responsibility.
    pub fn add_node(&mut self, node: Node)
        requires
            old(self).wf(),
        ensures
            final(self).wf(),
            final(self).spec_players() == old(self).spec_players(),
            has_host(old(self).spec_nodes(), node@.websocket_host) ==> final(self).spec_nodes()
                == old(self).spec_nodes().update(
                index_of_host(old(self).spec_nodes(), node@.websocket_host),
                node@,
            ),
            !has_host(old(self).spec_nodes(), node@.websocket_host) ==> final(self).spec_nodes()
                == old(self).spec_nodes().push(node@),
    {
        match self.find(node.websocket_host.as_str()) {
            Some(i) => {
                proof {
                    let j = index_of_host(self.spec_nodes(), node@.websocket_host);
                    assert(self.spec_nodes()[j].websocket_host == node@.websocket_host);
                    assert(i == j);
                }
                self.nodes[i] = node;
                proof {
                    assert(self.spec_nodes() =~= old(self).spec_nodes().update(
                        index_of_host(old(self).spec_nodes(), node@.websocket_host),
                        node@,
                    ));
                }
            },
            None => {
                self.nodes.push(node);
                proof {
                    assert(self.spec_nodes() =~= old(self).spec_nodes().push(node@));
                }
            },
        }
    }

    /// The WebSocket host of the best node: the first node with the least
    /// score, nodes without stats scoring zero. `None` only when the
    /// registry is empty.
    pub fn best_node(&self) -> (r: Option<&str>)
        ensures
            match r {
                None => self.spec_nodes().len() == 0,
                Some(h) => exists|j: int|
                    0 <= j < self.spec_nodes().len() && h@ == self.spec_nodes()[j].websocket_host
                        && (forall|m: int|
                        0 <= m < self.spec_nodes().len() ==> node_score(self.spec_nodes()[m])
                            >= node_score(self.spec_nodes()[j])) && (forall|m: int|
                        0 <= m < j ==> node_score(self.spec_nodes()[m]) > node_score(
                            self.spec_nodes()[j],
                        )),
            },
    {
        let n = self.nodes.len();
        let mut best: usize = 0;
        let mut record: i64 = 0x7fff_ffff_ffff_ffff;
        let mut found = false;
        let mut i: usize = 0;
        while i < n
            invariant
                i <= n,
                n == self.spec_nodes().len(),
                !found ==> i == 0,
                found ==> best < i && record == node_score(self.spec_nodes()[best as int]),
                found ==> forall|m: int|
                    0 <= m < i ==> node_score(self.spec_nodes()[m]) >= record,
                found ==> forall|m: int|
                    0 <= m < best ==> node_score(self.spec_nodes()[m]) > record,
            decreases n - i,
        {
            let score: i64 = match self.nodes[i].penalty() {
                Some(p) => p as i64,
                None => 0,
            };
            if !found || score < record {
                best = i;
                record = score;
                found = true;
            }
            i += 1;
        }
        if found {
            Some(self.nodes[best].websocket_host.as_str())
        } else {
            None
        }
    }

    /// Enqueues a close frame on the host's node. `Ok(true)` when a node
    /// has the host, `Ok(false)` when none has: a channel that refuses the
    /// frame is swallowed, never fatal. The node stays registered either
    /// way.
    pub fn close(&mut self, websocket_host: &str) -> (r: Result<bool, Error>)
        requires
            old(self).wf(),
        ensures
            final(self).wf(),
            final(self).spec_nodes() == old(self).spec_nodes(),
            final(self).spec_players() == old(self).spec_players(),
            (match r {
                Ok(found) => found == has_host(old(self).spec_nodes(), websocket_host@),
                Err(e) => false,
            }),
    {
        match self.find(websocket_host) {
            Some(i) => {
                let node = &mut self.nodes[i];
                let _ = node.close();
                proof {
                    assert(self.spec_nodes() =~= old(self).spec_nodes());
                }
                Ok(true)
            },
            None => Ok(false),
        }
    }

    /// Enqueues a close frame on every node: the manager's shutdown path,
    /// to call before it is dropped. A channel that refuses its frame does
    /// not keep the others from being closed, and the whole path neither
    /// fails nor panics.
    pub fn close_all(&mut self)
        ensures
            old(self).wf() ==> final(self).wf(),
            final(self).spec_nodes() == old(self).spec_nodes(),
            final(self).spec_players() == old(self).spec_players(),
        no_unwind
    {
        let n = self.nodes.len();
        let mut i: usize = 0;
        while i < n
            invariant
                i <= n,
                n == self.spec_nodes().len(),
                self.spec_nodes() == old(self).spec_nodes(),
                self.player_manager@ == old(self).spec_players(),
                old(self).wf() ==> self.player_manager.wf(),
            decreases n - i,
        {
            let node = &mut self.nodes[i];
            let _ = node.close();
            proof {
                assert(self.spec_nodes() =~= old(self).spec_nodes());
            }
            i += 1;
        }
    }

    /// The host's node, if it is registered.
    pub fn get_node(&self, node_websocket_host: &str) -> (r: Option<&Node>)
        requires
            self.wf(),
        ensures
            match r {
                Some(node) => has_host(self.spec_nodes(), node_websocket_host@) && node@
                    == self.spec_nodes()[index_of_host(self.spec_nodes(), node_websocket_host@)],
                None => !has_host(self.spec_nodes(), node_websocket_host@),
            },
    {
        match self.find(node_websocket_host) {
            Some(i) => {
                proof {
                    let j = index_of_host(self.spec_nodes(), node_websocket_host@);
                    assert(self.spec_nodes()[j].websocket_host == node_websocket_host@);
                    assert(i == j);
                }
                Some(&self.nodes[i])
            },
            None => None,
        }
    }

    /// Creates a player for the guild against a node: the named one, or
    /// the best node when none is named. Fails with [`Error::NodeNotFound`]
    /// when the named host is not registered or the registry is empty, and
    /// with [`Error::PlayerAlreadyExists`] when the guild already has a
    /// player. The new player is bound to a clone of the chosen node's
    /// outbound channel.
    pub fn create_player(
        &mut self,
        guild_id: u64,
        node_websocket_host: Option<&str>,
    ) -> (r: Result<(), Error>)
        requires
            old(self).wf(),
        ensures
            final(self).wf(),
            final(self).spec_nodes() == old(self).spec_nodes(),
            (match r {
                Ok(u) => u == () && !has_guild(old(self).spec_players(), guild_id)
                    && final(self).spec_players() == old(self).spec_players().push(
                    fresh_player(guild_id),
                )
                    && (match node_websocket_host {
                    Some(h) => has_host(old(self).spec_nodes(), h@),
                    None => old(self).spec_nodes().len() > 0,
                }),
                Err(e) => final(self).spec_players() == old(self).spec_players() && ((e
                    == Error::NodeNotFound && (match node_websocket_host {
                    Some(h) => !has_host(old(self).spec_nodes(), h@),
                    None => old(self).spec_nodes().len() == 0,
                })) || (e == Error::PlayerAlreadyExists && has_guild(
                    old(self).spec_players(),
                    guild_id,
                ) && (match node_websocket_host {
                    Some(h) => has_host(old(self).spec_nodes(), h@),
                    None => old(self).spec_nodes().len() > 0,
                }))),
            }),
    {
        let idx: usize = match node_websocket_host {
            Some(host) => {
                match self.find(host) {
                    Some(i) => i,
                    None => {
                        return Err(Error::NodeNotFound);
                    },
                }
            },
            None => {
                if self.nodes.len() == 0 {
                    return Err(Error::NodeNotFound);
                }
                let host = match self.best_node() {
                    Some(h) => h,
                    None => {
                        return Err(Error::NodeNotFound);
                    },
                };
                match self.find(host) {
                    Some(i) => i,
                    None => {
                        return Err(Error::NodeNotFound);
                    },
                }
            },
        };
        let sender = clone_sender(&self.nodes[idx].user_to_node);
        self.player_manager.create(guild_id, sender)
    }

    /// Removes the guild's player. `Ok(true)` when it existed; the node is
    /// not told, so a caller that wants a graceful stop sends `leave`
    /// through the player first.
    pub fn remove_player(&mut self, guild_id: &u64) -> (r: Result<bool, Error>)
        requires
            old(self).wf(),
        ensures
            final(self).wf(),
            final(self).spec_nodes() == old(self).spec_nodes(),
            (match r {
                Ok(removed) => {
                    &&& removed == has_guild(old(self).spec_players(), *guild_id)
                    &&& !has_guild(final(self).spec_players(), *guild_id)
                    &&& removed ==> final(self).spec_players() == old(self).spec_players().remove(index_of_guild(old(self).spec_players(), *guild_id))
                    &&& !removed ==> final(self).spec_players() == old(self).spec_players()
                },
                Err(e) => false,
            }),
    {
        Ok(self.player_manager.remove(guild_id))
    }

    /// Dispatches one frame of text read from the host's node: decodes it,
    /// absorbs its effect into that node's state and the players, and
    /// returns the bridge call it asks for. A frame from a host that is
    /// not registered is dropped.
    pub fn dispatch_frame(&mut self, websocket_host: &str, text: &str) -> (r: Option<
        BridgeCall,
    >)
        requires
            old(self).wf(),
        ensures
            final(self).wf(),
            !has_host(old(self).spec_nodes(), websocket_host@) ==> final(self).spec_nodes()
                == old(self).spec_nodes() && final(self).spec_players() == old(self).spec_players() && r is None,
            has_host(old(self).spec_nodes(), websocket_host@) ==> ({
                let j = index_of_host(old(self).spec_nodes(), websocket_host@);
                let d = sp_dispatch(
                    crate::envelope::sp_decode(text@),
                    old(self).spec_nodes()[j].stats,
                    old(self).spec_players(),
                );
                &&& final(self).spec_nodes() == old(self).spec_nodes().update(
                    j,
                    NodeModel { stats: d.0, ..old(self).spec_nodes()[j] },
                )
                &&& final(self).spec_players() == d.1
                &&& opt_call_view(r) == d.2
            }),
    {
        let idx = match self.find(websocket_host) {
            Some(i) => i,
            None => {
                return None;
            },
        };
        proof {
            let j = index_of_host(self.spec_nodes(), websocket_host@);
            assert(self.spec_nodes()[j].websocket_host == websocket_host@);
            assert(idx == j);
        }
        let node = &mut self.nodes[idx];
        let r = handle_message(&mut node.state, &mut self.player_manager, text);
        proof {
            let j = index_of_host(old(self).spec_nodes(), websocket_host@);
            assert(self.spec_nodes() =~= old(self).spec_nodes().update(
                j,
                NodeModel { stats: self.spec_nodes()[j].stats, ..old(self).spec_nodes()[j] },
            ));
        }
        r
    }
}

} // verus!
