//! Per-guild audio players and the registry that holds them, at most one
//! player per guild.

use vstd::prelude::*;

use crate::channel::{channel_send, OutboundFrame};
use crate::encode;
use crate::error::Error;

verus! {

/// The spec-level mirror of a player: everything but its channel handle.
pub struct PlayerModel {
    /// The guild the player belongs to.
    pub guild_id: u64,
    /// Whether the node last reported the player paused.
    pub paused: bool,
    /// The last position the node reported, in milliseconds.
    pub position: i64,
    /// The node's clock at the last update, in milliseconds.
    pub time: i64,
    /// The track the node last reported playing.
    pub track: Option<Seq<char>>,
    /// The volume setting, on a scale of zero to one hundred and fifty.
    pub volume: i32,
}

/// The state a player starts in.
pub open spec fn fresh_player(guild_id: u64) -> PlayerModel {
    PlayerModel { guild_id, paused: false, position: 0, time: 0, track: None, volume: 100 }
}

/// The state of one guild's audio player, bound to the outbound channel of
/// the node session it was created against. The binding never changes: to
/// move a guild to another node, remove the player and create it anew.
#[derive(Debug)]
pub struct AudioPlayer {
    /// The guild the player belongs to.
    pub guild_id: u64,
    /// Whether the node last reported the player paused.
    pub paused: bool,
    /// The last position the node reported, in milliseconds.
    pub position: i64,
    sender: futures::sync::mpsc::Sender<OutboundFrame>,
    /// The node's clock at the last update, in milliseconds.
    pub time: i64,
    /// The track the node last reported playing.
    pub track: Option<String>,
    /// The volume setting, on a scale of zero to one hundred and fifty.
    pub volume: i32,
}

impl View for AudioPlayer {
    type V = PlayerModel;

    closed spec fn view(&self) -> PlayerModel {
        PlayerModel {
            guild_id: self.guild_id,
            paused: self.paused,
            position: self.position,
            time: self.time,
            track: match self.track {
                Some(t) => Some(t@),
                None => None,
            },
            volume: self.volume,
        }
    }
}

impl AudioPlayer {
    /// Creates a player for a guild, bound to the given outbound channel.
    pub fn new(guild_id: u64, sender: futures::sync::mpsc::Sender<OutboundFrame>) -> (r:
        AudioPlayer)
        ensures
            r@ == fresh_player(guild_id),
    {
        AudioPlayer {
            paused: false,
            position: 0,
            time: 0,
            track: None,
            volume: 100,
            guild_id,
            sender,
        }
    }

    /// Enqueues one frame on the bound node's outbound channel. Success
    /// means the channel accepted the frame for delivery; a channel at
    /// capacity or with its receiver gone refuses it, and the command is
    /// never retried.
    pub fn send(&mut self, message: OutboundFrame) -> (r: Result<(), Error>)
        ensures
            final(self)@ == old(self)@,
            (match r {
                Ok(u) => u == (),
                Err(e) => e == Error::SendFailure,
            }),
    {
        channel_send(&mut self.sender, message)
    }

    /// Asks the node to bind this guild's session to a voice channel.
    pub fn join(&mut self, channel_id: &str) -> (r: Result<(), Error>)
        ensures
            final(self)@ == old(self)@,
            (match r {
                Ok(u) => u == (),
                Err(e) => e == Error::SendFailure,
            }),
    {
        let msg = encode::connect_message(self.guild_id, channel_id);
        self.send(OutboundFrame::Text(msg))
    }

    /// Asks the node to release this guild's session.
    pub fn leave(&mut self) -> (r: Result<(), Error>)
        ensures
            final(self)@ == old(self)@,
            (match r {
                Ok(u) => u == (),
                Err(e) => e == Error::SendFailure,
            }),
    {
        let msg = encode::disconnect_message(self.guild_id);
        self.send(OutboundFrame::Text(msg))
    }

    /// Asks the node to pause or resume the player. The local fields stay
    /// as they are: the node's own update frames are the source of truth.
    pub fn pause(&mut self, pause: bool) -> (r: Result<(), Error>)
        ensures
            final(self)@ == old(self)@,
            (match r {
                Ok(u) => u == (),
                Err(e) => e == Error::SendFailure,
            }),
    {
        let msg = encode::pause_message(self.guild_id, pause);
        self.send(OutboundFrame::Text(msg))
    }

    /// Asks the node to play a track, with optional start and end offsets
    /// in milliseconds.
    pub fn play(
        &mut self,
        track: &str,
        start_time: Option<u64>,
        end_time: Option<u64>,
    ) -> (r: Result<(), Error>)
        ensures
            final(self)@ == old(self)@,
            (match r {
                Ok(u) => u == (),
                Err(e) => e == Error::SendFailure,
            }),
    {
        let msg = encode::play_message(self.guild_id, track, start_time, end_time);
        self.send(OutboundFrame::Text(msg))
    }

    /// Asks the node to seek the player to a position in milliseconds.
    pub fn seek(&mut self, position: i64) -> (r: Result<(), Error>)
        ensures
            final(self)@ == old(self)@,
            (match r {
                Ok(u) => u == (),
                Err(e) => e == Error::SendFailure,
            }),
    {
        let msg = encode::seek_message(self.guild_id, position);
        self.send(OutboundFrame::Text(msg))
    }

    /// Asks the node to stop the player.
    pub fn stop(&mut self) -> (r: Result<(), Error>)
        ensures
            final(self)@ == old(self)@,
            (match r {
                Ok(u) => u == (),
                Err(e) => e == Error::SendFailure,
            }),
    {
        let msg = encode::stop_message(self.guild_id);
        self.send(OutboundFrame::Text(msg))
    }

    /// Asks the node to set the player's volume, and keeps the setting
    /// locally. The range is the caller's responsibility: out-of-range
    /// values are forwarded as they are.
    pub fn volume(&mut self, volume: i32) -> (r: Result<(), Error>)
        ensures
            final(self)@ == (PlayerModel { volume, ..old(self)@ }),
            (match r {
                Ok(u) => u == (),
                Err(e) => e == Error::SendFailure,
            }),
    {
        let msg = encode::volume_message(self.guild_id, volume);
        self.volume = volume;
        self.send(OutboundFrame::Text(msg))
    }
}

/// Whether some player in the sequence belongs to the guild.
pub open spec fn has_guild(players: Seq<PlayerModel>, guild_id: u64) -> bool {
    exists|i: int| 0 <= i < players.len() && players[i].guild_id == guild_id
}

/// The index of the guild's player in the sequence.
pub open spec fn index_of_guild(players: Seq<PlayerModel>, guild_id: u64) -> int {
    choose|i: int| 0 <= i < players.len() && players[i].guild_id == guild_id
}

/// Whether no two players share a guild.
pub open spec fn unique_guilds(players: Seq<PlayerModel>) -> bool {
    forall|i: int, j: int|
        0 <= i < j < players.len() ==> players[i].guild_id != players[j].guild_id
}

/// A guild-keyed registry of audio players, at most one per guild.
#[derive(Debug)]
pub struct AudioPlayerManager {
    players: Vec<AudioPlayer>,
}

impl View for AudioPlayerManager {
    type V = Seq<PlayerModel>;

    closed spec fn view(&self) -> Seq<PlayerModel> {
        Seq::new(self.players@.len(), |i: int| self.players@[i]@)
    }
}

impl AudioPlayerManager {
    /// Whether the registry is well formed: no two players share a guild.
    pub open spec fn wf(&self) -> bool {
        unique_guilds(self@)
    }

    /// Creates an empty registry.
    pub fn new() -> (r: AudioPlayerManager)
        ensures
            r@ == Seq::<PlayerModel>::empty(),
            r.wf(),
    {
        let r = AudioPlayerManager { players: Vec::new() };
        proof {
            assert(r@ =~= Seq::<PlayerModel>::empty());
        }
        r
    }

    /// Finds the position of the guild's player, if it has one.
    fn find(&self, guild_id: u64) -> (r: Option<usize>)
        ensures
            match r {
                Some(i) => i < self@.len() && self@[i as int].guild_id == guild_id && has_guild(
                    self@,
                    guild_id,
                ),
                None => !has_guild(self@, guild_id),
            },
    {
        let n = self.players.len();
        let mut i: usize = 0;
        while i < n
            invariant
                i <= n,
                n == self@.len(),
                forall|k: int| 0 <= k < i ==> self@[k].guild_id != guild_id,
            decreases n - i,
        {
            if self.players[i].guild_id == guild_id {
                return Some(i);
            }
            i += 1;
        }
        None
    }

    /// Whether the registry holds a player for the guild.
    pub fn has(&self, guild_id: &u64) -> (r: bool)
        ensures
            r == has_guild(self@, *guild_id),
    {
        self.find(*guild_id).is_some()
    }

    /// The guild's player, if it has one.
    pub fn get(&self, guild_id: &u64) -> (r: Option<&AudioPlayer>)
        requires
            self.wf(),
        ensures
            match r {
                Some(p) => has_guild(self@, *guild_id) && p@ == self@[index_of_guild(
                    self@,
                    *guild_id,
                )],
                None => !has_guild(self@, *guild_id),
            },
    {
        match self.find(*guild_id) {
            Some(i) => {
                proof {
                    let j = index_of_guild(self@, *guild_id);
                    assert(self@[j].guild_id == *guild_id);
                }
                Some(&self.players[i])
            },
            None => None,
        }
    }

    /// The guild's player, if it has one, for mutation in place.
    pub fn get_mut(&mut self, guild_id: &u64) -> (r: Option<&mut AudioPlayer>)
        requires
            old(self).wf(),
        ensures
            match r {
                Some(p) => {
                    &&& has_guild(old(self)@, *guild_id)
                    &&& p@ == old(self)@[index_of_guild(old(self)@, *guild_id)]
                    &&& final(self)@ == old(self)@.update(
                        index_of_guild(old(self)@, *guild_id),
                        final(p)@,
                    )
                },
                None => !has_guild(old(self)@, *guild_id) && final(self)@ == old(self)@,
            },
    {
        match self.find(*guild_id) {
            Some(i) => {
                proof {
                    let j = index_of_guild(self@, *guild_id);
                    assert(self@[j].guild_id == *guild_id);
                    assert(i == j);
                }
                Some(&mut self.players[i])
            },
            None => None,
        }
    }

    /// Creates a player for the guild, bound to the given outbound channel.
    /// Fails, changing nothing, when the guild already has one.
    pub fn create(
        &mut self,
        guild_id: u64,
        sender: futures::sync::mpsc::Sender<OutboundFrame>,
    ) -> (r: Result<(), Error>)
        requires
            old(self).wf(),
        ensures
            final(self).wf(),
            (match r {
                Ok(u) => u == () && !has_guild(old(self)@, guild_id) && final(self)@ == old(
                    self,
                )@.push(fresh_player(guild_id)),
                Err(e) => e == Error::PlayerAlreadyExists && has_guild(old(self)@, guild_id)
                    && final(self)@ == old(self)@,
            }),
    {
        if self.has(&guild_id) {
            return Err(Error::PlayerAlreadyExists);
        }
        self.players.push(AudioPlayer::new(guild_id, sender));
        proof {
            assert(self@ =~= old(self)@.push(fresh_player(guild_id)));
        }
        Ok(())
    }

    /// Removes the guild's player. Tells neither the player nor its node:
    /// a caller that wants a graceful stop sends `leave` first.
    pub fn remove(&mut self, guild_id: &u64) -> (r: bool)
        requires
            old(self).wf(),
        ensures
            final(self).wf(),
            r == has_guild(old(self)@, *guild_id),
            !has_guild(final(self)@, *guild_id),
            r ==> final(self)@ == old(self)@.remove(index_of_guild(old(self)@, *guild_id)),
            !r ==> final(self)@ == old(self)@,
    {
        match self.find(*guild_id) {
            Some(i) => {
                self.players.remove(i);
                proof {
                    let j = index_of_guild(old(self)@, *guild_id);
                    assert(old(self)@[j].guild_id == *guild_id);
                    assert(i == j);
                    assert(self@ =~= old(self)@.remove(j));
                    assert forall|k: int| 0 <= k < self@.len() implies self@[k].guild_id
                        != *guild_id by {
                        if k < j {
                            assert(self@[k] == old(self)@[k]);
                        } else {
                            assert(self@[k] == old(self)@[k + 1]);
                        }
                    }
                }
                true
            },
            None => false,
        }
    }

    /// Overwrites the clock and position of the guild's player, as an
    /// authoritative update frame directs; without a player for the guild
    /// nothing changes.
    pub fn update_player_state(&mut self, guild_id: u64, time: i64, position: i64) -> (r: bool)
        requires
            old(self).wf(),
        ensures
            final(self).wf(),
            r == has_guild(old(self)@, guild_id),
            r ==> final(self)@ == old(self)@.update(
                index_of_guild(old(self)@, guild_id),
                PlayerModel { time, position, ..old(self)@[index_of_guild(old(self)@, guild_id)] },
            ),
            !r ==> final(self)@ == old(self)@,
    {
        match self.find(guild_id) {
            Some(i) => {
                let p = &mut self.players[i];
                p.time = time;
                p.position = position;
                proof {
                    let j = index_of_guild(old(self)@, guild_id);
                    assert(old(self)@[j].guild_id == guild_id);
                    assert(i == j);
                    assert(self@ =~= old(self)@.update(
                        j,
                        PlayerModel { time, position, ..old(self)@[j] },
                    ));
                }
                true
            },
            None => false,
        }
    }

    /// Clears the track of the guild's player and zeroes its clock and
    /// position, as a track-end event directs; without a player for the
    /// guild nothing changes.
    pub fn reset_player_track(&mut self, guild_id: u64) -> (r: bool)
        requires
            old(self).wf(),
        ensures
            final(self).wf(),
            r == has_guild(old(self)@, guild_id),
            r ==> final(self)@ == old(self)@.update(
                index_of_guild(old(self)@, guild_id),
                PlayerModel {
                    track: None,
                    time: 0,
                    position: 0,
                    ..old(self)@[index_of_guild(old(self)@, guild_id)]
                },
            ),
            !r ==> final(self)@ == old(self)@,
    {
        match self.find(guild_id) {
            Some(i) => {
                let p = &mut self.players[i];
                p.track = None;
                p.time = 0;
                p.position = 0;
                proof {
                    let j = index_of_guild(old(self)@, guild_id);
                    assert(old(self)@[j].guild_id == guild_id);
                    assert(i == j);
                    assert(self@ =~= old(self)@.update(
                        j,
                        PlayerModel { track: None, time: 0, position: 0, ..old(self)@[j] },
                    ));
                }
                true
            },
            None => false,
        }
    }
}

} // verus!
