//! The process-wide registry: one state machine per guild, created lazily on
//! first use and never removed.
//!
//! Abstractly the registry is a total function from guild identifier to
//! guild state, where a guild never touched sits in its empty state
//! ([`StateV::empty`]). Every command is addressed to a guild identifier and
//! acts on that guild's state alone.

use vstd::prelude::*;
use crate::errors::{DiscordCommandError, ErrorKind, GuildMusicResult, user_input_error};
use crate::music::{
    GuildMusic, MusicRequest, StateV, TickActions, commit_play_step, commit_preload_step,
    enqueue_step, play_failed_step, preload_commit_allowed, skip_removed, skip_step, stop_step,
    stopped_handle, tick_play_job, tick_preload_job, tick_step, track_end_step,
};

verus! {

/// The registry: a vector of guild state machines with pairwise distinct
/// guild identifiers.
pub struct GuildRegistry {
    guilds: Vec<GuildMusic>,
}

impl GuildRegistry {
    /// The held states, in insertion order.
    pub closed spec fn states(self) -> Seq<StateV> {
        Seq::new(self.guilds@.len() as nat, |i: int| self.guilds@[i]@)
    }

    /// No two held states belong to the same guild.
    pub open spec fn wf(self) -> bool {
        forall|i: int, j: int|
            0 <= i < j < self.states().len() ==> self.states()[i].guild_id
                != self.states()[j].guild_id
    }

    /// Whether a state for `guild_id` has been created.
    pub open spec fn has_guild(self, guild_id: u64) -> bool {
        exists|i: int| 0 <= i < self.states().len() && self.states()[i].guild_id == guild_id
    }

    /// The position of `guild_id`'s state; meaningful only under
    /// `has_guild`.
    pub open spec fn index_of(self, guild_id: u64) -> int {
        choose|i: int| 0 <= i < self.states().len() && self.states()[i].guild_id == guild_id
    }

    /// The state of `guild_id`: the held one, or the empty state while none
    /// has been created. Lazy creation is invisible at this level.
    pub open spec fn guild_state(self, guild_id: u64) -> StateV {
        if self.has_guild(guild_id) {
            self.states()[self.index_of(guild_id)]
        } else {
            StateV::empty(guild_id)
        }
    }

    /// Under `wf`, the index of a held guild is the unique position holding
    /// its identifier.
    pub proof fn lemma_state_at(self, i: int)
        requires
            self.wf(),
            0 <= i < self.states().len(),
        ensures
            self.has_guild(self.states()[i].guild_id),
            self.index_of(self.states()[i].guild_id) == i,
            self.guild_state(self.states()[i].guild_id) == self.states()[i],
    {
        let gid = self.states()[i].guild_id;
        assert(0 <= i < self.states().len() && self.states()[i].guild_id == gid);
        assert(self.has_guild(gid));
        let j = self.index_of(gid);
        assert(0 <= j < self.states().len() && self.states()[j].guild_id == gid);
        if i < j {
            assert(self.states()[i].guild_id != self.states()[j].guild_id);
        } else if j < i {
            assert(self.states()[j].guild_id != self.states()[i].guild_id);
        }
    }

    /// Replacing one held state with another of the same guild keeps every
    /// other guild's state, and moves only that guild's.
    proof fn lemma_update(pre: GuildRegistry, post: GuildRegistry, i: int)
        requires
            pre.wf(),
            0 <= i < pre.states().len(),
            post.states() == pre.states().update(i, post.states()[i]),
            post.states()[i].guild_id == pre.states()[i].guild_id,
        ensures
            post.wf(),
            forall|g: u64| post.has_guild(g) == pre.has_guild(g),
            forall|g: u64|
                g != pre.states()[i].guild_id ==> post.guild_state(g) == pre.guild_state(g),
            post.guild_state(pre.states()[i].guild_id) == post.states()[i],
    {
        let gid = pre.states()[i].guild_id;
        assert(forall|k: int|
            0 <= k < post.states().len() ==> post.states()[k].guild_id
                == pre.states()[k].guild_id);
        assert(post.wf());
        assert forall|g: u64| post.has_guild(g) == pre.has_guild(g) by {
            if pre.has_guild(g) {
                let k = pre.index_of(g);
                assert(post.states()[k].guild_id == g);
            }
            if post.has_guild(g) {
                let k = post.index_of(g);
                assert(pre.states()[k].guild_id == g);
            }
        }
        assert forall|g: u64| g != gid && pre.has_guild(g) implies post.guild_state(g)
            == pre.guild_state(g) by {
            let k = pre.index_of(g);
            assert(post.states()[k].guild_id == g);
            post.lemma_state_at(k);
        }
        post.lemma_state_at(i);
    }

    /// A registry with no guilds yet.
    pub fn new() -> (r: GuildRegistry)
        ensures
            r.wf(),
            forall|g: u64| !r.has_guild(g),
            forall|g: u64| r.guild_state(g) == StateV::empty(g),
    {
        GuildRegistry { guilds: Vec::new() }
    }

    /// The position of `guild_id`'s state, if one has been created.
    fn find_index(&self, guild_id: u64) -> (r: Option<usize>)
        requires
            self.wf(),
        ensures
            match r {
                Some(i) => {
                    &&& i < self.states().len()
                    &&& self.states()[i as int].guild_id == guild_id
                    &&& self.has_guild(guild_id)
                    &&& self.index_of(guild_id) == i as int
                },
                None => !self.has_guild(guild_id),
            },
    {
        let n = self.guilds.len();
        let mut i: usize = 0;
        while i < n
            invariant
                self.wf(),
                n == self.guilds.len(),
                i <= n,
                forall|j: int| 0 <= j < i ==> self.states()[j].guild_id != guild_id,
            decreases n - i,
        {
            if self.guilds[i].guild_music_data.guild_id == guild_id {
                assert(self.states()[i as int].guild_id == guild_id);
                proof {
                    self.lemma_state_at(i as int);
                }
                return Some(i);
            }
            i += 1;
        }
        None
    }

    /// Read access to a guild's state machine, for inspection.
    pub fn get(&self, guild_id: u64) -> (r: Option<&GuildMusic>)
        requires
            self.wf(),
        ensures
            match r {
                Some(gm) => self.has_guild(guild_id) && gm@ == self.guild_state(guild_id),
                None => !self.has_guild(guild_id),
            },
    {
        match self.find_index(guild_id) {
            Some(i) => Some(&self.guilds[i]),
            None => None,
        }
    }

    /// Returns the position of `guild_id`'s state, creating a fresh empty
    /// one when none exists. Creation changes no guild's abstract state.
    fn get_or_create_index(&mut self, guild_id: u64) -> (idx: usize)
        requires
            old(self).wf(),
        ensures
            final(self).wf(),
            idx < final(self).states().len(),
            final(self).states()[idx as int].guild_id == guild_id,
            old(self).has_guild(guild_id) ==> final(self).states() == old(self).states(),
            !old(self).has_guild(guild_id) ==> final(self).states() == old(self).states().push(
                StateV::empty(guild_id),
            ),
            forall|g: u64| final(self).has_guild(g) == (old(self).has_guild(g) || g == guild_id),
            forall|g: u64| final(self).guild_state(g) == old(self).guild_state(g),
    {
        match self.find_index(guild_id) {
            Some(i) => {
                return i;
            },
            None => {},
        }
        assert(!self.has_guild(guild_id));
        let gm = GuildMusic::new(guild_id);
        self.guilds.push(gm);
        let ghost pre = *old(self);
        let ghost post = *self;
        proof {
            assert(post.states() =~= pre.states().push(StateV::empty(guild_id)));
            assert(post.wf());
            assert(post.states()[post.states().len() - 1].guild_id == guild_id);
            assert(post.has_guild(guild_id));
            assert forall|g: u64| post.has_guild(g) == (pre.has_guild(g) || g == guild_id) by {
                if pre.has_guild(g) {
                    let k = pre.index_of(g);
                    assert(post.states()[k].guild_id == g);
                }
                if post.has_guild(g) && g != guild_id {
                    let k = post.index_of(g);
                    assert(k < pre.states().len());
                    assert(pre.states()[k].guild_id == g);
                }
            }
            assert forall|g: u64| post.guild_state(g) == pre.guild_state(g) by {
                if pre.has_guild(g) {
                    let k = pre.index_of(g);
                    assert(post.states()[k].guild_id == g);
                    pre.lemma_state_at(k);
                    post.lemma_state_at(k);
                } else if g == guild_id {
                    post.lemma_state_at(post.states().len() - 1);
                }
            }
        }
        self.guilds.len() - 1
    }

    /// Temporarily removes the state at `idx` so it can be mutated by value.
    fn take_guild(&mut self, idx: usize) -> (gm: GuildMusic)
        requires
            idx < old(self).states().len(),
        ensures
            final(self).states() == old(self).states().remove(idx as int),
            gm@ == old(self).states()[idx as int],
    {
        let gm = self.guilds.remove(idx);
        proof {
            assert(self.states() =~= old(self).states().remove(idx as int));
        }
        gm
    }

    /// Puts a state taken by `take_guild` back in its place.
    fn put_guild(&mut self, idx: usize, gm: GuildMusic)
        requires
            idx <= old(self).states().len(),
        ensures
            final(self).states() == old(self).states().insert(idx as int, gm@),
    {
        self.guilds.insert(idx, gm);
        proof {
            assert(self.states() =~= old(self).states().insert(idx as int, gm@));
        }
    }

    /// Enqueues a request for `guild_id` (creating the guild's state on
    /// first use) and runs its tick. See [`GuildMusic::insert_music`].
    pub fn insert_music(
        &mut self,
        guild_id: u64,
        search_or_url: String,
        channel_id: u64,
        requested_by: u64,
    ) -> (r: (u128, TickActions))
        requires
            old(self).wf(),
        ensures
            final(self).wf(),
            ({
                let s1 = enqueue_step(
                    old(self).guild_state(guild_id),
                    (MusicRequest { uuid: r.0, search_or_url, channel_id, requested_by }),
                );
                &&& final(self).guild_state(guild_id) == tick_step(s1)
                &&& r.1.play == tick_play_job(s1)
                &&& r.1.preload == tick_preload_job(s1)
            }),
            forall|g: u64| g != guild_id ==> final(self).guild_state(g) == old(self).guild_state(g),
            forall|g: u64| final(self).has_guild(g) == (old(self).has_guild(g) || g == guild_id),
    {
        let idx = self.get_or_create_index(guild_id);
        let ghost mid = *self;
        proof {
            mid.lemma_state_at(idx as int);
        }
        let mut gm = self.take_guild(idx);
        let r = gm.insert_music(search_or_url, channel_id, requested_by);
        let ghost gmv = gm@;
        self.put_guild(idx, gm);
        proof {
            assert(self.states() =~= mid.states().update(idx as int, gmv));
            GuildRegistry::lemma_update(mid, *self, idx as int);
        }
        r
    }

    /// Routes a playback-finished notification to `guild_id`'s state, when
    /// one exists. See [`GuildMusic::handle_track_event`].
    pub fn handle_track_event(&mut self, guild_id: u64, music_uuid: u128) -> (r: (
        Option<u64>,
        TickActions,
    ))
        requires
            old(self).wf(),
        ensures
            final(self).wf(),
            ({
                let s1 = track_end_step(old(self).guild_state(guild_id), music_uuid);
                &&& final(self).guild_state(guild_id) == tick_step(s1)
                &&& r.0 == stopped_handle(old(self).guild_state(guild_id), music_uuid)
                &&& r.1.play == tick_play_job(s1)
                &&& r.1.preload == tick_preload_job(s1)
            }),
            forall|g: u64| g != guild_id ==> final(self).guild_state(g) == old(self).guild_state(g),
            forall|g: u64| final(self).has_guild(g) == old(self).has_guild(g),
    {
        match self.find_index(guild_id) {
            Some(idx) => {
                let ghost mid = *self;
                proof {
                    mid.lemma_state_at(idx as int);
                }
                let mut gm = self.take_guild(idx);
                let r = gm.handle_track_event(music_uuid);
                let ghost gmv = gm@;
                self.put_guild(idx, gm);
                proof {
                    assert(self.states() =~= mid.states().update(idx as int, gmv));
                    GuildRegistry::lemma_update(mid, *self, idx as int);
                }
                r
            },
            None => (None, TickActions { play: None, preload: None }),
        }
    }

    /// Stops `guild_id`'s playback and clears its queue (creating the
    /// guild's state on first use). See [`GuildMusic::stop`].
    pub fn stop(&mut self, guild_id: u64) -> (r: GuildMusicResult<u64>)
        requires
            old(self).wf(),
        ensures
            final(self).wf(),
            final(self).guild_state(guild_id) == stop_step(old(self).guild_state(guild_id)),
            (match old(self).guild_state(guild_id).now_playing {
                Some(np) => r == Ok::<u64, DiscordCommandError>(np.track_handle),
                None => r == Err::<u64, DiscordCommandError>(
                    user_input_error(ErrorKind::NoSongCurrentlyPlaying),
                ),
            }),
            forall|g: u64| g != guild_id ==> final(self).guild_state(g) == old(self).guild_state(g),
            forall|g: u64| final(self).has_guild(g) == (old(self).has_guild(g) || g == guild_id),
    {
        let idx = self.get_or_create_index(guild_id);
        let ghost mid = *self;
        proof {
            mid.lemma_state_at(idx as int);
        }
        let mut gm = self.take_guild(idx);
        let r = gm.stop();
        let ghost gmv = gm@;
        self.put_guild(idx, gm);
        proof {
            assert(self.states() =~= mid.states().update(idx as int, gmv));
            GuildRegistry::lemma_update(mid, *self, idx as int);
        }
        r
    }

    /// Skips entries of `guild_id`'s queue and asks for its playback to be
    /// stopped (creating the guild's state on first use). See
    /// [`GuildMusic::skip`].
    pub fn skip(&mut self, guild_id: u64, quantity: usize) -> (r: GuildMusicResult<(usize, u64)>)
        requires
            old(self).wf(),
        ensures
            final(self).wf(),
            final(self).guild_state(guild_id) == skip_step(
                old(self).guild_state(guild_id),
                quantity,
            ),
            (match old(self).guild_state(guild_id).now_playing {
                Some(np) => r == Ok::<(usize, u64), DiscordCommandError>(
                    (
                        (skip_removed(old(self).guild_state(guild_id), quantity) + 1) as usize,
                        np.track_handle,
                    ),
                ),
                None => r == Err::<(usize, u64), DiscordCommandError>(
                    user_input_error(ErrorKind::NoSongCurrentlyPlaying),
                ),
            }),
            forall|g: u64| g != guild_id ==> final(self).guild_state(g) == old(self).guild_state(g),
            forall|g: u64| final(self).has_guild(g) == (old(self).has_guild(g) || g == guild_id),
    {
        let idx = self.get_or_create_index(guild_id);
        let ghost mid = *self;
        proof {
            mid.lemma_state_at(idx as int);
        }
        let mut gm = self.take_guild(idx);
        let r = gm.skip(quantity);
        let ghost gmv = gm@;
        self.put_guild(idx, gm);
        proof {
            assert(self.states() =~= mid.states().update(idx as int, gmv));
            GuildRegistry::lemma_update(mid, *self, idx as int);
        }
        r
    }

    /// Randomly permutes `guild_id`'s queue (creating the guild's state on
    /// first use). See [`GuildMusic::shuffle`].
    pub fn shuffle(&mut self, guild_id: u64) -> (r: GuildMusicResult<()>)
        requires
            old(self).wf(),
        ensures
            final(self).wf(),
            ({
                let s0 = old(self).guild_state(guild_id);
                let s2 = final(self).guild_state(guild_id);
                &&& s0.queue.len() == 0 ==> s2 == s0 && r == Err::<(), DiscordCommandError>(
                    user_input_error(ErrorKind::QueueIsEmpty),
                )
                &&& s0.queue.len() > 0 ==> {
                    &&& r == Ok::<(), DiscordCommandError>(())
                    &&& s2.queue.to_multiset() == s0.queue.to_multiset()
                    &&& s2.queue.len() == s0.queue.len()
                    &&& s2 == (StateV { queue: s2.queue, ..s0 })
                }
            }),
            forall|g: u64| g != guild_id ==> final(self).guild_state(g) == old(self).guild_state(g),
            forall|g: u64| final(self).has_guild(g) == (old(self).has_guild(g) || g == guild_id),
    {
        let idx = self.get_or_create_index(guild_id);
        let ghost mid = *self;
        proof {
            mid.lemma_state_at(idx as int);
        }
        let mut gm = self.take_guild(idx);
        let r = gm.shuffle();
        let ghost gmv = gm@;
        self.put_guild(idx, gm);
        proof {
            assert(self.states() =~= mid.states().update(idx as int, gmv));
            GuildRegistry::lemma_update(mid, *self, idx as int);
        }
        r
    }

    /// Routes a play job's successful outcome to `guild_id`'s state, when
    /// one exists. See [`GuildMusic::commit_now_playing`].
    pub fn commit_now_playing(
        &mut self,
        guild_id: u64,
        music_uuid: u128,
        track_handle: u64,
        channel_id: u64,
        call: u64,
    ) -> (committed: bool)
        requires
            old(self).wf(),
        ensures
            final(self).wf(),
            final(self).guild_state(guild_id) == commit_play_step(
                old(self).guild_state(guild_id),
                music_uuid,
                track_handle,
                channel_id,
                call,
            ),
            committed == (old(self).guild_state(guild_id).starting == Some(music_uuid)),
            forall|g: u64| g != guild_id ==> final(self).guild_state(g) == old(self).guild_state(g),
            forall|g: u64| final(self).has_guild(g) == old(self).has_guild(g),
    {
        match self.find_index(guild_id) {
            Some(idx) => {
                let ghost mid = *self;
                proof {
                    mid.lemma_state_at(idx as int);
                }
                let mut gm = self.take_guild(idx);
                let r = gm.commit_now_playing(music_uuid, track_handle, channel_id, call);
                let ghost gmv = gm@;
                self.put_guild(idx, gm);
                proof {
                    assert(self.states() =~= mid.states().update(idx as int, gmv));
                    GuildRegistry::lemma_update(mid, *self, idx as int);
                }
                r
            },
            None => false,
        }
    }

    /// Routes a play job's failure to `guild_id`'s state, when one exists.
    /// See [`GuildMusic::play_failed`].
    pub fn play_failed(&mut self, guild_id: u64, music_uuid: u128) -> (actions: TickActions)
        requires
            old(self).wf(),
        ensures
            final(self).wf(),
            final(self).guild_state(guild_id) == play_failed_step(
                old(self).guild_state(guild_id),
                music_uuid,
            ),
            old(self).guild_state(guild_id).starting == Some(music_uuid) ==> {
                let s1 = (StateV { starting: None, ..old(self).guild_state(guild_id) });
                &&& actions.play == tick_play_job(s1)
                &&& actions.preload == tick_preload_job(s1)
            },
            old(self).guild_state(guild_id).starting != Some(music_uuid) ==> actions.play is None
                && actions.preload is None,
            forall|g: u64| g != guild_id ==> final(self).guild_state(g) == old(self).guild_state(g),
            forall|g: u64| final(self).has_guild(g) == old(self).has_guild(g),
    {
        match self.find_index(guild_id) {
            Some(idx) => {
                let ghost mid = *self;
                proof {
                    mid.lemma_state_at(idx as int);
                }
                let mut gm = self.take_guild(idx);
                let r = gm.play_failed(music_uuid);
                let ghost gmv = gm@;
                self.put_guild(idx, gm);
                proof {
                    assert(self.states() =~= mid.states().update(idx as int, gmv));
                    GuildRegistry::lemma_update(mid, *self, idx as int);
                }
                r
            },
            None => TickActions { play: None, preload: None },
        }
    }

    /// Routes a preload job's outcome to `guild_id`'s state, when one
    /// exists. See [`GuildMusic::commit_preload`].
    pub fn commit_preload(&mut self, guild_id: u64, music_uuid: u128, track_pair: u64) -> (committed:
        bool)
        requires
            old(self).wf(),
        ensures
            final(self).wf(),
            final(self).guild_state(guild_id) == commit_preload_step(
                old(self).guild_state(guild_id),
                music_uuid,
                track_pair,
            ),
            committed == preload_commit_allowed(old(self).guild_state(guild_id), music_uuid),
            forall|g: u64| g != guild_id ==> final(self).guild_state(g) == old(self).guild_state(g),
            forall|g: u64| final(self).has_guild(g) == old(self).has_guild(g),
    {
        match self.find_index(guild_id) {
            Some(idx) => {
                let ghost mid = *self;
                proof {
                    mid.lemma_state_at(idx as int);
                }
                let mut gm = self.take_guild(idx);
                let r = gm.commit_preload(music_uuid, track_pair);
                let ghost gmv = gm@;
                self.put_guild(idx, gm);
                proof {
                    assert(self.states() =~= mid.states().update(idx as int, gmv));
                    GuildRegistry::lemma_update(mid, *self, idx as int);
                }
                r
            },
            None => false,
        }
    }
}

} // verus!
