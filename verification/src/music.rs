//! The per-guild queue and playback state machine.
//!
//! Commands mutate the state and then run the tick, which decides what to do
//! next. Work of unbounded latency (resolving a request into a playable
//! source, joining a voice channel) never runs here: the tick hands it out as
//! a [`PlayJob`] or [`PreloadJob`], and its outcome comes back through
//! [`GuildMusic::commit_now_playing`], [`GuildMusic::play_failed`] or
//! [`GuildMusic::commit_preload`], each of which checks the result against
//! the current state and discards it when a race (skip, stop, a newer
//! preload) has made it stale.

use vstd::prelude::*;
use std::collections::VecDeque;
use crate::errors::{DiscordCommandError, ErrorKind, GuildMusicResult, user_input_error};
use crate::list::Shuffleable;

verus! {

// ---------------------------------------------------------------------------
// Data model
// ---------------------------------------------------------------------------

/// One pending request: immutable once created, removed from the queue when
/// it starts playing or is skipped or cleared.
#[derive(Debug, Clone)]
pub struct MusicRequest {
    /// Unique tag used to detect stale asynchronous results.
    pub uuid: u128,
    /// What the user asked for: a direct URL or free-text search.
    pub search_or_url: String,
    /// The voice channel the requester sat in.
    pub channel_id: u64,
    /// Who asked; informational only.
    pub requested_by: u64,
}

/// At most one outstanding speculative resolution: the next queue entry's
/// source, fetched while the current one still plays. `track_pair` is `None`
/// while the fetch is in flight. A slot whose `uuid` no longer matches the
/// queue's front is stale: it is discarded on the next tick and its result
/// is refused on commit.
#[derive(Debug, Clone, Copy)]
pub struct LoadedMusic {
    pub uuid: u128,
    /// Handle to the resolved source, once the fetch finished.
    pub track_pair: Option<u64>,
}

/// The active playback: the originating request's tag and the handle used to
/// ask for a stop.
#[derive(Debug, Clone, Copy)]
pub struct NowPlaying {
    pub uuid: u128,
    pub track_handle: u64,
}

/// Everything one guild owns: the FIFO queue, the preload slot, the active
/// playback, the held voice connection, and the entry whose resolution is in
/// flight.
#[derive(Debug)]
pub struct GuildMusicData {
    pub guild_id: u64,
    pub queue: VecDeque<MusicRequest>,
    pub preloaded: Option<LoadedMusic>,
    pub now_playing: Option<NowPlaying>,
    /// The voice connection currently held: the channel it is bound to and
    /// an opaque connection handle, reused for consecutive tracks bound for
    /// the same channel.
    pub call_pair: Option<(u64, u64)>,
    /// The tag of the entry the tick has popped and handed out as a
    /// [`PlayJob`] whose outcome has not come back yet. While it is set, no
    /// further entry is popped: a playback is active or starting.
    pub starting: Option<u128>,
}

/// The state machine of one guild.
pub struct GuildMusic {
    pub guild_music_data: GuildMusicData,
}

// ---------------------------------------------------------------------------
// Work the tick hands out
// ---------------------------------------------------------------------------

/// Resolve `request` (unless `preloaded` already carries its source), acquire
/// a connection to `request.channel_id` (unless `call` can be reused), then
/// report back through `commit_now_playing` or `play_failed`.
#[derive(Debug, Clone)]
pub struct PlayJob {
    pub request: MusicRequest,
    /// The source consumed from the preload slot, when its tag matched.
    pub preloaded: Option<u64>,
    /// The held connection, when it is bound to the requested channel.
    pub call: Option<u64>,
}

/// Resolve `search_or_url` speculatively and report back through
/// `commit_preload` with the same tag.
#[derive(Debug, Clone)]
pub struct PreloadJob {
    pub uuid: u128,
    pub search_or_url: String,
}

/// What one tick asks the surrounding runtime to do.
#[derive(Debug)]
pub struct TickActions {
    pub play: Option<PlayJob>,
    pub preload: Option<PreloadJob>,
}

// ---------------------------------------------------------------------------
// The mathematical view of a guild's state
// ---------------------------------------------------------------------------

/// The state of one guild, with the queue as a sequence.
#[verifier::ext_equal]
pub ghost struct StateV {
    pub guild_id: u64,
    pub queue: Seq<MusicRequest>,
    pub preloaded: Option<LoadedMusic>,
    pub now_playing: Option<NowPlaying>,
    pub call_pair: Option<(u64, u64)>,
    pub starting: Option<u128>,
}

impl StateV {
    /// The state a guild is created in.
    pub open spec fn empty(guild_id: u64) -> StateV {
        StateV {
            guild_id,
            queue: Seq::empty(),
            preloaded: None,
            now_playing: None,
            call_pair: None,
            starting: None,
        }
    }

    /// How many entries are past the point of no return: already playing, or
    /// popped with their resolution in flight.
    pub open spec fn active_playbacks(self) -> int {
        (if self.now_playing is Some {
            1int
        } else {
            0int
        }) + (if self.starting is Some {
            1int
        } else {
            0int
        })
    }

    /// At most one entry is playing or starting at any instant.
    pub open spec fn wf(self) -> bool {
        self.active_playbacks() <= 1
    }
}

impl View for GuildMusicData {
    type V = StateV;

    open spec fn view(&self) -> StateV {
        StateV {
            guild_id: self.guild_id,
            queue: self.queue@,
            preloaded: self.preloaded,
            now_playing: self.now_playing,
            call_pair: self.call_pair,
            starting: self.starting,
        }
    }
}

impl View for GuildMusic {
    type V = StateV;

    open spec fn view(&self) -> StateV {
        self.guild_music_data@
    }
}

// ---------------------------------------------------------------------------
// The transitions, as spec functions
// ---------------------------------------------------------------------------

/// Appending one request to the tail of the queue.
pub open spec fn enqueue_step(s: StateV, request: MusicRequest) -> StateV {
    StateV { queue: s.queue.push(request), ..s }
}

/// The preloaded source the tick may consume for `next`: present only when
/// the slot's tag matches and its fetch has finished.
pub open spec fn consumed_preload(s: StateV, next: MusicRequest) -> Option<u64> {
    match s.preloaded {
        Some(slot) => if slot.uuid == next.uuid {
            slot.track_pair
        } else {
            None
        },
        None => None,
    }
}

/// The held connection the tick may reuse for `next`: present only when it
/// is bound to the channel `next` asks for.
pub open spec fn reusable_call(s: StateV, next: MusicRequest) -> Option<u64> {
    match s.call_pair {
        Some(pair) => if pair.0 == next.channel_id {
            Some(pair.1)
        } else {
            None
        },
        None => None,
    }
}

/// The tick pops the front entry only when nothing is playing or starting
/// and the queue is non-empty.
pub open spec fn tick_pop_enabled(s: StateV) -> bool {
    s.now_playing is None && s.starting is None && s.queue.len() > 0
}

/// The tick's decision phase: pop the front entry, consume or discard the
/// preload slot, and claim the playback by setting `starting`.
pub open spec fn play_phase(s: StateV) -> (StateV, Option<PlayJob>) {
    if tick_pop_enabled(s) {
        let next = s.queue[0];
        (
            StateV {
                queue: s.queue.drop_first(),
                preloaded: None,
                starting: Some(next.uuid),
                ..s
            },
            Some(
                PlayJob {
                    preloaded: consumed_preload(s, next),
                    call: reusable_call(s, next),
                    request: next,
                },
            ),
        )
    } else {
        (s, None)
    }
}

/// Whether the tick's preload phase claims a new slot: there is a front
/// entry, and no slot for it exists yet.
pub open spec fn wants_preload(s: StateV) -> bool {
    s.queue.len() > 0 && match s.preloaded {
        Some(slot) => slot.uuid != s.queue[0].uuid,
        None => true,
    }
}

/// The tick's preload phase: claim an empty slot for the (possibly new)
/// front entry, so that a later commit can be checked against it.
pub open spec fn preload_phase(s: StateV) -> (StateV, Option<PreloadJob>) {
    if wants_preload(s) {
        (
            StateV {
                preloaded: Some(LoadedMusic { uuid: s.queue[0].uuid, track_pair: None }),
                ..s
            },
            Some(PreloadJob { uuid: s.queue[0].uuid, search_or_url: s.queue[0].search_or_url }),
        )
    } else {
        (s, None)
    }
}

/// One whole tick: the play phase, then the preload phase on its result.
pub open spec fn tick_step(s: StateV) -> StateV {
    preload_phase(play_phase(s).0).0
}

/// The play job a tick on `s` hands out.
pub open spec fn tick_play_job(s: StateV) -> Option<PlayJob> {
    play_phase(s).1
}

/// The preload job a tick on `s` hands out.
pub open spec fn tick_preload_job(s: StateV) -> Option<PreloadJob> {
    preload_phase(play_phase(s).0).1
}

/// A playback-finished notification: clears `now_playing` only when the tag
/// matches; a stale notification changes nothing.
pub open spec fn track_end_step(s: StateV, uuid: u128) -> StateV {
    match s.now_playing {
        Some(np) => if np.uuid == uuid {
            StateV { now_playing: None, ..s }
        } else {
            s
        },
        None => s,
    }
}

/// The handle a matching playback-finished notification stops.
pub open spec fn stopped_handle(s: StateV, uuid: u128) -> Option<u64> {
    match s.now_playing {
        Some(np) => if np.uuid == uuid {
            Some(np.track_handle)
        } else {
            None
        },
        None => None,
    }
}

/// A play job's successful outcome: committed only when the job is still the
/// one whose resolution is in flight; a stale result changes nothing.
pub open spec fn commit_play_step(
    s: StateV,
    uuid: u128,
    track_handle: u64,
    channel_id: u64,
    call: u64,
) -> StateV {
    if s.starting == Some(uuid) {
        StateV {
            starting: None,
            now_playing: Some(NowPlaying { uuid, track_handle }),
            call_pair: Some((channel_id, call)),
            ..s
        }
    } else {
        s
    }
}

/// The state after a play job for `uuid` reports failure: the claim is
/// released and the tick runs again, so the next entry is attempted.
pub open spec fn play_failed_step(s: StateV, uuid: u128) -> StateV {
    if s.starting == Some(uuid) {
        tick_step(StateV { starting: None, ..s })
    } else {
        s
    }
}

/// A preload result is accepted only while its tag still matches both the
/// slot and the queue's current front entry.
pub open spec fn preload_commit_allowed(s: StateV, uuid: u128) -> bool {
    &&& match s.preloaded {
        Some(slot) => slot.uuid == uuid,
        None => false,
    }
    &&& s.queue.len() > 0
    &&& s.queue[0].uuid == uuid
}

/// A preload job's outcome: committed into the slot only while still valid;
/// a stale result changes nothing.
pub open spec fn commit_preload_step(s: StateV, uuid: u128, track_pair: u64) -> StateV {
    if preload_commit_allowed(s, uuid) {
        StateV { preloaded: Some(LoadedMusic { uuid, track_pair: Some(track_pair) }), ..s }
    } else {
        s
    }
}

/// `stop` clears the playback and empties the queue; with nothing playing it
/// refuses and changes nothing.
pub open spec fn stop_step(s: StateV) -> StateV {
    if s.now_playing is Some {
        StateV { queue: Seq::empty(), now_playing: None, ..s }
    } else {
        s
    }
}

/// How many queued entries `skip(quantity)` removes from the front: up to
/// `quantity - 1`, capped at the queue's length.
pub open spec fn skip_removed(s: StateV, quantity: usize) -> int {
    if quantity > 1 && s.queue.len() > 0 {
        if quantity - 1 > s.queue.len() {
            s.queue.len() as int
        } else {
            quantity - 1
        }
    } else {
        0
    }
}

/// `skip` truncates the front of the queue; the playing entry itself is only
/// stopped, its completion notification advances the queue.
pub open spec fn skip_step(s: StateV, quantity: usize) -> StateV {
    StateV { queue: s.queue.skip(skip_removed(s, quantity)), ..s }
}

// ---------------------------------------------------------------------------
// Executable state machine
// ---------------------------------------------------------------------------

/// Relies on uuid's `Uuid::new_v4`: a freshly drawn random identifier,
/// returned as its 128-bit value. The result is random, so nothing is
/// promised of it.
#[verifier::external_body]
fn fresh_uuid() -> u128 {
    uuid::Uuid::new_v4().as_u128()
}

impl GuildMusicData {
    pub(crate) fn new(guild_id: u64) -> (r: GuildMusicData)
        ensures
            r@ == StateV::empty(guild_id),
    {
        GuildMusicData {
            guild_id,
            queue: VecDeque::new(),
            preloaded: None,
            now_playing: None,
            call_pair: None,
            starting: None,
        }
    }
}

impl GuildMusic {
    pub fn new(guild_id: u64) -> (r: GuildMusic)
        ensures
            r@ == StateV::empty(guild_id),
    {
        GuildMusic { guild_music_data: GuildMusicData::new(guild_id) }
    }

    /// The core scheduling decision, run after every mutation: start the
    /// front entry if nothing plays or starts, and claim a preload slot for
    /// the new front. Everything of unbounded latency is handed back in the
    /// returned actions.
    fn tick_guild_music(&mut self) -> (actions: TickActions)
        ensures
            final(self)@ == tick_step(old(self)@),
            actions.play == tick_play_job(old(self)@),
            actions.preload == tick_preload_job(old(self)@),
    {
        let data = &mut self.guild_music_data;
        let play: Option<PlayJob> = if data.now_playing.is_none() && data.starting.is_none() {
            match data.queue.pop_front() {
                Some(next) => {
                    let slot = data.preloaded;
                    data.preloaded = None;
                    let preloaded_track: Option<u64> = match slot {
                        Some(loaded) => if loaded.uuid == next.uuid {
                            loaded.track_pair
                        } else {
                            None
                        },
                        None => None,
                    };
                    let call: Option<u64> = match data.call_pair {
                        Some(pair) => if pair.0 == next.channel_id {
                            Some(pair.1)
                        } else {
                            None
                        },
                        None => None,
                    };
                    data.starting = Some(next.uuid);
                    Some(PlayJob { request: next, preloaded: preloaded_track, call })
                },
                None => None,
            }
        } else {
            None
        };
        let preload: Option<PreloadJob> = if data.queue.len() > 0 {
            let front_uuid = data.queue[0].uuid;
            let differs = match data.preloaded {
                Some(loaded) => loaded.uuid != front_uuid,
                None => true,
            };
            if differs {
                let job = PreloadJob {
                    uuid: front_uuid,
                    search_or_url: data.queue[0].search_or_url.clone(),
                };
                data.preloaded = Some(LoadedMusic { uuid: front_uuid, track_pair: None });
                Some(job)
            } else {
                None
            }
        } else {
            None
        };
        TickActions { play, preload }
    }

    /// Appends a new request with a freshly generated tag to the tail of the
    /// queue and runs the tick. Never fails. Returns the new tag and the
    /// work the tick handed out.
    pub fn insert_music(&mut self, search_or_url: String, channel_id: u64, requested_by: u64) -> (r:
        (u128, TickActions))
        ensures
            ({
                let s1 = enqueue_step(
                    old(self)@,
                    (MusicRequest { uuid: r.0, search_or_url, channel_id, requested_by }),
                );
                &&& final(self)@ == tick_step(s1)
                &&& r.1.play == tick_play_job(s1)
                &&& r.1.preload == tick_preload_job(s1)
            }),
            old(self)@.wf() ==> final(self)@.wf(),
    {
        let uuid = fresh_uuid();
        self.guild_music_data.queue.push_back(
            MusicRequest { uuid, search_or_url, channel_id, requested_by },
        );
        let actions = self.tick_guild_music();
        (uuid, actions)
    }

    /// Reacts to the external "playback finished" notification for
    /// `music_uuid`: when the tag matches the active playback, its handle is
    /// returned so the caller can ask it to stop, `now_playing` is cleared,
    /// and the tick advances the queue. A stale notification is ignored.
    pub fn handle_track_event(&mut self, music_uuid: u128) -> (r: (Option<u64>, TickActions))
        ensures
            ({
                let s1 = track_end_step(old(self)@, music_uuid);
                &&& final(self)@ == tick_step(s1)
                &&& r.0 == stopped_handle(old(self)@, music_uuid)
                &&& r.1.play == tick_play_job(s1)
                &&& r.1.preload == tick_preload_job(s1)
            }),
            old(self)@.wf() ==> final(self)@.wf(),
    {
        let data = &mut self.guild_music_data;
        let mut stopped: Option<u64> = None;
        match data.now_playing {
            Some(np) => {
                if np.uuid == music_uuid {
                    stopped = Some(np.track_handle);
                    data.now_playing = None;
                }
            },
            None => {},
        }
        let actions = self.tick_guild_music();
        (stopped, actions)
    }

    /// Clears the active playback and empties the queue, returning the
    /// handle to stop; fails with `NoSongCurrentlyPlaying`, changing
    /// nothing, when nothing plays.
    pub fn stop(&mut self) -> (r: GuildMusicResult<u64>)
        ensures
            final(self)@ == stop_step(old(self)@),
            (match old(self)@.now_playing {
                Some(np) => r == Ok::<u64, DiscordCommandError>(np.track_handle),
                None => r == Err::<u64, DiscordCommandError>(
                    user_input_error(ErrorKind::NoSongCurrentlyPlaying),
                ),
            }),
            old(self)@.wf() ==> final(self)@.wf(),
    {
        let data = &mut self.guild_music_data;
        match data.now_playing {
            Some(np) => {
                data.now_playing = None;
                data.queue = VecDeque::new();
                Ok(np.track_handle)
            },
            None => Err(DiscordCommandError::user_input(ErrorKind::NoSongCurrentlyPlaying)),
        }
    }

    /// Removes up to `quantity - 1` entries from the front of the queue
    /// (capped at its length) without resolving them, then asks for the
    /// active playback to be stopped: its completion notification advances
    /// the queue. Fails with `NoSongCurrentlyPlaying` when nothing plays,
    /// even though the queue was already truncated. On success returns how
    /// many entries were skipped (the removed ones plus the playing one) and
    /// the handle to stop.
    pub fn skip(&mut self, quantity: usize) -> (r: GuildMusicResult<(usize, u64)>)
        ensures
            final(self)@ == skip_step(old(self)@, quantity),
            (match old(self)@.now_playing {
                Some(np) => r == Ok::<(usize, u64), DiscordCommandError>(
                    ((skip_removed(old(self)@, quantity) + 1) as usize, np.track_handle),
                ),
                None => r == Err::<(usize, u64), DiscordCommandError>(
                    user_input_error(ErrorKind::NoSongCurrentlyPlaying),
                ),
            }),
            quantity > old(self)@.queue.len() ==> final(self)@.queue == Seq::<
                MusicRequest,
            >::empty(),
            quantity <= 1 ==> final(self)@.queue == old(self)@.queue,
            old(self)@.wf() ==> final(self)@.wf(),
    {
        let data = &mut self.guild_music_data;
        let queue_len = data.queue.len();
        let mut removed_from_queue: usize = 0;
        if quantity > 1 && queue_len > 0 {
            removed_from_queue = if quantity - 1 > queue_len {
                queue_len
            } else {
                quantity - 1
            };
            let tail = data.queue.split_off(removed_from_queue);
            data.queue = tail;
        }
        match data.now_playing {
            Some(np) => Ok((removed_from_queue + 1, np.track_handle)),
            None => Err(DiscordCommandError::user_input(ErrorKind::NoSongCurrentlyPlaying)),
        }
    }

    /// Randomly permutes the queue in place; fails with `QueueIsEmpty`,
    /// changing nothing, when the queue has no entries. Neither the active
    /// playback nor the preload slot is touched: a slot made stale by the
    /// reordering is invalidated by the next tick's tag check.
    pub fn shuffle(&mut self) -> (r: GuildMusicResult<()>)
        ensures
            old(self)@.queue.len() == 0 ==> final(self)@ == old(self)@ && r == Err::<
                (),
                DiscordCommandError,
            >(user_input_error(ErrorKind::QueueIsEmpty)),
            old(self)@.queue.len() > 0 ==> {
                &&& r == Ok::<(), DiscordCommandError>(())
                &&& final(self)@.queue.to_multiset() == old(self)@.queue.to_multiset()
                &&& final(self)@.queue.len() == old(self)@.queue.len()
                &&& final(self)@ == (StateV { queue: final(self)@.queue, ..old(self)@ })
            },
            old(self)@.wf() ==> final(self)@.wf(),
    {
        if self.guild_music_data.queue.len() == 0 {
            Err(DiscordCommandError::user_input(ErrorKind::QueueIsEmpty))
        } else {
            let ghost before = self.guild_music_data.queue@;
            self.guild_music_data.queue.shuffle();
            proof {
                before.to_multiset_ensures();
                self.guild_music_data.queue@.to_multiset_ensures();
            }
            Ok(())
        }
    }

    /// Commits a play job's successful outcome: only while `music_uuid` is
    /// still the claimed in-flight entry does the playback become active and
    /// the connection get recorded for reuse. Returns whether it committed;
    /// on `false` the result was stale and the caller must not start
    /// playback.
    pub fn commit_now_playing(
        &mut self,
        music_uuid: u128,
        track_handle: u64,
        channel_id: u64,
        call: u64,
    ) -> (committed: bool)
        ensures
            final(self)@ == commit_play_step(old(self)@, music_uuid, track_handle, channel_id, call),
            committed == (old(self)@.starting == Some(music_uuid)),
            old(self)@.wf() ==> final(self)@.wf(),
    {
        let data = &mut self.guild_music_data;
        let matched = match data.starting {
            Some(claimed) => claimed == music_uuid,
            None => false,
        };
        if matched {
            data.starting = None;
            data.now_playing = Some(NowPlaying { uuid: music_uuid, track_handle });
            data.call_pair = Some((channel_id, call));
        }
        matched
    }

    /// Reports that a play job failed to resolve or connect: the claim is
    /// released (nothing is committed for the entry, which is dropped) and
    /// the tick runs again so the next entry is attempted. A stale report
    /// changes nothing.
    pub fn play_failed(&mut self, music_uuid: u128) -> (actions: TickActions)
        ensures
            final(self)@ == play_failed_step(old(self)@, music_uuid),
            old(self)@.starting == Some(music_uuid) ==> {
                let s1 = (StateV { starting: None, ..old(self)@ });
                &&& actions.play == tick_play_job(s1)
                &&& actions.preload == tick_preload_job(s1)
            },
            old(self)@.starting != Some(music_uuid) ==> actions.play is None && actions.preload
                is None,
            old(self)@.wf() ==> final(self)@.wf(),
    {
        let matched = match self.guild_music_data.starting {
            Some(claimed) => claimed == music_uuid,
            None => false,
        };
        if matched {
            self.guild_music_data.starting = None;
            self.tick_guild_music()
        } else {
            TickActions { play: None, preload: None }
        }
    }

    /// Commits a preload job's outcome into the slot, but only while the tag
    /// still matches both the slot and the queue's current front entry: a
    /// result whose entry was skipped past or superseded is discarded.
    pub fn commit_preload(&mut self, music_uuid: u128, track_pair: u64) -> (committed: bool)
        ensures
            final(self)@ == commit_preload_step(old(self)@, music_uuid, track_pair),
            committed == preload_commit_allowed(old(self)@, music_uuid),
            old(self)@.wf() ==> final(self)@.wf(),
    {
        let data = &mut self.guild_music_data;
        let slot_matches = match data.preloaded {
            Some(slot) => slot.uuid == music_uuid,
            None => false,
        };
        let front_matches = data.queue.len() > 0 && data.queue[0].uuid == music_uuid;
        if slot_matches && front_matches {
            data.preloaded = Some(LoadedMusic { uuid: music_uuid, track_pair: Some(track_pair) });
            true
        } else {
            false
        }
    }
}

} // verus!
