//! The coordinator's laws, stated over arbitrary interleavings of commands
//! and completion events.
//!
//! Concurrency is modelled by event sequences: any command of a user and
//! any completion notification of the voice backend may arrive in any
//! order, and [`step`] is exactly the transition each of the executable
//! operations is proved to implement.

use vstd::prelude::*;
use crate::music::{
    MusicRequest, StateV, commit_play_step, commit_preload_step, enqueue_step, play_failed_step,
    skip_removed, skip_step, stop_step, tick_pop_enabled, tick_step, track_end_step,
};

verus! {

/// One event a guild can observe: a command of a user, or the completion of
/// asynchronous work handed out earlier.
pub ghost enum GuildEvent {
    /// A request is enqueued, with its freshly generated tag.
    Enqueue(MusicRequest),
    /// The voice backend reports the playback tagged `uuid` finished.
    TrackEnd { uuid: u128 },
    /// A play job succeeded: the entry resolved, and a connection to
    /// `channel_id` was acquired or reused.
    PlayResolved { uuid: u128, track_handle: u64, channel_id: u64, call: u64 },
    /// A play job failed to resolve or connect.
    PlayFailed { uuid: u128 },
    /// A preload job finished resolving.
    PreloadResolved { uuid: u128, track_pair: u64 },
    /// The skip command.
    Skip { quantity: usize },
    /// The stop command.
    Stop,
    /// The shuffle command; the permutation the randomness chose is the
    /// event's payload.
    Shuffle { permuted: Seq<MusicRequest> },
}

/// The shuffle command's transition: the queue is replaced by the chosen
/// permutation; an empty queue, or a payload that is no permutation,
/// changes nothing.
pub open spec fn shuffle_step(s: StateV, permuted: Seq<MusicRequest>) -> StateV {
    if s.queue.len() > 0 && permuted.to_multiset() == s.queue.to_multiset() {
        StateV { queue: permuted, ..s }
    } else {
        s
    }
}

/// The transition one event makes, exactly as the executable operations
/// implement it.
pub open spec fn step(s: StateV, e: GuildEvent) -> StateV {
    match e {
        GuildEvent::Enqueue(request) => tick_step(enqueue_step(s, request)),
        GuildEvent::TrackEnd { uuid } => tick_step(track_end_step(s, uuid)),
        GuildEvent::PlayResolved { uuid, track_handle, channel_id, call } => commit_play_step(
            s,
            uuid,
            track_handle,
            channel_id,
            call,
        ),
        GuildEvent::PlayFailed { uuid } => play_failed_step(s, uuid),
        GuildEvent::PreloadResolved { uuid, track_pair } => commit_preload_step(
            s,
            uuid,
            track_pair,
        ),
        GuildEvent::Skip { quantity } => skip_step(s, quantity),
        GuildEvent::Stop => stop_step(s),
        GuildEvent::Shuffle { permuted } => shuffle_step(s, permuted),
    }
}

/// The state after a whole sequence of events.
pub open spec fn run(s: StateV, events: Seq<GuildEvent>) -> StateV
    decreases events.len(),
{
    if events.len() == 0 {
        s
    } else {
        run(step(s, events[0]), events.drop_first())
    }
}

/// One event keeps at most one entry playing or starting.
pub proof fn lemma_step_preserves_wf(s: StateV, e: GuildEvent)
    requires
        s.wf(),
    ensures
        step(s, e).wf(),
{
}

/// At-most-one-playing: whatever sequence of concurrent commands and
/// completion events a guild observes, at most one entry is playing or
/// starting at any instant. (Any instant is the end of some prefix of the
/// sequence, and prefixes of event sequences are event sequences.)
pub proof fn lemma_at_most_one_playing(s: StateV, events: Seq<GuildEvent>)
    requires
        s.wf(),
    ensures
        run(s, events).wf(),
        run(s, events).active_playbacks() <= 1,
    decreases events.len(),
{
    if events.len() > 0 {
        lemma_step_preserves_wf(s, events[0]);
        lemma_at_most_one_playing(step(s, events[0]), events.drop_first());
    }
}

// ---------------------------------------------------------------------------
// FIFO preservation
// ---------------------------------------------------------------------------

/// The tags of a queue, front first.
pub open spec fn queue_uuids(q: Seq<MusicRequest>) -> Seq<u128> {
    q.map_values(|r: MusicRequest| r.uuid)
}

/// An optional tag as a sequence of zero or one elements.
pub open spec fn opt_seq(o: Option<u128>) -> Seq<u128> {
    match o {
        Some(u) => seq![u],
        None => Seq::empty(),
    }
}

/// The tag an event enqueues, if any.
pub open spec fn enqueued_of(e: GuildEvent) -> Seq<u128> {
    match e {
        GuildEvent::Enqueue(request) => seq![request.uuid],
        _ => Seq::empty(),
    }
}

/// The tag a tick run on `s` pops, if any.
pub open spec fn pop_of_tick(s: StateV) -> Seq<u128> {
    if tick_pop_enabled(s) {
        seq![s.queue[0].uuid]
    } else {
        Seq::empty()
    }
}

/// The tag an event's tick pops from the queue, if any.
pub open spec fn popped_of(s: StateV, e: GuildEvent) -> Seq<u128> {
    match e {
        GuildEvent::Enqueue(request) => pop_of_tick(enqueue_step(s, request)),
        GuildEvent::TrackEnd { uuid } => pop_of_tick(track_end_step(s, uuid)),
        GuildEvent::PlayFailed { uuid } => if s.starting == Some(uuid) {
            pop_of_tick((StateV { starting: None, ..s }))
        } else {
            Seq::empty()
        },
        _ => Seq::empty(),
    }
}

/// The tag an event commits as now playing, if any.
pub open spec fn played_of(s: StateV, e: GuildEvent) -> Seq<u128> {
    match e {
        GuildEvent::PlayResolved { uuid, .. } => if s.starting == Some(uuid) {
            seq![uuid]
        } else {
            Seq::empty()
        },
        _ => Seq::empty(),
    }
}

/// All tags enqueued over a sequence of events, in order.
pub open spec fn run_enqueued(s: StateV, events: Seq<GuildEvent>) -> Seq<u128>
    decreases events.len(),
{
    if events.len() == 0 {
        Seq::empty()
    } else {
        enqueued_of(events[0]) + run_enqueued(step(s, events[0]), events.drop_first())
    }
}

/// All tags popped over a sequence of events, in order.
pub open spec fn run_popped(s: StateV, events: Seq<GuildEvent>) -> Seq<u128>
    decreases events.len(),
{
    if events.len() == 0 {
        Seq::empty()
    } else {
        popped_of(s, events[0]) + run_popped(step(s, events[0]), events.drop_first())
    }
}

/// All tags that became now playing over a sequence of events, in order.
pub open spec fn run_played(s: StateV, events: Seq<GuildEvent>) -> Seq<u128>
    decreases events.len(),
{
    if events.len() == 0 {
        Seq::empty()
    } else {
        played_of(s, events[0]) + run_played(step(s, events[0]), events.drop_first())
    }
}

/// No skip, stop or shuffle among the events.
pub open spec fn fifo_only(events: Seq<GuildEvent>) -> bool {
    forall|i: int|
        0 <= i < events.len() ==> {
            &&& !((#[trigger] events[i]) is Skip)
            &&& !(events[i] is Stop)
            &&& !(events[i] is Shuffle)
        }
}

/// Without skip, stop and shuffle, one event conserves the queue: the old
/// queue plus what was enqueued equals what was popped plus the new queue.
proof fn lemma_step_queue_conservation(s: StateV, e: GuildEvent)
    requires
        !(e is Skip),
        !(e is Stop),
        !(e is Shuffle),
    ensures
        queue_uuids(s.queue) + enqueued_of(e) == popped_of(s, e) + queue_uuids(step(s, e).queue),
{
    match e {
        GuildEvent::Enqueue(request) => {
            let s1 = enqueue_step(s, request);
            assert(queue_uuids(s.queue) + enqueued_of(e) =~= popped_of(s, e) + queue_uuids(
                step(s, e).queue,
            ));
        },
        GuildEvent::TrackEnd { uuid } => {
            assert(queue_uuids(s.queue) + enqueued_of(e) =~= popped_of(s, e) + queue_uuids(
                step(s, e).queue,
            ));
        },
        GuildEvent::PlayFailed { uuid } => {
            assert(queue_uuids(s.queue) + enqueued_of(e) =~= popped_of(s, e) + queue_uuids(
                step(s, e).queue,
            ));
        },
        _ => {
            assert(queue_uuids(s.queue) + enqueued_of(e) =~= popped_of(s, e) + queue_uuids(
                step(s, e).queue,
            ));
        },
    }
}

/// Queue conservation over whole event sequences.
proof fn lemma_run_queue_conservation(s: StateV, events: Seq<GuildEvent>)
    requires
        fifo_only(events),
    ensures
        queue_uuids(s.queue) + run_enqueued(s, events) == run_popped(s, events) + queue_uuids(
            run(s, events).queue,
        ),
    decreases events.len(),
{
    if events.len() == 0 {
        assert(queue_uuids(s.queue) + run_enqueued(s, events) =~= run_popped(s, events)
            + queue_uuids(run(s, events).queue));
    } else {
        let e = events[0];
        let s1 = step(s, e);
        let rest = events.drop_first();
        assert(fifo_only(rest)) by {
            assert(forall|i: int| 0 <= i < rest.len() ==> rest[i] == events[i + 1]);
        }
        lemma_step_queue_conservation(s, e);
        lemma_run_queue_conservation(s1, rest);
        assert(queue_uuids(s.queue) + run_enqueued(s, events) =~= (queue_uuids(s.queue)
            + enqueued_of(e)) + run_enqueued(s1, rest));
        assert((popped_of(s, e) + queue_uuids(s1.queue)) + run_enqueued(s1, rest) =~= popped_of(
            s,
            e,
        ) + (queue_uuids(s1.queue) + run_enqueued(s1, rest)));
        assert(popped_of(s, e) + (run_popped(s1, rest) + queue_uuids(run(s1, rest).queue))
            =~= run_popped(s, events) + queue_uuids(run(s, events).queue));
    }
}

/// FIFO preservation, first half: starting from a fresh guild and without
/// skip, stop or shuffle, the tags popped for playback are exactly a prefix
/// of the tags enqueued, in the same order.
pub proof fn lemma_fifo_pops_in_order(guild_id: u64, events: Seq<GuildEvent>)
    requires
        fifo_only(events),
    ensures
        ({
            let popped = run_popped(StateV::empty(guild_id), events);
            let enqueued = run_enqueued(StateV::empty(guild_id), events);
            &&& popped.len() <= enqueued.len()
            &&& popped == enqueued.take(popped.len() as int)
        }),
{
    let s0 = StateV::empty(guild_id);
    lemma_run_queue_conservation(s0, events);
    let popped = run_popped(s0, events);
    let enqueued = run_enqueued(s0, events);
    assert(queue_uuids(s0.queue) + enqueued =~= enqueued);
    assert(popped == enqueued.take(popped.len() as int)) by {
        assert(enqueued =~= popped + queue_uuids(run(s0, events).queue));
        assert(popped =~= enqueued.take(popped.len() as int));
    }
}

// ---------------------------------------------------------------------------
// Order-preserving selections
// ---------------------------------------------------------------------------

/// `a` is an order-preserving selection of `b`: `b` with some elements
/// dropped.
pub open spec fn is_subsequence_of(a: Seq<u128>, b: Seq<u128>) -> bool
    decreases a.len() + b.len(),
{
    if a.len() == 0 {
        true
    } else if b.len() == 0 {
        false
    } else {
        (a[0] == b[0] && is_subsequence_of(a.drop_first(), b.drop_first())) || is_subsequence_of(
            a,
            b.drop_first(),
        )
    }
}

proof fn lemma_subseq_refl(a: Seq<u128>)
    ensures
        is_subsequence_of(a, a),
    decreases a.len(),
{
    if a.len() > 0 {
        lemma_subseq_refl(a.drop_first());
    }
}

proof fn lemma_subseq_extend_right(a: Seq<u128>, b: Seq<u128>, c: Seq<u128>)
    requires
        is_subsequence_of(a, b),
    ensures
        is_subsequence_of(a, b + c),
    decreases a.len() + b.len(),
{
    if a.len() == 0 {
    } else {
        assert((b + c).drop_first() =~= b.drop_first() + c);
        if a[0] == b[0] && is_subsequence_of(a.drop_first(), b.drop_first()) {
            lemma_subseq_extend_right(a.drop_first(), b.drop_first(), c);
        } else {
            lemma_subseq_extend_right(a, b.drop_first(), c);
        }
    }
}

proof fn lemma_subseq_into_appended(c: Seq<u128>, b: Seq<u128>)
    ensures
        is_subsequence_of(c, b + c),
    decreases b.len(),
{
    if b.len() == 0 {
        assert(b + c =~= c);
        lemma_subseq_refl(c);
    } else {
        lemma_subseq_into_appended(c, b.drop_first());
        assert((b + c).drop_first() =~= b.drop_first() + c);
    }
}

proof fn lemma_subseq_append_both(a: Seq<u128>, b: Seq<u128>, c: Seq<u128>)
    requires
        is_subsequence_of(a, b),
    ensures
        is_subsequence_of(a + c, b + c),
    decreases a.len() + b.len(),
{
    if a.len() == 0 {
        assert(a + c =~= c);
        lemma_subseq_into_appended(c, b);
    } else {
        assert((a + c).drop_first() =~= a.drop_first() + c);
        assert((b + c).drop_first() =~= b.drop_first() + c);
        if a[0] == b[0] && is_subsequence_of(a.drop_first(), b.drop_first()) {
            lemma_subseq_append_both(a.drop_first(), b.drop_first(), c);
        } else {
            lemma_subseq_append_both(a, b.drop_first(), c);
        }
    }
}

proof fn lemma_subseq_prepend_both(c: Seq<u128>, a: Seq<u128>, b: Seq<u128>)
    requires
        is_subsequence_of(a, b),
    ensures
        is_subsequence_of(c + a, c + b),
    decreases c.len(),
{
    if c.len() == 0 {
        assert(c + a =~= a);
        assert(c + b =~= b);
    } else {
        lemma_subseq_prepend_both(c.drop_first(), a, b);
        assert((c + a).drop_first() =~= c.drop_first() + a);
        assert((c + b).drop_first() =~= c.drop_first() + b);
    }
}

proof fn lemma_subseq_trans(a: Seq<u128>, b: Seq<u128>, c: Seq<u128>)
    requires
        is_subsequence_of(a, b),
        is_subsequence_of(b, c),
    ensures
        is_subsequence_of(a, c),
    decreases a.len() + b.len() + c.len(),
{
    if a.len() == 0 || b.len() == 0 || c.len() == 0 {
    } else {
        if b[0] == c[0] && is_subsequence_of(b.drop_first(), c.drop_first()) {
            if a[0] == b[0] && is_subsequence_of(a.drop_first(), b.drop_first()) {
                lemma_subseq_trans(a.drop_first(), b.drop_first(), c.drop_first());
            } else {
                lemma_subseq_trans(a, b.drop_first(), c.drop_first());
            }
        } else {
            lemma_subseq_trans(a, b, c.drop_first());
        }
    }
}

proof fn lemma_prefix_subseq(a: Seq<u128>, b: Seq<u128>)
    requires
        a.len() <= b.len(),
        a == b.take(a.len() as int),
    ensures
        is_subsequence_of(a, b),
    decreases a.len(),
{
    if a.len() > 0 {
        assert(a[0] == b[0]);
        assert(a.drop_first() =~= b.drop_first().take(a.drop_first().len() as int));
        lemma_prefix_subseq(a.drop_first(), b.drop_first());
    }
}

// ---------------------------------------------------------------------------
// Playback order
// ---------------------------------------------------------------------------

/// One event's playback commits follow its pops: what became now playing,
/// together with the claim left in flight, selects in order from the claim
/// that was in flight and what was popped.
proof fn lemma_step_played_order(s: StateV, e: GuildEvent)
    requires
        !(e is Skip),
        !(e is Stop),
        !(e is Shuffle),
    ensures
        is_subsequence_of(
            played_of(s, e) + opt_seq(step(s, e).starting),
            opt_seq(s.starting) + popped_of(s, e),
        ),
{
    let lhs = played_of(s, e) + opt_seq(step(s, e).starting);
    let rhs = opt_seq(s.starting) + popped_of(s, e);
    match e {
        GuildEvent::Enqueue(request) => {
            if tick_pop_enabled(enqueue_step(s, request)) {
                assert(lhs =~= rhs);
                lemma_subseq_refl(lhs);
            } else {
                assert(lhs =~= opt_seq(s.starting));
                assert(rhs =~= opt_seq(s.starting));
                lemma_subseq_refl(lhs);
            }
        },
        GuildEvent::TrackEnd { uuid } => {
            if tick_pop_enabled(track_end_step(s, uuid)) {
                assert(lhs =~= rhs);
                lemma_subseq_refl(lhs);
            } else {
                assert(lhs =~= opt_seq(s.starting));
                assert(rhs =~= opt_seq(s.starting));
                lemma_subseq_refl(lhs);
            }
        },
        GuildEvent::PlayFailed { uuid } => {
            if s.starting == Some(uuid) {
                assert(lhs =~= popped_of(s, e));
                lemma_subseq_into_appended(popped_of(s, e), opt_seq(s.starting));
            } else {
                assert(lhs =~= opt_seq(s.starting));
                assert(rhs =~= opt_seq(s.starting));
                lemma_subseq_refl(lhs);
            }
        },
        GuildEvent::PlayResolved { uuid, .. } => {
            if s.starting == Some(uuid) {
                assert(lhs =~= rhs);
                lemma_subseq_refl(lhs);
            } else {
                assert(lhs =~= opt_seq(s.starting));
                assert(rhs =~= opt_seq(s.starting));
                lemma_subseq_refl(lhs);
            }
        },
        _ => {
            assert(lhs =~= opt_seq(s.starting));
            assert(rhs =~= opt_seq(s.starting));
            lemma_subseq_refl(lhs);
        },
    }
}

/// Playback commits follow pops over whole event sequences.
proof fn lemma_run_played_order(s: StateV, events: Seq<GuildEvent>)
    requires
        fifo_only(events),
    ensures
        is_subsequence_of(
            run_played(s, events) + opt_seq(run(s, events).starting),
            opt_seq(s.starting) + run_popped(s, events),
        ),
    decreases events.len(),
{
    if events.len() == 0 {
        assert(run_played(s, events) + opt_seq(run(s, events).starting) =~= opt_seq(s.starting));
        assert(opt_seq(s.starting) + run_popped(s, events) =~= opt_seq(s.starting));
        lemma_subseq_refl(opt_seq(s.starting));
    } else {
        let e = events[0];
        let s1 = step(s, e);
        let rest = events.drop_first();
        assert(fifo_only(rest)) by {
            assert(forall|i: int| 0 <= i < rest.len() ==> rest[i] == events[i + 1]);
        }
        lemma_step_played_order(s, e);
        lemma_run_played_order(s1, rest);
        let tail_lhs = run_played(s1, rest) + opt_seq(run(s1, rest).starting);
        let tail_rhs = opt_seq(s1.starting) + run_popped(s1, rest);
        lemma_subseq_prepend_both(played_of(s, e), tail_lhs, tail_rhs);
        assert(played_of(s, e) + tail_lhs =~= run_played(s, events) + opt_seq(
            run(s, events).starting,
        ));
        let head_lhs = played_of(s, e) + opt_seq(s1.starting);
        let head_rhs = opt_seq(s.starting) + popped_of(s, e);
        lemma_subseq_append_both(head_lhs, head_rhs, run_popped(s1, rest));
        assert(played_of(s, e) + tail_rhs =~= head_lhs + run_popped(s1, rest));
        assert(head_rhs + run_popped(s1, rest) =~= opt_seq(s.starting) + run_popped(s, events));
        lemma_subseq_trans(
            run_played(s, events) + opt_seq(run(s, events).starting),
            head_lhs + run_popped(s1, rest),
            opt_seq(s.starting) + run_popped(s, events),
        );
    }
}

/// FIFO preservation: starting from a fresh guild, without skip, stop or
/// shuffle interleaved, entries become now playing in the exact order they
/// were enqueued. The tags popped for playback are a prefix of the enqueued
/// tags (see [`lemma_fifo_pops_in_order`]), and the tags committed as now
/// playing select from the enqueued tags in order (an entry whose
/// resolution or connection failed leaves a gap, but never a reordering).
pub proof fn lemma_fifo_preservation(guild_id: u64, events: Seq<GuildEvent>)
    requires
        fifo_only(events),
    ensures
        is_subsequence_of(
            run_played(StateV::empty(guild_id), events),
            run_enqueued(StateV::empty(guild_id), events),
        ),
{
    let s0 = StateV::empty(guild_id);
    let played = run_played(s0, events);
    let popped = run_popped(s0, events);
    let enqueued = run_enqueued(s0, events);
    lemma_run_played_order(s0, events);
    assert(opt_seq(s0.starting) + popped =~= popped);
    lemma_subseq_refl(played);
    lemma_subseq_extend_right(played, played, opt_seq(run(s0, events).starting));
    lemma_subseq_trans(played, played + opt_seq(run(s0, events).starting), popped);
    lemma_fifo_pops_in_order(guild_id, events);
    lemma_prefix_subseq(popped, enqueued);
    lemma_subseq_trans(played, popped, enqueued);
}

// ---------------------------------------------------------------------------
// Staleness immunity
// ---------------------------------------------------------------------------

/// Whether any queued entry bears the tag.
pub open spec fn queue_has_uuid(q: Seq<MusicRequest>, uuid: u128) -> bool {
    exists|i: int| 0 <= i < q.len() && q[i].uuid == uuid
}

/// The tag is dead to the guild: no queued entry bears it, it is neither
/// playing nor starting, and a preload slot still bearing it holds no
/// resolved source.
pub open spec fn immune_to(s: StateV, uuid: u128) -> bool {
    &&& !queue_has_uuid(s.queue, uuid)
    &&& s.starting != Some(uuid)
    &&& (match s.now_playing {
        Some(np) => np.uuid != uuid,
        None => true,
    })
    &&& (match s.preloaded {
        Some(slot) => slot.uuid == uuid ==> slot.track_pair is None,
        None => true,
    })
}

/// The tag is never enqueued again; tags are freshly generated, so a
/// removed entry's tag does not come back.
pub open spec fn never_enqueued(events: Seq<GuildEvent>, uuid: u128) -> bool {
    forall|i: int|
        0 <= i < events.len() ==> !((#[trigger] events[i]) matches GuildEvent::Enqueue(r)
            && r.uuid == uuid)
}

/// One event keeps a dead tag dead, as long as it is not re-enqueued.
proof fn lemma_step_staleness(s: StateV, e: GuildEvent, uuid: u128)
    requires
        immune_to(s, uuid),
        !(e matches GuildEvent::Enqueue(r) && r.uuid == uuid),
    ensures
        immune_to(step(s, e), uuid),
{
    assert(forall|i: int| 0 <= i < s.queue.len() ==> s.queue[i].uuid != uuid);
    match e {
        GuildEvent::Enqueue(request) => {
            let q1 = enqueue_step(s, request).queue;
            assert(forall|i: int| 0 <= i < q1.len() ==> q1[i].uuid != uuid);
            let s2 = step(s, e);
            assert(forall|i: int| 0 <= i < s2.queue.len() ==> s2.queue[i].uuid != uuid);
            assert(!queue_has_uuid(s2.queue, uuid));
        },
        GuildEvent::TrackEnd { .. } => {
            let s2 = step(s, e);
            assert(forall|i: int| 0 <= i < s2.queue.len() ==> s2.queue[i].uuid != uuid);
            assert(!queue_has_uuid(s2.queue, uuid));
        },
        GuildEvent::PlayFailed { .. } => {
            let s2 = step(s, e);
            assert(forall|i: int| 0 <= i < s2.queue.len() ==> s2.queue[i].uuid != uuid);
            assert(!queue_has_uuid(s2.queue, uuid));
        },
        GuildEvent::PreloadResolved { uuid: committed, .. } => {
            if committed == uuid && s.queue.len() > 0 {
                assert(s.queue[0].uuid != uuid);
            }
        },
        GuildEvent::Skip { quantity } => {
            let s2 = step(s, e);
            assert(forall|i: int| 0 <= i < s2.queue.len() ==> s2.queue[i].uuid != uuid);
            assert(!queue_has_uuid(s2.queue, uuid));
        },
        GuildEvent::Shuffle { permuted } => {
            if s.queue.len() > 0 && permuted.to_multiset() == s.queue.to_multiset() {
                assert forall|i: int| 0 <= i < permuted.len() implies permuted[i].uuid != uuid by {
                    let x = permuted[i];
                    permuted.to_multiset_ensures();
                    s.queue.to_multiset_ensures();
                    assert(permuted.contains(x));
                    assert(permuted.to_multiset().count(x) > 0);
                    assert(s.queue.contains(x));
                    let j = choose|j: int| 0 <= j < s.queue.len() && s.queue[j] == x;
                    assert(s.queue[j].uuid == x.uuid);
                }
                assert(!queue_has_uuid(step(s, e).queue, uuid));
            }
        },
        _ => {},
    }
}

/// Staleness immunity: once an entry's tag is dead to the guild — as it is
/// right after `skip` removes a preloaded entry whose fetch is still in
/// flight — no later sequence of commands and completion events commits its
/// resolution result as playing or into the preload slot, as long as the
/// tag is not enqueued anew. In particular a late `PreloadResolved` bearing
/// the tag is discarded, and nothing ever plays under it.
pub proof fn lemma_staleness_immunity(s: StateV, events: Seq<GuildEvent>, uuid: u128)
    requires
        immune_to(s, uuid),
        never_enqueued(events, uuid),
    ensures
        immune_to(run(s, events), uuid),
    decreases events.len(),
{
    if events.len() > 0 {
        let rest = events.drop_first();
        assert(never_enqueued(rest, uuid)) by {
            assert(forall|i: int| 0 <= i < rest.len() ==> rest[i] == events[i + 1]);
        }
        lemma_step_staleness(s, events[0], uuid);
        lemma_staleness_immunity(step(s, events[0]), rest, uuid);
    }
}

/// `skip` establishes immunity for a preloaded entry it removes: when the
/// slot bears the front entry's tag with its fetch still in flight, the tag
/// is neither playing nor starting, and every queued entry bearing it sits
/// in the removed prefix, the tag is dead right after the skip.
pub proof fn lemma_skip_establishes_immunity(s: StateV, quantity: usize, uuid: u128)
    requires
        (match s.preloaded {
            Some(slot) => slot.uuid == uuid ==> slot.track_pair is None,
            None => true,
        }),
        s.starting != Some(uuid),
        (match s.now_playing {
            Some(np) => np.uuid != uuid,
            None => true,
        }),
        forall|i: int|
            skip_removed(s, quantity) <= i < s.queue.len() ==> s.queue[i].uuid != uuid,
    ensures
        immune_to(skip_step(s, quantity), uuid),
{
    let s2 = skip_step(s, quantity);
    assert(forall|i: int| 0 <= i < s2.queue.len() ==> s2.queue[i].uuid != uuid);
    assert(!queue_has_uuid(s2.queue, uuid));
}

} // verus!
