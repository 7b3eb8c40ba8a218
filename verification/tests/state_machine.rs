use guild_music::errors::ErrorKind;
use guild_music::music::GuildMusic;

/// A guild whose first entry is playing: uuid of the entry, handle 11,
/// channel 100, call token 21.
fn playing_guild() -> (GuildMusic, u128) {
    let mut gm = GuildMusic::new(7);
    let (ua, actions) = gm.insert_music(String::from("first track"), 100, 1);
    let job = actions.play.expect("an idle guild starts its first entry");
    assert_eq!(job.request.uuid, ua);
    assert!(gm.commit_now_playing(ua, 11, 100, 21));
    (gm, ua)
}

#[test]
fn enqueue_starts_and_preloads() {
    let mut gm = GuildMusic::new(7);
    let (ua, act_a) = gm.insert_music(String::from("A"), 100, 1);
    let job_a = act_a.play.expect("an idle guild starts its first entry");
    assert_eq!(job_a.request.uuid, ua);
    assert_eq!(job_a.request.search_or_url, "A");
    assert!(job_a.preloaded.is_none());
    assert!(job_a.call.is_none());
    assert!(act_a.preload.is_none());

    let (ub, act_b) = gm.insert_music(String::from("B"), 100, 1);
    assert!(act_b.play.is_none(), "a second playback must not start");
    let pre = act_b.preload.expect("the new front entry is preloaded");
    assert_eq!(pre.uuid, ub);
    assert_eq!(pre.search_or_url, "B");
    assert_eq!(gm.guild_music_data.preloaded.unwrap().uuid, ub);

    assert!(gm.commit_now_playing(ua, 11, 100, 21));
    assert_eq!(gm.guild_music_data.now_playing.unwrap().uuid, ua);
    assert_eq!(gm.guild_music_data.preloaded.unwrap().uuid, ub);
}

#[test]
fn generated_uuids_differ() {
    let mut gm = GuildMusic::new(7);
    let (ua, _) = gm.insert_music(String::from("A"), 100, 1);
    let (ub, _) = gm.insert_music(String::from("B"), 100, 1);
    assert_ne!(ua, ub);
}

#[test]
fn skip_caps_at_queue_length() {
    let (mut gm, _ua) = playing_guild();
    gm.insert_music(String::from("B"), 100, 1);
    gm.insert_music(String::from("C"), 100, 1);
    assert_eq!(gm.guild_music_data.queue.len(), 2);
    let skipped = gm.skip(10).expect("something is playing");
    assert_eq!(skipped, (3, 11));
    assert_eq!(gm.guild_music_data.queue.len(), 0);
    assert!(gm.guild_music_data.now_playing.is_some());
}

#[test]
fn skip_zero_and_one_remove_nothing() {
    let (mut gm, _ua) = playing_guild();
    gm.insert_music(String::from("B"), 100, 1);
    gm.insert_music(String::from("C"), 100, 1);
    assert_eq!(gm.skip(0).expect("something is playing"), (1, 11));
    assert_eq!(gm.guild_music_data.queue.len(), 2);
    assert_eq!(gm.skip(1).expect("something is playing"), (1, 11));
    assert_eq!(gm.guild_music_data.queue.len(), 2);
}

#[test]
fn skip_without_playing_fails_but_truncates() {
    let mut gm = GuildMusic::new(7);
    gm.insert_music(String::from("A"), 100, 1);
    gm.insert_music(String::from("B"), 100, 1);
    gm.insert_music(String::from("C"), 100, 1);
    assert_eq!(gm.guild_music_data.queue.len(), 2);
    let err = gm.skip(3).expect_err("nothing is playing yet");
    assert_eq!(err.kind, ErrorKind::NoSongCurrentlyPlaying);
    assert_eq!(gm.guild_music_data.queue.len(), 0);
}

#[test]
fn stop_on_idle_guild_fails_and_changes_nothing() {
    let mut gm = GuildMusic::new(7);
    let err = gm.stop().expect_err("nothing is playing");
    assert_eq!(err.kind, ErrorKind::NoSongCurrentlyPlaying);
    assert_eq!(gm.guild_music_data.queue.len(), 0);
    assert!(gm.guild_music_data.preloaded.is_none());
    assert!(gm.guild_music_data.now_playing.is_none());
    assert!(gm.guild_music_data.call_pair.is_none());
    assert!(gm.guild_music_data.starting.is_none());
}

#[test]
fn stop_clears_playback_and_queue() {
    let (mut gm, _ua) = playing_guild();
    gm.insert_music(String::from("B"), 100, 1);
    let handle = gm.stop().expect("something is playing");
    assert_eq!(handle, 11);
    assert!(gm.guild_music_data.now_playing.is_none());
    assert_eq!(gm.guild_music_data.queue.len(), 0);
}

#[test]
fn skip_then_completion_promotes_later_entry() {
    let (mut gm, ua) = playing_guild();
    let (ub, _) = gm.insert_music(String::from("B"), 100, 1);
    let (uc, _) = gm.insert_music(String::from("C"), 100, 1);
    assert_eq!(gm.guild_music_data.preloaded.unwrap().uuid, ub);

    let skipped = gm.skip(2).expect("something is playing");
    assert_eq!(skipped, (2, 11));
    assert_eq!(gm.guild_music_data.queue.len(), 1);
    assert_eq!(gm.guild_music_data.queue[0].uuid, uc);

    let (stopped, actions) = gm.handle_track_event(ua);
    assert_eq!(stopped, Some(11));
    let job = actions.play.expect("the completion promotes the next entry");
    assert_eq!(job.request.uuid, uc);
    assert!(job.preloaded.is_none(), "the skipped entry's slot must not serve the next entry");

    assert!(gm.commit_now_playing(uc, 12, 100, 21));
    assert_eq!(gm.guild_music_data.now_playing.unwrap().uuid, uc);
}

#[test]
fn stale_preload_result_is_refused() {
    let (mut gm, _ua) = playing_guild();
    let (ub, act_b) = gm.insert_music(String::from("B"), 100, 1);
    assert_eq!(act_b.preload.expect("the front entry is preloaded").uuid, ub);

    gm.skip(2).expect("something is playing");
    assert_eq!(gm.guild_music_data.queue.len(), 0);

    assert!(!gm.commit_preload(ub, 42), "a result for a skipped entry must be refused");
    let slot = gm.guild_music_data.preloaded.unwrap();
    assert_eq!(slot.uuid, ub);
    assert!(slot.track_pair.is_none());
}

#[test]
fn preload_result_is_used_on_completion() {
    let (mut gm, ua) = playing_guild();
    let (ub, _) = gm.insert_music(String::from("B"), 100, 1);
    assert!(gm.commit_preload(ub, 42));
    assert_eq!(gm.guild_music_data.preloaded.unwrap().track_pair, Some(42));

    let (stopped, actions) = gm.handle_track_event(ua);
    assert_eq!(stopped, Some(11));
    let job = actions.play.expect("the completion promotes the next entry");
    assert_eq!(job.request.uuid, ub);
    assert_eq!(job.preloaded, Some(42));
    assert_eq!(job.call, Some(21), "the connection to the same channel is reused");
}

#[test]
fn connection_is_not_reused_across_channels() {
    let (mut gm, ua) = playing_guild();
    let (ub, _) = gm.insert_music(String::from("B"), 200, 1);
    let (_, actions) = gm.handle_track_event(ua);
    let job = actions.play.expect("the completion promotes the next entry");
    assert_eq!(job.request.uuid, ub);
    assert!(job.call.is_none(), "a different channel needs a fresh connection");
}

#[test]
fn stale_play_commit_is_refused() {
    let mut gm = GuildMusic::new(7);
    let (ua, _) = gm.insert_music(String::from("A"), 100, 1);
    assert!(!gm.commit_now_playing(ua.wrapping_add(1), 11, 100, 21));
    assert!(gm.guild_music_data.now_playing.is_none());
    assert_eq!(gm.guild_music_data.starting, Some(ua));
}

#[test]
fn stale_track_event_is_ignored() {
    let (mut gm, ua) = playing_guild();
    let (stopped, actions) = gm.handle_track_event(ua.wrapping_add(1));
    assert!(stopped.is_none());
    assert!(actions.play.is_none());
    assert_eq!(gm.guild_music_data.now_playing.unwrap().uuid, ua);
}

#[test]
fn play_failure_advances_to_next_entry() {
    let mut gm = GuildMusic::new(7);
    let (ua, _) = gm.insert_music(String::from("A"), 100, 1);
    let (ub, _) = gm.insert_music(String::from("B"), 100, 1);
    assert_eq!(gm.guild_music_data.starting, Some(ua));

    let actions = gm.play_failed(ua);
    let job = actions.play.expect("a failure lets the next entry be attempted");
    assert_eq!(job.request.uuid, ub);
    assert_eq!(gm.guild_music_data.starting, Some(ub));

    let stale = gm.play_failed(ua);
    assert!(stale.play.is_none());
    assert!(stale.preload.is_none());
    assert_eq!(gm.guild_music_data.starting, Some(ub));
}
