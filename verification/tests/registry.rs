use guild_music::errors::ErrorKind;
use guild_music::registry::GuildRegistry;

#[test]
fn registry_creates_a_guild_once() {
    let mut reg = GuildRegistry::new();
    assert!(reg.get(1).is_none());

    let (ua, actions) = reg.insert_music(1, String::from("A"), 100, 5);
    assert_eq!(actions.play.expect("an idle guild starts its first entry").request.uuid, ua);
    let gm = reg.get(1).expect("the guild was created on first use");
    assert_eq!(gm.guild_music_data.guild_id, 1);
    assert_eq!(gm.guild_music_data.starting, Some(ua));

    let (ub, _) = reg.insert_music(1, String::from("B"), 100, 5);
    let gm = reg.get(1).expect("the guild still exists");
    assert_eq!(gm.guild_music_data.queue.len(), 1);
    assert_eq!(gm.guild_music_data.queue[0].uuid, ub);
    assert!(reg.get(2).is_none());
}

#[test]
fn registry_stop_creates_an_idle_guild() {
    let mut reg = GuildRegistry::new();
    let err = reg.stop(3).expect_err("nothing is playing in a fresh guild");
    assert_eq!(err.kind, ErrorKind::NoSongCurrentlyPlaying);
    assert!(reg.get(3).is_some(), "commands create the guild's state on first use");
}

#[test]
fn registry_track_event_does_not_create() {
    let mut reg = GuildRegistry::new();
    let (stopped, actions) = reg.handle_track_event(4, 9);
    assert!(stopped.is_none());
    assert!(actions.play.is_none());
    assert!(actions.preload.is_none());
    assert!(reg.get(4).is_none(), "a notification for an unknown guild is ignored");
}

#[test]
fn registry_isolates_guilds() {
    let mut reg = GuildRegistry::new();
    let (ua, _) = reg.insert_music(1, String::from("A"), 100, 5);
    let (ub, _) = reg.insert_music(2, String::from("B"), 200, 6);
    assert!(reg.commit_now_playing(1, ua, 11, 100, 21));
    assert!(reg.commit_now_playing(2, ub, 12, 200, 22));

    let handle = reg.stop(1).expect("guild 1 is playing");
    assert_eq!(handle, 11);
    assert!(reg.get(1).unwrap().guild_music_data.now_playing.is_none());
    let other = reg.get(2).unwrap();
    assert_eq!(other.guild_music_data.now_playing.unwrap().uuid, ub);
}

#[test]
fn registry_routes_commits_and_completions() {
    let mut reg = GuildRegistry::new();
    let (ua, _) = reg.insert_music(5, String::from("A"), 100, 5);
    let (ub, _) = reg.insert_music(5, String::from("B"), 100, 5);
    assert!(reg.commit_now_playing(5, ua, 11, 100, 21));
    assert!(reg.commit_preload(5, ub, 42));
    assert!(!reg.commit_preload(6, ub, 42), "an unknown guild commits nothing");

    let (stopped, actions) = reg.handle_track_event(5, ua);
    assert_eq!(stopped, Some(11));
    let job = actions.play.expect("the completion promotes the next entry");
    assert_eq!(job.request.uuid, ub);
    assert_eq!(job.preloaded, Some(42));

    let skipped = reg.skip(5, 1);
    assert!(skipped.is_err(), "nothing is playing while the next entry starts");
    let failed = reg.play_failed(5, ub);
    assert!(failed.play.is_none(), "the queue is empty after the failure");
    assert!(reg.get(5).unwrap().guild_music_data.starting.is_none());
}

#[test]
fn registry_shuffle_on_empty_queue_fails() {
    let mut reg = GuildRegistry::new();
    let err = reg.shuffle(8).expect_err("a fresh guild has an empty queue");
    assert_eq!(err.kind, ErrorKind::QueueIsEmpty);
}
