use std::collections::VecDeque;

use guild_music::errors::ErrorKind;
use guild_music::list::Shuffleable;
use guild_music::music::GuildMusic;

#[test]
fn shuffle_bound() {
    let mut vd = VecDeque::<usize>::new();
    vd.push_back(1);
    vd.push_back(4);
    for _ in 0..10516 {
        vd.shuffle();
    }
}

#[test]
fn shuffle_keeps_every_element() {
    let mut vd = VecDeque::<usize>::new();
    for i in 0..20 {
        vd.push_back(i);
    }
    vd.shuffle();
    assert_eq!(vd.len(), 20);
    let mut seen: Vec<usize> = vd.iter().copied().collect();
    seen.sort();
    let expected: Vec<usize> = (0..20).collect();
    assert_eq!(seen, expected);
}

#[test]
fn shuffle_on_empty_queue_fails() {
    let mut gm = GuildMusic::new(7);
    let err = gm.shuffle().expect_err("the queue is empty");
    assert_eq!(err.kind, ErrorKind::QueueIsEmpty);
    assert_eq!(gm.guild_music_data.queue.len(), 0);
    assert!(gm.guild_music_data.preloaded.is_none());
    assert!(gm.guild_music_data.now_playing.is_none());
    assert!(gm.guild_music_data.call_pair.is_none());
    assert!(gm.guild_music_data.starting.is_none());
}

#[test]
fn shuffle_with_playback_but_empty_queue_fails() {
    let mut gm = GuildMusic::new(7);
    let (ua, _) = gm.insert_music(String::from("A"), 100, 1);
    assert!(gm.commit_now_playing(ua, 11, 100, 21));
    let err = gm.shuffle().expect_err("the queue is empty");
    assert_eq!(err.kind, ErrorKind::QueueIsEmpty);
    assert_eq!(gm.guild_music_data.now_playing.unwrap().uuid, ua);
}

#[test]
fn shuffle_permutes_queued_entries() {
    let mut gm = GuildMusic::new(7);
    let (ua, _) = gm.insert_music(String::from("A"), 100, 1);
    let (ub, _) = gm.insert_music(String::from("B"), 100, 1);
    let (uc, _) = gm.insert_music(String::from("C"), 100, 1);
    let (ud, _) = gm.insert_music(String::from("D"), 100, 1);
    assert_eq!(gm.guild_music_data.queue.len(), 3);

    gm.shuffle().expect("the queue has entries");

    assert_eq!(gm.guild_music_data.queue.len(), 3);
    let mut uuids: Vec<u128> = gm.guild_music_data.queue.iter().map(|r| r.uuid).collect();
    uuids.sort();
    let mut expected = vec![ub, uc, ud];
    expected.sort();
    assert_eq!(uuids, expected);
    assert_eq!(gm.guild_music_data.starting, Some(ua));
}
