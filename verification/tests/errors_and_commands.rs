use guild_music::commands::{require_guild, validate_play_request};
use guild_music::errors::{DiscordCommandError, ErrorKind, ErrorSeverity};
use guild_music::resolve::{resolve_mode, ResolveMode};

#[test]
fn message_names_severity_and_kind() {
    let err = DiscordCommandError::user_input(ErrorKind::NoSongCurrentlyPlaying);
    assert_eq!(err.message(), "severity: UserInput, kind: NoSongCurrentlyPlaying");
    let err = DiscordCommandError::user_input(ErrorKind::QueueIsEmpty);
    assert_eq!(err.message(), "severity: UserInput, kind: QueueIsEmpty");
}

#[test]
fn message_renders_argument_count() {
    let err = DiscordCommandError {
        kind: ErrorKind::MustProvideSomeArguments(351),
        severity: ErrorSeverity::Internal,
        source: None,
    };
    assert_eq!(err.message(), "severity: Internal, kind: MustProvideSomeArguments(351)");
    let err = DiscordCommandError::user_input(ErrorKind::MustProvideSomeArguments(1));
    assert_eq!(err.message(), "severity: UserInput, kind: MustProvideSomeArguments(1)");
}

#[test]
fn guild_requirement() {
    assert_eq!(require_guild(Some(9)).expect("a guild was given"), 9);
    let err = require_guild(None).expect_err("no guild was given");
    assert_eq!(err.kind, ErrorKind::MessageNotInGuildChannel);
    assert!(matches!(err.severity, ErrorSeverity::UserInput));
    assert!(err.source.is_none());
}

#[test]
fn play_request_validation() {
    let ok = validate_play_request(Some((9, 100)), Some(String::from("a song")))
        .expect("a complete request is accepted");
    assert_eq!(ok, (9, 100, String::from("a song")));

    let err = validate_play_request(None, Some(String::from("a song")))
        .expect_err("the requester sits in no voice channel");
    assert_eq!(err.kind, ErrorKind::NotInVoiceChannel);

    let err = validate_play_request(Some((9, 100)), None).expect_err("no argument was given");
    assert_eq!(err.kind, ErrorKind::MustProvideSomeArguments(1));
}

#[test]
fn urls_are_fetched_directly() {
    assert_eq!(resolve_mode("https://example.com/watch?v=abc123"), ResolveMode::DirectUrl);
    assert_eq!(resolve_mode("ftp://example.org/file"), ResolveMode::DirectUrl);
}

#[test]
fn free_text_goes_through_search() {
    assert_eq!(resolve_mode("some cool song"), ResolveMode::Search);
    assert_eq!(resolve_mode(""), ResolveMode::Search);
}
