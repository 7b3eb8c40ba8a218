//! The decisions of the chat-command layer: which invocations are accepted,
//! and with which error each malformed one is refused.

use vstd::prelude::*;
use crate::errors::{DiscordCommandError, ErrorKind, GuildMusicResult, user_input_error};

verus! {

/// Commands other than play only need the message to come from a guild
/// channel.
pub fn require_guild(guild_id: Option<u64>) -> (r: GuildMusicResult<u64>)
    ensures
        (match guild_id {
            Some(g) => r == Ok::<u64, DiscordCommandError>(g),
            None => r == Err::<u64, DiscordCommandError>(
                user_input_error(ErrorKind::MessageNotInGuildChannel),
            ),
        }),
{
    match guild_id {
        Some(g) => Ok(g),
        None => Err(DiscordCommandError::user_input(ErrorKind::MessageNotInGuildChannel)),
    }
}

/// The play command needs the requester to sit in a voice channel of a
/// guild (`voice` carries that guild and channel) and to provide one
/// argument; it is refused with `NotInVoiceChannel` or
/// `MustProvideSomeArguments(1)` otherwise, in that order.
pub fn validate_play_request(voice: Option<(u64, u64)>, argument: Option<String>) -> (r:
    GuildMusicResult<(u64, u64, String)>)
    ensures
        (match (voice, argument) {
            (Some(gc), Some(a)) => r == Ok::<(u64, u64, String), DiscordCommandError>(
                (gc.0, gc.1, a),
            ),
            (None, _) => r == Err::<(u64, u64, String), DiscordCommandError>(
                user_input_error(ErrorKind::NotInVoiceChannel),
            ),
            (Some(_), None) => r == Err::<(u64, u64, String), DiscordCommandError>(
                user_input_error(ErrorKind::MustProvideSomeArguments(1)),
            ),
        }),
{
    match voice {
        Some(gc) => match argument {
            Some(a) => Ok((gc.0, gc.1, a)),
            None => Err(DiscordCommandError::user_input(ErrorKind::MustProvideSomeArguments(1))),
        },
        None => Err(DiscordCommandError::user_input(ErrorKind::NotInVoiceChannel)),
    }
}

} // verus!
