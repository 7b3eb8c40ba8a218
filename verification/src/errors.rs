//! The error sum type that every command operation returns.

use vstd::prelude::*;
use vstd::string::StringExecFns;

verus! {

/// Whether a failure is the caller's fault or an internal one.
#[derive(Debug, Clone, Copy, PartialEq, Eq, Structural)]
pub enum ErrorSeverity {
    Internal,
    UserInput,
}

/// Every way a command can be refused.
#[derive(Debug, Clone, Copy, PartialEq, Eq, Structural)]
pub enum ErrorKind {
    NotInVoiceChannel,
    InternalError,
    VoiceNotEnabled,
    MustProvideURL,
    MustProvideSomeArguments(usize),
    MusicDataNotInitialized,
    MessageNotInGuildChannel,
    NoSongCurrentlyPlaying,
    QueueIsEmpty,
}

/// A typed command failure. `source` carries an optional description of an
/// underlying failure; user-input errors carry none.
#[derive(Debug, Clone)]
pub struct DiscordCommandError {
    pub kind: ErrorKind,
    pub severity: ErrorSeverity,
    pub source: Option<String>,
}

pub type GuildMusicResult<T> = Result<T, DiscordCommandError>;

/// The error a command returns when the caller's input is at fault.
pub open spec fn user_input_error(kind: ErrorKind) -> DiscordCommandError {
    DiscordCommandError { kind, severity: ErrorSeverity::UserInput, source: None }
}

/// The character of one decimal digit.
pub open spec fn digit_char(d: int) -> char {
    if d == 0 {
        '0'
    } else if d == 1 {
        '1'
    } else if d == 2 {
        '2'
    } else if d == 3 {
        '3'
    } else if d == 4 {
        '4'
    } else if d == 5 {
        '5'
    } else if d == 6 {
        '6'
    } else if d == 7 {
        '7'
    } else if d == 8 {
        '8'
    } else {
        '9'
    }
}

/// The decimal rendering of a non-negative number, most significant digit
/// first.
pub open spec fn decimal_of(n: int) -> Seq<char>
    decreases n,
{
    if n < 10 {
        seq![digit_char(n)]
    } else {
        decimal_of(n / 10).push(digit_char(n % 10))
    }
}

/// The name a severity is shown under.
pub open spec fn severity_label(severity: ErrorSeverity) -> Seq<char> {
    match severity {
        ErrorSeverity::Internal => "Internal"@,
        ErrorSeverity::UserInput => "UserInput"@,
    }
}

/// The name a kind is shown under.
pub open spec fn kind_label(kind: ErrorKind) -> Seq<char> {
    match kind {
        ErrorKind::NotInVoiceChannel => "NotInVoiceChannel"@,
        ErrorKind::InternalError => "InternalError"@,
        ErrorKind::VoiceNotEnabled => "VoiceNotEnabled"@,
        ErrorKind::MustProvideURL => "MustProvideURL"@,
        ErrorKind::MustProvideSomeArguments(n) => "MustProvideSomeArguments("@ + decimal_of(
            n as int,
        ) + ")"@,
        ErrorKind::MusicDataNotInitialized => "MusicDataNotInitialized"@,
        ErrorKind::MessageNotInGuildChannel => "MessageNotInGuildChannel"@,
        ErrorKind::NoSongCurrentlyPlaying => "NoSongCurrentlyPlaying"@,
        ErrorKind::QueueIsEmpty => "QueueIsEmpty"@,
    }
}

/// The text an error is reported with.
pub open spec fn message_text(e: DiscordCommandError) -> Seq<char> {
    "severity: "@ + severity_label(e.severity) + ", kind: "@ + kind_label(e.kind)
}

/// One decimal digit as text.
fn digit_str(d: usize) -> (r: &'static str)
    requires
        d < 10,
    ensures
        r@ == seq![digit_char(d as int)],
{
    proof {
        reveal_strlit("0");
        reveal_strlit("1");
        reveal_strlit("2");
        reveal_strlit("3");
        reveal_strlit("4");
        reveal_strlit("5");
        reveal_strlit("6");
        reveal_strlit("7");
        reveal_strlit("8");
        reveal_strlit("9");
    }
    match d {
        0 => "0",
        1 => "1",
        2 => "2",
        3 => "3",
        4 => "4",
        5 => "5",
        6 => "6",
        7 => "7",
        8 => "8",
        _ => "9",
    }
}

/// Appends the decimal rendering of `n`.
fn append_decimal(out: &mut String, n: usize)
    ensures
        final(out)@ == old(out)@ + decimal_of(n as int),
    decreases n,
{
    if n < 10 {
        out.append(digit_str(n));
    } else {
        append_decimal(out, n / 10);
        out.append(digit_str(n % 10));
        proof {
            assert(out@ =~= old(out)@ + decimal_of(n as int));
        }
    }
}

impl DiscordCommandError {
    /// Builds the user-input error for `kind`.
    pub fn user_input(kind: ErrorKind) -> (r: DiscordCommandError)
        ensures
            r == user_input_error(kind),
    {
        DiscordCommandError { kind, severity: ErrorSeverity::UserInput, source: None }
    }

    /// The text this error is reported with: its severity and its kind.
    pub fn message(&self) -> (r: String)
        ensures
            r@ == message_text(*self),
    {
        let mut out = String::new();
        out.append("severity: ");
        match self.severity {
            ErrorSeverity::Internal => out.append("Internal"),
            ErrorSeverity::UserInput => out.append("UserInput"),
        }
        out.append(", kind: ");
        match self.kind {
            ErrorKind::NotInVoiceChannel => out.append("NotInVoiceChannel"),
            ErrorKind::InternalError => out.append("InternalError"),
            ErrorKind::VoiceNotEnabled => out.append("VoiceNotEnabled"),
            ErrorKind::MustProvideURL => out.append("MustProvideURL"),
            ErrorKind::MustProvideSomeArguments(n) => {
                out.append("MustProvideSomeArguments(");
                append_decimal(&mut out, n);
                out.append(")");
            },
            ErrorKind::MusicDataNotInitialized => out.append("MusicDataNotInitialized"),
            ErrorKind::MessageNotInGuildChannel => out.append("MessageNotInGuildChannel"),
            ErrorKind::NoSongCurrentlyPlaying => out.append("NoSongCurrentlyPlaying"),
            ErrorKind::QueueIsEmpty => out.append("QueueIsEmpty"),
        }
        proof {
            assert(out@ =~= message_text(*self));
        }
        out
    }
}

} // verus!
