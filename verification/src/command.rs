//! The interactive command language: one line of input is tokenized on
//! whitespace, the first token names the command, and `speed`/`volume`
//! take one decimal argument. Dispatching a parsed command drives the
//! playback handle and picks the reply to print.

use crate::numeric::{decimal_milli, parse_rate_milli, sat_milli, valid_decimal};
use crate::player::{Player, PlayerView};
use crate::text::{
    char_is_space, is_space, lemma_skip_spaces_exact, lemma_token_end_exact, skip_spaces, str_eq,
    token_end,
};
use vstd::prelude::*;

verus! {

/// One parsed line of user input.
#[derive(Debug, Clone, Copy, PartialEq, Eq, Structural)]
pub enum Command {
    /// A line without any token; ignored.
    Empty,
    Help,
    Pause,
    Resume,
    Skip,
    /// `speed` with a decimal argument, already in milli-units.
    SetSpeed { milli: i64 },
    /// `speed` without an argument.
    SpeedMissing,
    /// `speed` with an argument that is no decimal literal.
    SpeedInvalid,
    /// `volume` with a decimal argument, already in milli-units.
    SetVolume { milli: i64 },
    /// `volume` without an argument.
    VolumeMissing,
    /// `volume` with an argument that is no decimal literal.
    VolumeInvalid,
    Quit,
    /// A first token that names no command.
    Unknown,
}

/// What the interface prints in response to one line.
#[derive(Debug, Clone, Copy, PartialEq, Eq, Structural)]
pub enum Reply {
    Silent,
    HelpText,
    Paused,
    Resumed,
    Skipping,
    SpeedSet,
    SpeedPrompt,
    SpeedRejected,
    VolumeSet,
    VolumePrompt,
    VolumeRejected,
    UnknownCommand,
}

/// The first whitespace-separated token of `s` (empty when `s` holds
/// none).
pub open spec fn first_token(s: Seq<char>) -> Seq<char> {
    s.subrange(skip_spaces(s, 0), token_end(s, skip_spaces(s, 0)))
}

/// The second whitespace-separated token of `s` (empty when `s` holds no
/// second one).
pub open spec fn second_token(s: Seq<char>) -> Seq<char> {
    let t1e = token_end(s, skip_spaces(s, 0));
    s.subrange(skip_spaces(s, t1e), token_end(s, skip_spaces(s, t1e)))
}

/// The command a `speed` or `volume` line with argument token `t2` parses
/// to: missing, invalid, or the value in milli-units.
pub open spec fn spec_rate_command(t2: Seq<char>, volume: bool) -> Command {
    if t2.len() == 0 {
        if volume {
            Command::VolumeMissing
        } else {
            Command::SpeedMissing
        }
    } else if valid_decimal(t2) {
        if volume {
            Command::SetVolume { milli: sat_milli(decimal_milli(t2)) as i64 }
        } else {
            Command::SetSpeed { milli: sat_milli(decimal_milli(t2)) as i64 }
        }
    } else {
        if volume {
            Command::VolumeInvalid
        } else {
            Command::SpeedInvalid
        }
    }
}

/// The command one line of input parses to.
pub open spec fn spec_parse_line(s: Seq<char>) -> Command {
    let t1 = first_token(s);
    if t1.len() == 0 {
        Command::Empty
    } else if t1 == "help"@ {
        Command::Help
    } else if t1 == "pause"@ {
        Command::Pause
    } else if t1 == "resume"@ {
        Command::Resume
    } else if t1 == "skip"@ {
        Command::Skip
    } else if t1 == "speed"@ {
        spec_rate_command(second_token(s), false)
    } else if t1 == "volume"@ {
        spec_rate_command(second_token(s), true)
    } else if t1 == "quit"@ {
        Command::Quit
    } else {
        Command::Unknown
    }
}

fn scan_spaces(s: &str, from: usize) -> (j: usize)
    requires
        from as int <= s@.len(),
    ensures
        j as int == skip_spaces(s@, from as int),
        from <= j,
        j as int <= s@.len(),
{
    let len = s.unicode_len();
    let mut j = from;
    while j < len && char_is_space(s.get_char(j))
        invariant
            len == s@.len(),
            from <= j <= len,
            forall|k: int| from as int <= k < j as int ==> is_space(s@[k]),
        decreases len - j,
    {
        j = j + 1;
    }
    proof {
        lemma_skip_spaces_exact(s@, from as int, j as int);
    }
    j
}

fn scan_token(s: &str, from: usize) -> (j: usize)
    requires
        from as int <= s@.len(),
    ensures
        j as int == token_end(s@, from as int),
        from <= j,
        j as int <= s@.len(),
{
    let len = s.unicode_len();
    let mut j = from;
    while j < len && !char_is_space(s.get_char(j))
        invariant
            len == s@.len(),
            from <= j <= len,
            forall|k: int| from as int <= k < j as int ==> !is_space(s@[k]),
        decreases len - j,
    {
        j = j + 1;
    }
    proof {
        lemma_token_end_exact(s@, from as int, j as int);
    }
    j
}

fn parse_rate_argument(line: &str, t1e: usize, volume: bool) -> (c: Command)
    requires
        t1e as int == token_end(line@, skip_spaces(line@, 0)),
        t1e as int <= line@.len(),
    ensures
        c == spec_rate_command(second_token(line@), volume),
{
    let t2s = scan_spaces(line, t1e);
    let t2e = scan_token(line, t2s);
    if t2s == t2e {
        proof {
            assert(second_token(line@).len() == 0);
        }
        if volume {
            Command::VolumeMissing
        } else {
            Command::SpeedMissing
        }
    } else {
        let t2 = line.substring_char(t2s, t2e);
        proof {
            assert(t2@ == second_token(line@));
        }
        match parse_rate_milli(t2) {
            Some(m) => {
                proof {
                    assert(m as int == sat_milli(decimal_milli(t2@)));
                }
                if volume {
                    Command::SetVolume { milli: m }
                } else {
                    Command::SetSpeed { milli: m }
                }
            },
            None => {
                if volume {
                    Command::VolumeInvalid
                } else {
                    Command::SpeedInvalid
                }
            },
        }
    }
}

/// Parse one line of user input.
pub fn parse_line(line: &str) -> (c: Command)
    ensures
        c == spec_parse_line(line@),
{
    let t1s = scan_spaces(line, 0);
    let t1e = scan_token(line, t1s);
    if t1s == t1e {
        proof {
            assert(first_token(line@).len() == 0);
        }
        return Command::Empty;
    }
    let t1 = line.substring_char(t1s, t1e);
    proof {
        assert(t1@ == first_token(line@));
    }
    if str_eq(t1, "help") {
        Command::Help
    } else if str_eq(t1, "pause") {
        Command::Pause
    } else if str_eq(t1, "resume") {
        Command::Resume
    } else if str_eq(t1, "skip") {
        Command::Skip
    } else if str_eq(t1, "speed") {
        parse_rate_argument(line, t1e, false)
    } else if str_eq(t1, "volume") {
        parse_rate_argument(line, t1e, true)
    } else if str_eq(t1, "quit") {
        Command::Quit
    } else {
        Command::Unknown
    }
}

/// The player state after one command is dispatched.
pub open spec fn spec_dispatch_state(v: PlayerView, c: Command) -> PlayerView {
    match c {
        Command::Pause => v.pause_t(),
        Command::Resume => v.resume_t(),
        Command::Skip => v.skip_t(),
        Command::SetSpeed { milli } => v.set_speed_t(milli as int),
        Command::SetVolume { milli } => v.set_volume_t(milli as int),
        Command::Quit => v.stop_clear_t(),
        _ => v,
    }
}

/// The reply one command earns; it depends on the command alone.
pub open spec fn spec_reply(c: Command) -> Reply {
    match c {
        Command::Empty => Reply::Silent,
        Command::Help => Reply::HelpText,
        Command::Pause => Reply::Paused,
        Command::Resume => Reply::Resumed,
        Command::Skip => Reply::Skipping,
        Command::SetSpeed { milli: _ } => Reply::SpeedSet,
        Command::SpeedMissing => Reply::SpeedPrompt,
        Command::SpeedInvalid => Reply::SpeedRejected,
        Command::SetVolume { milli: _ } => Reply::VolumeSet,
        Command::VolumeMissing => Reply::VolumePrompt,
        Command::VolumeInvalid => Reply::VolumeRejected,
        Command::Quit => Reply::Silent,
        Command::Unknown => Reply::UnknownCommand,
    }
}

/// Apply one parsed command to the player. Returns the reply to print and
/// whether the command loop ends.
pub fn dispatch(player: &mut Player, c: &Command) -> (r: (Reply, bool))
    ensures
        final(player)@ == spec_dispatch_state(old(player)@, *c),
        r.0 == spec_reply(*c),
        r.1 == (*c is Quit),
{
    match c {
        Command::Empty => (Reply::Silent, false),
        Command::Help => (Reply::HelpText, false),
        Command::Pause => {
            player.pause();
            (Reply::Paused, false)
        },
        Command::Resume => {
            player.resume();
            (Reply::Resumed, false)
        },
        Command::Skip => {
            player.skip_current();
            (Reply::Skipping, false)
        },
        Command::SetSpeed { milli } => {
            player.set_speed_milli(*milli);
            (Reply::SpeedSet, false)
        },
        Command::SpeedMissing => (Reply::SpeedPrompt, false),
        Command::SpeedInvalid => (Reply::SpeedRejected, false),
        Command::SetVolume { milli } => {
            player.set_volume_milli(*milli);
            (Reply::VolumeSet, false)
        },
        Command::VolumeMissing => (Reply::VolumePrompt, false),
        Command::VolumeInvalid => (Reply::VolumeRejected, false),
        Command::Quit => {
            player.stop_and_clear();
            (Reply::Silent, true)
        },
        Command::Unknown => (Reply::UnknownCommand, false),
    }
}

impl Reply {
    /// The text printed for this reply.
    pub open spec fn spec_message(self) -> Seq<char> {
        match self {
            Reply::Silent => ""@,
            Reply::HelpText => (
            "Available commands:\n  pause       - Pause audio playback.\n  resume      - Resume audio playback.\n  skip        - Skip to the next track.\n  speed <n>   - Set playback speed to a specific value (min: 0.1, max: 2.0).\n  volume <n>  - Set playback volume to a specific value (min: 0.1, max: 2.0).\n  quit        - Stop playback and exit the program.\n  help        - Show this help message.\n"@),
            Reply::Paused => "Paused."@,
            Reply::Resumed => "Resumed."@,
            Reply::Skipping => "Skipping track..."@,
            Reply::SpeedSet => "Speed set."@,
            Reply::SpeedPrompt => "Please provide a speed value."@,
            Reply::SpeedRejected => "Invalid speed value."@,
            Reply::VolumeSet => "Volume set."@,
            Reply::VolumePrompt => "Please provide a volume value."@,
            Reply::VolumeRejected => "Invalid volume value."@,
            Reply::UnknownCommand => "Unknown command."@,
        }
    }

    /// The text printed for this reply.
    pub fn message(&self) -> (r: &'static str)
        ensures
            r@ == self.spec_message(),
    {
        match self {
            Reply::Silent => "",
            Reply::HelpText => "Available commands:\n  pause       - Pause audio playback.\n  resume      - Resume audio playback.\n  skip        - Skip to the next track.\n  speed <n>   - Set playback speed to a specific value (min: 0.1, max: 2.0).\n  volume <n>  - Set playback volume to a specific value (min: 0.1, max: 2.0).\n  quit        - Stop playback and exit the program.\n  help        - Show this help message.\n",
            Reply::Paused => "Paused.",
            Reply::Resumed => "Resumed.",
            Reply::Skipping => "Skipping track...",
            Reply::SpeedSet => "Speed set.",
            Reply::SpeedPrompt => "Please provide a speed value.",
            Reply::SpeedRejected => "Invalid speed value.",
            Reply::VolumeSet => "Volume set.",
            Reply::VolumePrompt => "Please provide a volume value.",
            Reply::VolumeRejected => "Invalid volume value.",
            Reply::UnknownCommand => "Unknown command.",
        }
    }
}

/// Dispatching `quit` empties the queue and halts playback, and it is the
/// only command that ends the loop: the completion poll then observes the
/// drained handle and the program exits.
pub proof fn lemma_quit_dispatch(v: PlayerView)
    ensures
        spec_dispatch_state(v, Command::Quit).queue.len() == 0,
        spec_dispatch_state(v, Command::Quit).paused,
{
}

/// Help, an empty line, an unknown command, and a missing or rejected
/// rate argument leave the player state exactly as it was.
pub proof fn lemma_commands_without_effect(v: PlayerView, c: Command)
    requires
        c is Empty || c is Help || c is SpeedMissing || c is SpeedInvalid || c is VolumeMissing
            || c is VolumeInvalid || c is Unknown,
    ensures
        spec_dispatch_state(v, c) == v,
{
}

/// Dispatch keeps the player state well formed, whatever the command.
pub proof fn lemma_dispatch_preserves_wf(v: PlayerView, c: Command)
    requires
        v.wf(),
    ensures
        spec_dispatch_state(v, c).wf(),
{
}

} // verus!
