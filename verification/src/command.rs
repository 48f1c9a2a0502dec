//! The commands that drive the panel's window.

use vstd::prelude::*;
use vstd::string::*;
use crate::error::{Error, ErrorView};
use crate::text::str_eq;

verus! {

/// What the windowing system reports, as far as the panel reads it.
#[derive(Clone, Copy, Debug, PartialEq, Eq, Structural)]
pub enum Event {
    /// The window was asked to close.
    Closed,
    /// The escape key went down.
    EscapePressed,
    /// Anything else.
    Other,
}

/// Commands that can be sent to the window.
#[derive(Clone, Copy, Debug, PartialEq, Eq, Structural)]
pub enum Command {
    /// An event of the windowing system.
    Event(Event),
    /// Show the display.
    Show,
    /// Hide the display.
    Hide,
    /// Quit the program.
    Quit,
}

/// The command that a token of the control channel stands for.
pub open spec fn command_of(token: Seq<char>) -> Option<Command> {
    if token == "show"@ {
        Some(Command::Show)
    } else if token == "hide"@ {
        Some(Command::Hide)
    } else if token == "quit"@ {
        Some(Command::Quit)
    } else {
        None
    }
}

/// The token that stands for a command; an event has the token `event`,
/// which stands for no command.
pub open spec fn token_of(command: Command) -> Seq<char> {
    match command {
        Command::Show => "show"@,
        Command::Hide => "hide"@,
        Command::Quit => "quit"@,
        Command::Event(_) => "event"@,
    }
}

/// Reading a command's token gives the command back, unless it is an event.
pub proof fn lemma_token_round_trip(command: Command)
    ensures
        command_of(token_of(command)) == (match command {
            Command::Event(_) => None,
            c => Some(c),
        }),
{
    reveal_strlit("show");
    reveal_strlit("hide");
    reveal_strlit("quit");
    reveal_strlit("event");
    assert("show"@[0] == 's');
    assert("hide"@[0] == 'h');
    assert("quit"@[0] == 'q');
    assert("event"@[0] == 'e');
}

impl Command {
    /// Reads a command from its token: `show`, `hide` or `quit`, exactly.
    pub fn from_str(s: &str) -> (r: Result<Command, Error>)
        ensures
            match command_of(s@) {
                Some(c) => r == Ok::<Command, Error>(c),
                None => r matches Err(e) && e@ == ErrorView::ConfigError(
                    "Unrecognised command: "@ + s@,
                ),
            },
    {
        if str_eq(s, "show") {
            Ok(Command::Show)
        } else if str_eq(s, "hide") {
            Ok(Command::Hide)
        } else if str_eq(s, "quit") {
            Ok(Command::Quit)
        } else {
            Err(Error::ConfigError(String::from_str("Unrecognised command: ").concat(s)))
        }
    }

    /// The command's token.
    pub fn to_string(&self) -> (token: String)
        ensures
            token@ == token_of(*self),
    {
        match self {
            Command::Show => String::from_str("show"),
            Command::Hide => String::from_str("hide"),
            Command::Quit => String::from_str("quit"),
            Command::Event(_) => String::from_str("event"),
        }
    }
}

} // verus!
