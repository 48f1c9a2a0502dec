//! The control channel between a panel and the program that steers it.
//!
//! Commands travel as lines of text through a named pipe. Opening, reading
//! and writing the pipe is the caller's part; what a line means, and what is
//! written for a command, is decided here.

use vstd::prelude::*;
use vstd::string::*;
use crate::command::{command_of, token_of, Command};
use crate::error::{Error, ErrorView};
use crate::text::{trim, trimmed};

verus! {

/// The path of the pipe: the file `incredi-fifo`, followed by the name of
/// the display if there is one, in the given directory for temporary
/// files, or in `/tmp` if none is given.
pub open spec fn fifo_path(tmp: Option<Seq<char>>, display: Option<Seq<char>>) -> Seq<char> {
    let directory = match tmp {
        Some(tmp) => tmp,
        None => "/tmp"@,
    };
    match display {
        Some(display) => directory + "/"@ + "incredi-fifo"@ + display,
        None => directory + "/"@ + "incredi-fifo"@,
    }
}

/// Gets the default path for the pipe, given the directory for temporary
/// files and the name of the display as far as the environment has them.
pub fn default_fifo_path(tmp: Option<&str>, display: Option<&str>) -> (path: String)
    ensures
        path@ == fifo_path(
            match tmp {
                Some(t) => Some(t@),
                None => None,
            },
            match display {
                Some(d) => Some(d@),
                None => None,
            },
        ),
{
    let mut path = String::from_str(
        match tmp {
            Some(tmp) => tmp,
            None => "/tmp",
        },
    );
    path.append("/");
    path.append("incredi-fifo");
    match display {
        Some(display) => {
            path.append(display);
        },
        None => {},
    }
    path
}

/// What the listener gets from the pipe.
#[derive(Debug, PartialEq, Eq)]
pub enum ListenEvent {
    /// A line was read.
    Line(String),
    /// Reading failed.
    ReadFailed,
    /// The writer closed the pipe.
    Closed,
}

/// What the listener does next.
#[derive(Debug, PartialEq, Eq)]
pub enum ListenAction {
    /// Hand the command to the window loop, and read on.
    Send(Command),
    /// The line is no command: report the error, and read on.
    Report(Error),
    /// Open the pipe again and read on.
    Reopen,
}

/// Decides what the listener does with what it got from the pipe. A line
/// is a command if, white space around it aside, it is the token of one; a
/// line that is none is reported and changes nothing else. Only a failure
/// to read ends the listener.
pub fn listen(event: ListenEvent) -> (r: Result<ListenAction, Error>)
    ensures
        match event {
            ListenEvent::Line(line) => match command_of(trimmed(line@)) {
                Some(command) => r == Ok::<ListenAction, Error>(ListenAction::Send(command)),
                None => r matches Ok(ListenAction::Report(e)) && e@ == ErrorView::ConfigError(
                    "Unrecognised command: "@ + trimmed(line@),
                ),
            },
            ListenEvent::ReadFailed => r matches Err(e) && e@ == ErrorView::Msg(
                "Failed to read line from IPC FIFO"@,
            ),
            ListenEvent::Closed => r == Ok::<ListenAction, Error>(ListenAction::Reopen),
        },
{
    match event {
        ListenEvent::Line(line) => match Command::from_str(trim(line.as_str())) {
            Ok(command) => Ok(ListenAction::Send(command)),
            Err(e) => Ok(ListenAction::Report(e)),
        },
        ListenEvent::ReadFailed => Err(Error::msg("Failed to read line from IPC FIFO")),
        ListenEvent::Closed => Ok(ListenAction::Reopen),
    }
}

/// What is written to the pipe to send a command: its token.
pub fn send(command: Command) -> (bytes: Vec<u8>)
    ensures
        bytes@ == vstd::utf8::encode_utf8(token_of(command)),
{
    let token = command.to_string();
    token.as_str().as_bytes_vec()
}

/// A listener that is sent the token of a command other than an event
/// hands on exactly that command, whatever white space surrounds the token
/// on its line.
pub proof fn lemma_sent_command_arrives(command: Command, line: Seq<char>)
    requires
        !(command is Event),
        trimmed(line) == token_of(command),
    ensures
        command_of(trimmed(line)) == Some(command),
{
    crate::command::lemma_token_round_trip(command);
}

} // verus!
