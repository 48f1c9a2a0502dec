//! Sets the panel's window mode to dock.
//!
//! The windowing library cannot do this, so two programs are run: `xdotool`
//! finds the window by its class name, and `xprop` sets the window type.
//! Running them is the caller's part; what to run, and what to make of the
//! outcome, is decided here.

use vstd::prelude::*;
use vstd::string::*;
use vstd::utf8::{decode_utf8, valid_utf8};
use crate::error::{Error, ErrorView};
use crate::item::{decode, texts, Launch};
use crate::text::{decimal, parse_u32, parsed_u32, to_decimal, trim, trimmed};

verus! {

/// What happened while the window was being docked.
#[derive(Debug, PartialEq, Eq)]
pub enum DockEvent {
    /// Nothing yet.
    Start,
    /// The search for the window could not be run.
    SearchFailed,
    /// The search for the window ended; `stdout` is what it wrote.
    SearchDone { success: bool, stdout: Vec<u8> },
    /// The program that docks the window could not be run.
    DockFailed,
    /// The program that docks the window ended.
    DockDone { success: bool },
}

/// What to do next to dock the window.
#[derive(Debug, PartialEq, Eq)]
pub enum DockAction {
    /// Run the program to its end and collect what it writes.
    Search(Launch),
    /// Run the program to its end.
    Dock(Launch),
    /// The window is docked.
    Done,
}

/// The command line that finds the window of a class.
pub open spec fn search_line(class_name: Seq<char>) -> Seq<Seq<char>> {
    seq!["xdotool"@, "search"@, "-classname"@, class_name]
}

/// The command line that sets the type of a window to dock.
pub open spec fn dock_line(window_id: u32) -> Seq<Seq<char>> {
    seq![
        "xprop"@,
        "-f"@,
        "_NET_WM_WINDOW_TYPE"@,
        "32a"@,
        "-set"@,
        "_NET_WM_WINDOW_TYPE"@,
        "_NET_WM_WINDOW_TYPE_DOCK"@,
        "-id"@,
        decimal(window_id as nat),
    ]
}

/// The command line of a launch: the program, then the arguments.
pub open spec fn line_of(launch: Launch) -> Seq<Seq<char>> {
    seq![launch.program@] + texts(launch.args@)
}

/// The window that the search names in what it wrote: a decimal number
/// with white space around it.
pub open spec fn window_id_in(stdout: Seq<u8>) -> Result<u32, ErrorView> {
    if !valid_utf8(stdout) {
        Err(ErrorView::Msg("Failed to decode window ID as UTF8"@))
    } else {
        match parsed_u32(trimmed(decode_utf8(stdout)), 10) {
            Some(id) => Ok(id),
            None => Err(ErrorView::Msg("Failed to parse window ID as integer"@)),
        }
    }
}

/// What to run to find the window of a class.
pub fn search_command(class_name: &str) -> (launch: Launch)
    ensures
        line_of(launch) == search_line(class_name@),
{
    let mut args: Vec<String> = Vec::new();
    args.push(String::from_str("search"));
    args.push(String::from_str("-classname"));
    args.push(String::from_str(class_name));
    let launch = Launch { program: String::from_str("xdotool"), args };
    assert(line_of(launch) =~= search_line(class_name@));
    launch
}

/// Reads the window that the search found from what it wrote.
pub fn get_window_id(success: bool, stdout: Vec<u8>) -> (r: Result<u32, Error>)
    ensures
        match r {
            Ok(id) => success && window_id_in(stdout@) == Ok::<u32, ErrorView>(id),
            Err(e) => if success {
                window_id_in(stdout@) == Err::<u32, ErrorView>(e@)
            } else {
                e@ == ErrorView::CommandError("Command to get window ID failed"@)
            },
        },
{
    if !success {
        return Err(Error::command("Command to get window ID failed"));
    }
    let text = decode(stdout, "Failed to decode window ID as UTF8")?;
    match parse_u32(trim(text.as_str()), 10) {
        Some(id) => Ok(id),
        None => Err(Error::msg("Failed to parse window ID as integer")),
    }
}

/// What to run to set the type of a window to dock.
pub fn run_dock_command(window_id: u32) -> (launch: Launch)
    ensures
        line_of(launch) == dock_line(window_id),
{
    let mut args: Vec<String> = Vec::new();
    args.push(String::from_str("-f"));
    args.push(String::from_str("_NET_WM_WINDOW_TYPE"));
    args.push(String::from_str("32a"));
    args.push(String::from_str("-set"));
    args.push(String::from_str("_NET_WM_WINDOW_TYPE"));
    args.push(String::from_str("_NET_WM_WINDOW_TYPE_DOCK"));
    args.push(String::from_str("-id"));
    args.push(to_decimal(window_id));
    let launch = Launch { program: String::from_str("xprop"), args };
    assert(line_of(launch) =~= dock_line(window_id));
    launch
}

/// Sets the window mode to dock, step by step: given what happened last,
/// says what to do next, or why the window cannot be docked.
pub fn dock_window(class_name: &str, event: DockEvent) -> (r: Result<DockAction, Error>)
    ensures
        match event {
            DockEvent::Start => r matches Ok(DockAction::Search(launch)) && line_of(launch)
                == search_line(class_name@),
            DockEvent::SearchFailed => r matches Err(e) && e@ == ErrorView::Msg(
                "Failed to get window ID. Is xdotool installed?"@,
            ),
            DockEvent::SearchDone { success, stdout } => if !success {
                r matches Err(e) && e@ == ErrorView::CommandError(
                    "Command to get window ID failed"@,
                )
            } else {
                match window_id_in(stdout@) {
                    Ok(id) => r matches Ok(DockAction::Dock(launch)) && line_of(launch)
                        == dock_line(id),
                    Err(e) => r matches Err(x) && x@ == e,
                }
            },
            DockEvent::DockFailed => r matches Err(e) && e@ == ErrorView::Msg(
                "Falied to dock window"@,
            ),
            DockEvent::DockDone { success } => if success {
                r == Ok::<DockAction, Error>(DockAction::Done)
            } else {
                r matches Err(e) && e@ == ErrorView::CommandError(
                    "Command to dock window failed"@,
                )
            },
        },
{
    match event {
        DockEvent::Start => Ok(DockAction::Search(search_command(class_name))),
        DockEvent::SearchFailed => Err(
            Error::msg("Failed to get window ID. Is xdotool installed?"),
        ),
        DockEvent::SearchDone { success, stdout } => {
            let window_id = get_window_id(success, stdout)?;
            Ok(DockAction::Dock(run_dock_command(window_id)))
        },
        DockEvent::DockFailed => Err(Error::msg("Falied to dock window")),
        DockEvent::DockDone { success } => {
            if success {
                Ok(DockAction::Done)
            } else {
                Err(Error::command("Command to dock window failed"))
            }
        },
    }
}

} // verus!
