//! When the panel's window is shown and when it is hidden.
//!
//! Every `Show` makes the window visible and asks for a `Hide` to be sent
//! once the show duration has passed. Such a `Hide` is honoured only if the
//! window has by then been visible for the whole duration, counted from the
//! latest `Show`: a `Hide` that an earlier `Show` asked for comes too early
//! and changes nothing.
//!
//! Times are counted from any fixed moment, in any unit, as long as the show
//! duration is given in the same unit.

use vstd::prelude::*;
use crate::command::{Command, Event};

verus! {

/// The state of the window.
#[derive(Clone, Copy, Debug, PartialEq, Eq, Structural)]
pub enum Visibility {
    /// Not on screen: the state at the start.
    Hidden,
    /// On screen since the given time.
    Visible(u64),
    /// The loop has ended.
    Stopped,
}

/// What the window loop has to do after a command.
#[derive(Clone, Copy, Debug, PartialEq, Eq, Structural)]
pub enum Action {
    /// Nothing.
    Nothing,
    /// Put the window on screen at its anchor, and send a `Hide` after the
    /// given delay.
    Show { hide_after: u64 },
    /// Take the window off the screen.
    Hide,
    /// End the loop.
    Stop,
}

/// A command together with the time at which the loop handles it.
pub struct Timed {
    pub command: Command,
    pub at: u64,
}

/// The commands that end the loop: `Quit`, a request to close the window,
/// and the escape key.
pub open spec fn is_stop(command: Command) -> bool {
    command == Command::Quit || command == Command::Event(Event::Closed) || command
        == Command::Event(Event::EscapePressed)
}

/// The time that has passed at `now` since `since`; none if `now` is the
/// earlier of the two.
pub open spec fn elapsed(now: u64, since: u64) -> nat {
    if now >= since {
        (now - since) as nat
    } else {
        0
    }
}

/// The state after a command.
pub open spec fn next_state(
    state: Visibility,
    command: Command,
    now: u64,
    show_duration: u64,
) -> Visibility {
    match state {
        Visibility::Stopped => Visibility::Stopped,
        _ => match command {
            Command::Quit => Visibility::Stopped,
            Command::Event(event) => if is_stop(command) {
                Visibility::Stopped
            } else {
                state
            },
            Command::Show => Visibility::Visible(now),
            Command::Hide => match state {
                Visibility::Visible(since) if elapsed(now, since) < show_duration => state,
                _ => Visibility::Hidden,
            },
        },
    }
}

/// What is to be done after a command.
pub open spec fn action_for(
    state: Visibility,
    command: Command,
    now: u64,
    show_duration: u64,
) -> Action {
    match state {
        Visibility::Stopped => Action::Nothing,
        _ => match command {
            Command::Quit => Action::Stop,
            Command::Event(event) => if is_stop(command) {
                Action::Stop
            } else {
                Action::Nothing
            },
            Command::Show => Action::Show { hide_after: show_duration },
            Command::Hide => match state {
                Visibility::Visible(since) if elapsed(now, since) < show_duration => Action::Nothing,
                _ => Action::Hide,
            },
        },
    }
}

/// The state after a series of commands, handled in order.
pub open spec fn state_after(state: Visibility, trace: Seq<Timed>, show_duration: u64) -> Visibility
    decreases trace.len(),
{
    if trace.len() == 0 {
        state
    } else {
        next_state(
            state_after(state, trace.drop_last(), show_duration),
            trace.last().command,
            trace.last().at,
            show_duration,
        )
    }
}

/// Whether the event ends the loop.
pub fn handle_event(event: Event) -> (quit: bool)
    ensures
        quit == is_stop(Command::Event(event)),
{
    match event {
        Event::Closed | Event::EscapePressed => true,
        Event::Other => false,
    }
}

/// Handles one command at time `now`: returns the next state and what the
/// loop has to do.
pub fn step(state: Visibility, command: Command, now: u64, show_duration: u64) -> (r: (
    Visibility,
    Action,
))
    ensures
        r.0 == next_state(state, command, now, show_duration),
        r.1 == action_for(state, command, now, show_duration),
{
    if let Visibility::Stopped = state {
        return (Visibility::Stopped, Action::Nothing);
    }
    match command {
        Command::Event(event) => {
            if handle_event(event) {
                (Visibility::Stopped, Action::Stop)
            } else {
                (state, Action::Nothing)
            }
        },
        Command::Show => (Visibility::Visible(now), Action::Show { hide_after: show_duration }),
        Command::Hide => {
            if let Visibility::Visible(since) = state {
                let passed: u64 = if now >= since {
                    now - since
                } else {
                    0
                };
                if passed < show_duration {
                    return (state, Action::Nothing);
                }
            }
            (Visibility::Hidden, Action::Hide)
        },
        Command::Quit => (Visibility::Stopped, Action::Stop),
    }
}

/// A `Hide` that comes before the window has been visible for the show
/// duration changes nothing.
pub proof fn lemma_early_hide_is_ignored(since: u64, now: u64, show_duration: u64)
    requires
        elapsed(now, since) < show_duration,
    ensures
        next_state(Visibility::Visible(since), Command::Hide, now, show_duration)
            == Visibility::Visible(since),
        action_for(Visibility::Visible(since), Command::Hide, now, show_duration)
            == Action::Nothing,
{
}

/// A `Hide` that comes once the window has been visible for the show
/// duration hides it.
pub proof fn lemma_due_hide_hides(since: u64, now: u64, show_duration: u64)
    requires
        elapsed(now, since) >= show_duration,
    ensures
        next_state(Visibility::Visible(since), Command::Hide, now, show_duration)
            == Visibility::Hidden,
        action_for(Visibility::Visible(since), Command::Hide, now, show_duration) == Action::Hide,
{
}

/// Without a command that ends the loop, the loop does not end.
pub proof fn lemma_runs_on(state: Visibility, trace: Seq<Timed>, show_duration: u64)
    requires
        state != Visibility::Stopped,
        forall|i: int| 0 <= i < trace.len() ==> !is_stop(#[trigger] trace[i].command),
    ensures
        state_after(state, trace, show_duration) != Visibility::Stopped,
    decreases trace.len(),
{
    if trace.len() > 0 {
        let before = trace.drop_last();
        assert forall|i: int| 0 <= i < before.len() implies !is_stop(
            #[trigger] before[i].command,
        ) by {
            assert(before[i] == trace[i]);
        }
        lemma_runs_on(state, before, show_duration);
        assert(!is_stop(trace[trace.len() - 1].command));
    }
}

/// The window stays visible as long as the latest `Show` asks for: after a
/// series of commands none of which ends the loop, if command `k` is the
/// latest `Show` and every command after it is handled before the show
/// duration has passed since then, the window is visible and has been so
/// since command `k`. Neither an earlier `Show` nor the `Hide` that it asked
/// for shortens that.
pub proof fn lemma_visible_since_latest_show(
    state: Visibility,
    trace: Seq<Timed>,
    show_duration: u64,
    k: int,
)
    requires
        state != Visibility::Stopped,
        0 <= k < trace.len(),
        trace[k].command == Command::Show,
        forall|i: int| 0 <= i < trace.len() ==> !is_stop(#[trigger] trace[i].command),
        forall|i: int| k < i < trace.len() ==> (#[trigger] trace[i]).command != Command::Show,
        forall|i: int|
            k < i < trace.len() ==> elapsed((#[trigger] trace[i]).at, trace[k].at) < show_duration,
    ensures
        state_after(state, trace, show_duration) == Visibility::Visible(trace[k].at),
    decreases trace.len(),
{
    let before = trace.drop_last();
    assert forall|i: int| 0 <= i < before.len() implies !is_stop(#[trigger] before[i].command) by {
        assert(before[i] == trace[i]);
    }
    if k == trace.len() - 1 {
        lemma_runs_on(state, before, show_duration);
    } else {
        assert(before[k] == trace[k]);
        assert forall|i: int| k < i < before.len() implies (#[trigger] before[i]).command
            != Command::Show && elapsed(before[i].at, before[k].at) < show_duration by {
            assert(before[i] == trace[i]);
        }
        lemma_visible_since_latest_show(state, before, show_duration, k);
        let last = trace[trace.len() - 1];
        assert(!is_stop(last.command));
        assert(last.command != Command::Show);
        assert(elapsed(last.at, trace[k].at) < show_duration);
    }
}

} // verus!
