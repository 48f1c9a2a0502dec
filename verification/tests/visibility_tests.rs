use incredi::command::{Command, Event};
use incredi::visibility::{handle_event, step, Action, Visibility};

const SECOND: u64 = 1_000;

#[test]
fn show_makes_the_window_visible_and_asks_for_a_hide() {
    let (state, action) = step(Visibility::Hidden, Command::Show, 0, 3 * SECOND);
    assert_eq!(state, Visibility::Visible(0));
    assert_eq!(action, Action::Show { hide_after: 3 * SECOND });
}

#[test]
fn a_hide_from_an_earlier_show_is_ignored() {
    // The latest Show is at 0; a Hide that an earlier Show asked for fires
    // at one second.
    let duration = 3 * SECOND;
    let (state, _) = step(Visibility::Hidden, Command::Show, 0, duration);
    let (state, action) = step(state, Command::Hide, SECOND, duration);
    assert_eq!(state, Visibility::Visible(0));
    assert_eq!(action, Action::Nothing);
    let (state, action) = step(state, Command::Hide, 3 * SECOND - 1, duration);
    assert_eq!(state, Visibility::Visible(0));
    assert_eq!(action, Action::Nothing);
    let (state, action) = step(state, Command::Hide, 3 * SECOND, duration);
    assert_eq!(state, Visibility::Hidden);
    assert_eq!(action, Action::Hide);
}

#[test]
fn two_shows_keep_the_window_visible_until_the_second_runs_out() {
    let duration = 3 * SECOND;
    let (state, _) = step(Visibility::Hidden, Command::Show, 0, duration);
    let (state, action) = step(state, Command::Show, SECOND / 2, duration);
    assert_eq!(state, Visibility::Visible(SECOND / 2));
    assert_eq!(action, Action::Show { hide_after: duration });
    // The Hide of the first Show fires at three seconds.
    let (state, action) = step(state, Command::Hide, 3 * SECOND, duration);
    assert_eq!(state, Visibility::Visible(SECOND / 2));
    assert_eq!(action, Action::Nothing);
    // The Hide of the second fires at three and a half.
    let (state, action) = step(state, Command::Hide, 3 * SECOND + SECOND / 2, duration);
    assert_eq!(state, Visibility::Hidden);
    assert_eq!(action, Action::Hide);
}

#[test]
fn hide_while_hidden_hides_again() {
    let (state, action) = step(Visibility::Hidden, Command::Hide, 10, 3);
    assert_eq!(state, Visibility::Hidden);
    assert_eq!(action, Action::Hide);
}

#[test]
fn a_hide_before_the_time_of_the_show_counts_as_no_time_passed() {
    let (state, action) = step(Visibility::Visible(100), Command::Hide, 50, 3);
    assert_eq!(state, Visibility::Visible(100));
    assert_eq!(action, Action::Nothing);
}

#[test]
fn a_show_duration_of_nothing_hides_at_once() {
    let (state, action) = step(Visibility::Visible(100), Command::Hide, 100, 0);
    assert_eq!(state, Visibility::Hidden);
    assert_eq!(action, Action::Hide);
}

#[test]
fn quit_stops_from_every_state() {
    for state in [Visibility::Hidden, Visibility::Visible(7)] {
        let (next, action) = step(state, Command::Quit, 9, 3);
        assert_eq!(next, Visibility::Stopped);
        assert_eq!(action, Action::Stop);
    }
}

#[test]
fn close_and_escape_stop_and_other_events_do_not() {
    assert!(handle_event(Event::Closed));
    assert!(handle_event(Event::EscapePressed));
    assert!(!handle_event(Event::Other));
    let (next, action) = step(Visibility::Visible(1), Command::Event(Event::Closed), 2, 3);
    assert_eq!((next, action), (Visibility::Stopped, Action::Stop));
    let (next, action) = step(Visibility::Hidden, Command::Event(Event::EscapePressed), 2, 3);
    assert_eq!((next, action), (Visibility::Stopped, Action::Stop));
    let (next, action) = step(Visibility::Visible(1), Command::Event(Event::Other), 2, 3);
    assert_eq!((next, action), (Visibility::Visible(1), Action::Nothing));
}

#[test]
fn nothing_happens_once_stopped() {
    for command in [Command::Show, Command::Hide, Command::Quit, Command::Event(Event::Closed)] {
        let (next, action) = step(Visibility::Stopped, command, 5, 3);
        assert_eq!(next, Visibility::Stopped);
        assert_eq!(action, Action::Nothing);
    }
}
