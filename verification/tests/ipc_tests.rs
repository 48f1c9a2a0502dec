use incredi::command::{Command, Event};
use incredi::error::Error;
use incredi::ipc::{default_fifo_path, listen, send, ListenAction, ListenEvent};

fn line(text: &str) -> ListenEvent {
    ListenEvent::Line(text.to_string())
}

#[test]
fn the_line_show_is_one_show_command() {
    assert_eq!(listen(line("show\n")), Ok(ListenAction::Send(Command::Show)));
    assert_eq!(listen(line("show")), Ok(ListenAction::Send(Command::Show)));
}

#[test]
fn a_bogus_line_is_reported_and_the_listener_goes_on() {
    assert_eq!(
        listen(line("bogus\n")),
        Ok(ListenAction::Report(Error::ConfigError("Unrecognised command: bogus".to_string())))
    );
    // The listener still reads what comes next.
    assert_eq!(listen(line("hide")), Ok(ListenAction::Send(Command::Hide)));
}

#[test]
fn white_space_around_a_token_does_not_count() {
    assert_eq!(listen(line("  quit \t\r\n")), Ok(ListenAction::Send(Command::Quit)));
    assert_eq!(listen(line(" hide")), Ok(ListenAction::Send(Command::Hide)));
}

#[test]
fn tokens_are_case_sensitive_and_whole() {
    for text in ["SHOW", "show hide", "sh ow", "", "   ", "event"] {
        assert!(matches!(listen(line(text)), Ok(ListenAction::Report(Error::ConfigError(_)))));
    }
}

#[test]
fn a_closed_pipe_is_opened_again() {
    assert_eq!(listen(ListenEvent::Closed), Ok(ListenAction::Reopen));
}

#[test]
fn a_failed_read_ends_the_listener() {
    assert_eq!(
        listen(ListenEvent::ReadFailed),
        Err(Error::Msg("Failed to read line from IPC FIFO".to_string()))
    );
}

#[test]
fn a_command_is_sent_as_its_token() {
    assert_eq!(send(Command::Show), b"show".to_vec());
    assert_eq!(send(Command::Hide), b"hide".to_vec());
    assert_eq!(send(Command::Quit), b"quit".to_vec());
    assert_eq!(send(Command::Event(Event::Other)), b"event".to_vec());
}

#[test]
fn what_is_sent_is_what_the_listener_hands_on() {
    for command in [Command::Show, Command::Hide, Command::Quit] {
        let sent = String::from_utf8(send(command)).unwrap();
        assert_eq!(listen(ListenEvent::Line(sent)), Ok(ListenAction::Send(command)));
    }
}

#[test]
fn the_pipe_is_named_after_the_display() {
    assert_eq!(default_fifo_path(None, None), "/tmp/incredi-fifo");
    assert_eq!(default_fifo_path(None, Some(":0")), "/tmp/incredi-fifo:0");
    assert_eq!(default_fifo_path(Some("/run/user/1000"), Some(":1.0")), "/run/user/1000/incredi-fifo:1.0");
    assert_eq!(default_fifo_path(Some("/var/tmp"), None), "/var/tmp/incredi-fifo");
    assert_ne!(default_fifo_path(None, Some(":0")), default_fifo_path(None, Some(":1")));
}
