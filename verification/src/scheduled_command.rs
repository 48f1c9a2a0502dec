//! An item that runs its command on a schedule and always asks for the
//! window to be shown.

use vstd::prelude::*;
use vstd::string::*;
use vstd::utf8::{decode_utf8, valid_utf8};
use crate::config;
use crate::config::{
    list_setting, real_setting, require, required, text_setting, Kind, Value,
};
use crate::error::{Error, ErrorView};
use crate::item::{
    create_command, decode, into_strings, is_launch_of, resolve_command, resolved, text_of, texts,
    value_texts, viewed, PulledAction, PulledEvent,
};

verus! {

/// A command that is run once per interval.
#[derive(Debug, PartialEq, Eq)]
pub struct ScheduledCommand {
    command_list: Vec<String>,
    interval_sec: String,
}

/// A scheduled command, with its texts as characters.
pub ghost struct ScheduledView {
    pub command_list: Seq<Seq<char>>,
    /// The interval in seconds, as written.
    pub interval_sec: Seq<char>,
}

impl View for ScheduledCommand {
    type V = ScheduledView;

    closed spec fn view(&self) -> ScheduledView {
        ScheduledView { command_list: texts(self.command_list@), interval_sec: self.interval_sec@ }
    }
}

/// The scheduled command that a dictionary describes, and what is left of
/// the dictionary once its settings were read. Each setting is read in turn
/// and taken out; the first that has the wrong kind of value, or is missing
/// though it must be there, is the error, and what comes after it is not
/// read. A command line that cannot be worked out is reported last.
pub open spec fn scheduled_settings(map: Map<Seq<char>, Value>) -> (
    Result<ScheduledView, ErrorView>,
    Map<Seq<char>, Value>,
) {
    let m1 = map.remove("command"@);
    let m2 = m1.remove("interpreter"@);
    let m3 = m2.remove("script"@);
    let m4 = m3.remove("script-path"@);
    let m5 = m4.remove("interval-sec"@);
    let command = list_setting(map, "command"@, Kind::Text);
    let interpreter = text_setting(m1, "interpreter"@, "into_string"@);
    let script = text_setting(m2, "script"@, "into_string"@);
    let script_path = text_setting(m3, "script-path"@, "into_string"@);
    let interval = required(real_setting(m4, "interval-sec"@, "into_f64"@), "interval-sec"@);
    if command is Err {
        (Err(command->Err_0), m1)
    } else if interpreter is Err {
        (Err(interpreter->Err_0), m2)
    } else if script is Err {
        (Err(script->Err_0), m3)
    } else if script_path is Err {
        (Err(script_path->Err_0), m4)
    } else if interval is Err {
        (Err(interval->Err_0), m5)
    } else {
        (
            match resolved(
                value_texts(command->Ok_0),
                text_of(interpreter->Ok_0),
                text_of(script->Ok_0),
                text_of(script_path->Ok_0),
            ) {
                Err(e) => Err(e),
                Ok(list) => Ok(ScheduledView { command_list: list, interval_sec: interval->Ok_0@ }),
            },
            m5,
        )
    }
}

impl ScheduledCommand {
    /// A command that is run once per interval, given in seconds as
    /// written.
    pub fn new(command_list: Vec<String>, interval_sec: String) -> (c: ScheduledCommand)
        ensures
            c@ == (ScheduledView {
                command_list: texts(command_list@),
                interval_sec: interval_sec@,
            }),
    {
        ScheduledCommand { command_list, interval_sec }
    }

    /// Reads a scheduled command from a dictionary and takes its settings
    /// out.
    pub fn parse(config: &mut config::Config) -> (r: Result<ScheduledCommand, Error>)
        ensures
            (viewed(r), final(config)@) == scheduled_settings(old(config)@),
    {
        let command = config.take_list("command", Kind::Text)?;
        let interpreter = config.take_string("interpreter", "into_string")?;
        let script = config.take_string("script", "into_string")?;
        let script_path = config.take_string("script-path", "into_string")?;
        let interval_sec = require(config.take_real("interval-sec", "into_f64"), "interval-sec")?;
        let command_list = resolve_command(into_strings(command), interpreter, script, script_path)?;
        Ok(ScheduledCommand::new(command_list, interval_sec))
    }

    /// The command line: the program, then its arguments.
    pub fn command_list(&self) -> (list: &Vec<String>)
        ensures
            texts(list@) == self@.command_list,
    {
        &self.command_list
    }

    /// The interval between two runs, in seconds as written.
    pub fn get_interval(&self) -> (interval: &String)
        ensures
            interval@ == self@.interval_sec,
    {
        &self.interval_sec
    }

    /// What the task of the item does after an event: every output is
    /// published and asks for the window to be shown. Any error ends the
    /// task.
    pub fn start(&self, event: PulledEvent) -> (r: Result<PulledAction, Error>)
        ensures
            match event {
                PulledEvent::Tick => if self@.command_list.len() == 0 {
                    r matches Err(e) && e@ == ErrorView::CommandError("Command is empty"@)
                } else {
                    r matches Ok(PulledAction::Run(launch)) && is_launch_of(
                        launch,
                        self@.command_list,
                    )
                },
                PulledEvent::Finished(bytes) => if valid_utf8(bytes@) {
                    r matches Ok(PulledAction::Publish { text, show }) && text@ == decode_utf8(
                        bytes@,
                    ) && show
                } else {
                    r matches Err(e) && e@ == ErrorView::Msg(
                        "Failed to decode bytes into utf8 string"@,
                    )
                },
                PulledEvent::Failed => r matches Err(e) && e@ == ErrorView::Msg(
                    "Failed to execute command"@,
                ),
            },
    {
        match event {
            PulledEvent::Tick => {
                let launch = create_command(&self.command_list)?;
                Ok(PulledAction::Run(launch))
            },
            PulledEvent::Finished(bytes) => {
                let text = decode(bytes, "Failed to decode bytes into utf8 string")?;
                Ok(PulledAction::Publish { text, show: true })
            },
            PulledEvent::Failed => Err(Error::msg("Failed to execute command")),
        }
    }

    /// The text to draw for what the command wrote last: the output as it
    /// is.
    pub fn get_text(&self, output: &str) -> (text: String)
        ensures
            text@ == output@,
    {
        String::from_str(output)
    }
}

} // verus!
