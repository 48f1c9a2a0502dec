//! The items of the panel: what they run and how they are set up.

use vstd::prelude::*;
use vstd::string::*;
use crate::config;
use crate::config::{
    all_of_kind, boolean_setting, dictionary_of, list_setting, or_default, real_setting,
    require, required, text_setting, unwrap_or, yaml_to_hash_map, Kind, Value,
};
use crate::draw::{text_settings, TextConfig};
use crate::error::{Error, ErrorView};
use crate::text::{from_utf8, str_eq, trim, trimmed};
use vstd::utf8::{decode_utf8, valid_utf8};

verus! {

/// The characters of each text of a list.
pub open spec fn texts(list: Seq<String>) -> Seq<Seq<char>> {
    Seq::new(list.len(), |i: int| list[i]@)
}

/// The characters of a text that may be missing.
pub open spec fn text_of(text: Option<String>) -> Option<Seq<char>> {
    match text {
        Some(s) => Some(s@),
        None => None,
    }
}

/// The characters of each text of a list of values that are all texts.
pub open spec fn value_texts(values: Seq<Value>) -> Seq<Seq<char>> {
    Seq::new(values.len(), |i: int| values[i].as_text().unwrap()@)
}

/// The command line that the settings of an item stand for. Either the
/// command is given as a list, and then nothing else may be set; or an
/// interpreter is given, with the path of a script or, after `-c`, with
/// the script itself, but not with both.
pub open spec fn resolved(
    command: Seq<Seq<char>>,
    interpreter: Option<Seq<char>>,
    script: Option<Seq<char>>,
    script_path: Option<Seq<char>>,
) -> Result<Seq<Seq<char>>, ErrorView> {
    if command.len() > 0 {
        if interpreter is Some || script is Some || script_path is Some {
            Err(
                ErrorView::ConfigError(
                    "If command is set, interpreter, script, and script_path must not be"@,
                ),
            )
        } else {
            Ok(command)
        }
    } else if interpreter is Some && script is Some && script_path is Some {
        Err(ErrorView::ConfigError("Only one of script and script_path can be set"@))
    } else if interpreter is Some && script_path is Some {
        Ok(seq![interpreter->Some_0, script_path->Some_0])
    } else if interpreter is Some && script is Some {
        Ok(seq![interpreter->Some_0, "-c"@, script->Some_0])
    } else {
        Err(ErrorView::ConfigError("No command specified"@))
    }
}

/// Works out the command line of an item from its settings.
pub fn resolve_command(
    command: Vec<String>,
    interpreter: Option<String>,
    script: Option<String>,
    script_path: Option<String>,
) -> (r: Result<Vec<String>, Error>)
    ensures
        match resolved(texts(command@), text_of(interpreter), text_of(script), text_of(script_path)) {
            Ok(list) => r matches Ok(v) && texts(v@) == list,
            Err(e) => r matches Err(x) && x@ == e,
        },
{
    if command.len() > 0 {
        if interpreter.is_some() || script.is_some() || script_path.is_some() {
            return Err(
                Error::config("If command is set, interpreter, script, and script_path must not be"),
            );
        }
        return Ok(command);
    }
    if let Some(interpreter) = interpreter {
        if script.is_some() && script_path.is_some() {
            return Err(Error::config("Only one of script and script_path can be set"));
        }
        if let Some(script_path) = script_path {
            let mut list: Vec<String> = Vec::new();
            list.push(interpreter);
            list.push(script_path);
            assert(texts(list@) =~= seq![interpreter@, script_path@]);
            return Ok(list);
        }
        if let Some(script) = script {
            let mut list: Vec<String> = Vec::new();
            list.push(interpreter);
            list.push(String::from_str("-c"));
            list.push(script);
            assert(texts(list@) =~= seq![interpreter@, "-c"@, script@]);
            return Ok(list);
        }
    }
    Err(Error::config("No command specified"))
}

/// Takes the texts out of a list of values that are all texts.
pub(crate) fn into_strings(values: Vec<Value>) -> (list: Vec<String>)
    requires
        all_of_kind(values@, Kind::Text),
    ensures
        texts(list@) == value_texts(values@),
{
    let ghost all = values@;
    let mut list: Vec<String> = Vec::new();
    for value in it: values.into_iter()
        invariant
            it.seq() == all,
            all_of_kind(all, Kind::Text),
            texts(list@) == value_texts(all.take(it.index() as int)),
    {
        let ghost i = it.index() as int;
        assert(all[i].is_a(Kind::Text));
        assert(value == all[i]);
        assert(list@.len() == texts(list@).len());
        let ghost before = list@;
        match value.into_string() {
            Some(text) => {
                list.push(text);
            },
            None => {},
        }
        assert(texts(list@) =~= value_texts(all.take(i + 1))) by {
            assert forall|k: int| 0 <= k < i + 1 implies texts(list@)[k] == value_texts(
                all.take(i + 1),
            )[k] by {
                if k < i {
                    assert(texts(before)[k] == value_texts(all.take(i))[k]);
                }
            }
        }
    }
    assert(all.take(all.len() as int) =~= all);
    list
}

/// A command that can be run: its command line, whether its output asks
/// for the window to be shown, and how its text is drawn.
#[derive(Debug, PartialEq, Eq)]
pub struct Command {
    command_list: Vec<String>,
    trigger_show: bool,
    text_config: TextConfig,
}

/// A command, with its command line as characters.
pub ghost struct CommandView {
    pub command_list: Seq<Seq<char>>,
    pub trigger_show: bool,
    pub text_config: TextConfig,
}

impl View for Command {
    type V = CommandView;

    closed spec fn view(&self) -> CommandView {
        CommandView {
            command_list: texts(self.command_list@),
            trigger_show: self.trigger_show,
            text_config: self.text_config,
        }
    }
}

/// A result with what is `Ok` taken by its view.
pub open spec fn viewed<T: View>(r: Result<T, Error>) -> Result<T::V, ErrorView> {
    match r {
        Ok(v) => Ok(v@),
        Err(e) => Err(e@),
    }
}

/// The command that a dictionary describes, and what is left of the
/// dictionary once its settings were read. Each setting is read in turn and
/// taken out; the first that has the wrong kind of value is the error, and
/// what comes after it is not read. A command line that cannot be worked
/// out is reported last.
pub open spec fn command_settings(map: Map<Seq<char>, Value>) -> (
    Result<CommandView, ErrorView>,
    Map<Seq<char>, Value>,
) {
    let m1 = map.remove("command"@);
    let m2 = m1.remove("interpreter"@);
    let m3 = m2.remove("script"@);
    let m4 = m3.remove("script-path"@);
    let m5 = m4.remove("trigger-show"@);
    let command = list_setting(map, "command"@, Kind::Text);
    let interpreter = text_setting(m1, "interpreter"@, "into_string"@);
    let script = text_setting(m2, "script"@, "into_string"@);
    let script_path = text_setting(m3, "script-path"@, "into_string"@);
    let trigger_show = or_default(boolean_setting(m4, "trigger-show"@, "as_bool"@), false);
    let text_config = text_settings(m5);
    if command is Err {
        (Err(command->Err_0), m1)
    } else if interpreter is Err {
        (Err(interpreter->Err_0), m2)
    } else if script is Err {
        (Err(script->Err_0), m3)
    } else if script_path is Err {
        (Err(script_path->Err_0), m4)
    } else if trigger_show is Err {
        (Err(trigger_show->Err_0), m5)
    } else if text_config.0 is Err {
        (Err(text_config.0->Err_0), text_config.1)
    } else {
        (
            match resolved(
                value_texts(command->Ok_0),
                text_of(interpreter->Ok_0),
                text_of(script->Ok_0),
                text_of(script_path->Ok_0),
            ) {
                Err(e) => Err(e),
                Ok(list) => Ok(
                    CommandView {
                        command_list: list,
                        trigger_show: trigger_show->Ok_0,
                        text_config: text_config.0->Ok_0,
                    },
                ),
            },
            text_config.1,
        )
    }
}

impl Command {
    /// A command with the given command line.
    pub fn new(command_list: Vec<String>, trigger_show: bool, text_config: TextConfig) -> (c:
        Command)
        ensures
            c@ == (CommandView { command_list: texts(command_list@), trigger_show, text_config }),
    {
        Command { command_list, trigger_show, text_config }
    }

    /// The command line: the program, then its arguments.
    pub fn command_list(&self) -> (list: &Vec<String>)
        ensures
            texts(list@) == self@.command_list,
    {
        &self.command_list
    }

    /// Whether the output of the command asks for the window to be shown.
    pub fn trigger_show(&self) -> (show: bool)
        ensures
            show == self@.trigger_show,
    {
        self.trigger_show
    }

    /// How the text of the command is drawn.
    pub fn text_config(&self) -> (text_config: TextConfig)
        ensures
            text_config == self@.text_config,
    {
        self.text_config
    }

    /// Reads a command from a dictionary and takes its settings out.
    pub fn parse(config: &mut config::Config) -> (r: Result<Command, Error>)
        ensures
            (viewed(r), final(config)@) == command_settings(old(config)@),
    {
        let command = config.take_list("command", Kind::Text)?;
        let interpreter = config.take_string("interpreter", "into_string")?;
        let script = config.take_string("script", "into_string")?;
        let script_path = config.take_string("script-path", "into_string")?;
        let trigger_show = unwrap_or(config.take_bool("trigger-show", "as_bool"), false)?;
        let text_config = TextConfig::parse(config)?;
        let command_list = resolve_command(into_strings(command), interpreter, script, script_path)?;
        Ok(Command::new(command_list, trigger_show, text_config))
    }
}


/// A program to start, with its arguments.
#[derive(Debug, PartialEq, Eq)]
pub struct Launch {
    pub program: String,
    pub args: Vec<String>,
}

/// What is to be started for a command line: its first word is the
/// program and the others are the arguments.
pub open spec fn is_launch_of(launch: Launch, command_list: Seq<Seq<char>>) -> bool {
    &&& command_list.len() > 0
    &&& launch.program@ == command_list[0]
    &&& texts(launch.args@) == command_list.skip(1)
}

/// Works out what to start for a command line; an empty one starts
/// nothing.
pub fn create_command(command_list: &Vec<String>) -> (r: Result<Launch, Error>)
    ensures
        if command_list@.len() == 0 {
            r matches Err(e) && e@ == ErrorView::CommandError("Command is empty"@)
        } else {
            r matches Ok(launch) && is_launch_of(launch, texts(command_list@))
        },
{
    let n: usize = command_list.len();
    if n == 0 {
        return Err(Error::command("Command is empty"));
    }
    let program: String = command_list[0].clone();
    let mut args: Vec<String> = Vec::new();
    let mut i: usize = 1;
    while i < n
        invariant
            1 <= i <= n,
            n == command_list@.len(),
            args@.len() == i - 1,
            forall|k: int| 0 <= k < i - 1 ==> (#[trigger] args@[k])@ == command_list@[k + 1]@,
        decreases n - i,
    {
        args.push(command_list[i].clone());
        i += 1;
    }
    assert(texts(args@) =~= texts(command_list@).skip(1));
    Ok(Launch { program, args })
}

/// The text that the bytes encode.
pub fn decode(bytes: Vec<u8>, failure: &str) -> (r: Result<String, Error>)
    ensures
        if valid_utf8(bytes@) {
            r matches Ok(text) && text@ == decode_utf8(bytes@)
        } else {
            r matches Err(e) && e@ == ErrorView::Msg(failure@)
        },
{
    match from_utf8(bytes) {
        Some(text) => Ok(text),
        None => Err(Error::msg(failure)),
    }
}

/// What happens to the task of an item that runs its command again and
/// again.
#[derive(Debug, PartialEq, Eq)]
pub enum PulledEvent {
    /// A round begins: at the start, and after each pause.
    Tick,
    /// The command ran to its end and wrote these bytes.
    Finished(Vec<u8>),
    /// The command could not be run.
    Failed,
}

/// What the task of such an item does next.
#[derive(Debug, PartialEq, Eq)]
pub enum PulledAction {
    /// Run the program to its end and collect what it writes.
    Run(Launch),
    /// Store the text, ask for the window to be shown if `show` is set,
    /// then pause for the item's interval and begin the next round.
    Publish { text: String, show: bool },
}

/// What happens to the task of an item that reads the lines of a program
/// that keeps running.
#[derive(Debug, PartialEq, Eq)]
pub enum PushedEvent {
    /// The task begins.
    Start,
    /// The program wrote a line.
    Line(String),
    /// The program closed its output.
    Closed,
    /// The program could not be started.
    SpawnFailed,
    /// A line could not be read.
    ReadFailed,
}

/// What the task of such an item does next.
#[derive(Debug, PartialEq, Eq)]
pub enum PushedAction {
    /// Start the program and read its lines.
    Spawn(Launch),
    /// Store the text, and ask for the window to be shown if `show` is set.
    Publish { text: String, show: bool },
}

impl Command {
    /// What the task of the command does after an event when the command
    /// pushes its updates. A program that closes its output is started
    /// again; a program that cannot be started, or a line that cannot be
    /// read, ends the task with the error.
    pub fn start(&self, event: PushedEvent) -> (r: Result<PushedAction, Error>)
        ensures
            match event {
                PushedEvent::Start | PushedEvent::Closed => if self@.command_list.len() == 0 {
                    r matches Err(e) && e@ == ErrorView::CommandError("Command is empty"@)
                } else {
                    r matches Ok(PushedAction::Spawn(launch)) && is_launch_of(
                        launch,
                        self@.command_list,
                    )
                },
                PushedEvent::Line(line) => r == Ok::<PushedAction, Error>(
                    PushedAction::Publish { text: line, show: self@.trigger_show },
                ),
                PushedEvent::SpawnFailed => r matches Err(e) && e@ == ErrorView::Msg(
                    "Failed to start command"@,
                ),
                PushedEvent::ReadFailed => r matches Err(e) && e@ == ErrorView::Msg(
                    "Failed to read line"@,
                ),
            },
    {
        match event {
            PushedEvent::Start | PushedEvent::Closed => {
                let launch = create_command(&self.command_list)?;
                Ok(PushedAction::Spawn(launch))
            },
            PushedEvent::Line(line) => Ok(
                PushedAction::Publish { text: line, show: self.trigger_show },
            ),
            PushedEvent::SpawnFailed => Err(Error::msg("Failed to start command")),
            PushedEvent::ReadFailed => Err(Error::msg("Failed to read line")),
        }
    }

    /// What the task of the command does after an event when the command
    /// is run again and again. Any error ends the task.
    pub fn pull(&self, event: PulledEvent) -> (r: Result<PulledAction, Error>)
        ensures
            match event {
                PulledEvent::Tick => if self@.command_list.len() == 0 {
                    r matches Err(e) && e@ == ErrorView::CommandError("Command is empty"@)
                } else {
                    r matches Ok(PulledAction::Run(launch)) && is_launch_of(
                        launch,
                        self@.command_list,
                    )
                },
                PulledEvent::Finished(bytes) => if valid_utf8(bytes@) {
                    r matches Ok(PulledAction::Publish { text, show }) && text@ == decode_utf8(
                        bytes@,
                    ) && show == self@.trigger_show
                } else {
                    r matches Err(e) && e@ == ErrorView::Msg(
                        "Failed to decode bytes into utf8 string"@,
                    )
                },
                PulledEvent::Failed => r matches Err(e) && e@ == ErrorView::Msg(
                    "Failed to execute command"@,
                ),
            },
    {
        match event {
            PulledEvent::Tick => {
                let launch = create_command(&self.command_list)?;
                Ok(PulledAction::Run(launch))
            },
            PulledEvent::Finished(bytes) => {
                let text = decode(bytes, "Failed to decode bytes into utf8 string")?;
                Ok(PulledAction::Publish { text, show: self.trigger_show })
            },
            PulledEvent::Failed => Err(Error::msg("Failed to execute command")),
        }
    }

    /// The text to draw for what the command wrote last, and how to draw
    /// it: the output without the white space around it.
    pub fn get_text(&self, output: &str) -> (r: (String, TextConfig))
        ensures
            r.0@ == trimmed(output@),
            r.1 == self@.text_config,
    {
        (String::from_str(trim(output)), self.text_config)
    }
}

/// Command that pushes updates.
pub type PushedCommand = Command;

/// Command that can be pulled at an interval.
#[derive(Debug, PartialEq, Eq)]
pub struct PulledCommand {
    command: Command,
    interval_sec: String,
}

/// A pulled command, with its interval in seconds as it was written.
pub ghost struct PulledView {
    pub command: CommandView,
    pub interval_sec: Seq<char>,
}

impl View for PulledCommand {
    type V = PulledView;

    closed spec fn view(&self) -> PulledView {
        PulledView { command: self.command@, interval_sec: self.interval_sec@ }
    }
}

/// The pulled command that a dictionary describes, and what is left of
/// the dictionary once its settings were read: the interval must be there,
/// then come the settings of the command.
pub open spec fn pulled_settings(map: Map<Seq<char>, Value>) -> (
    Result<PulledView, ErrorView>,
    Map<Seq<char>, Value>,
) {
    let rest = map.remove("interval-sec"@);
    match required(real_setting(map, "interval-sec"@, "as_f64"@), "interval-sec"@) {
        Err(e) => (Err(e), rest),
        Ok(interval) => (
            match command_settings(rest).0 {
                Err(e) => Err(e),
                Ok(command) => Ok(PulledView { command, interval_sec: interval@ }),
            },
            command_settings(rest).1,
        ),
    }
}

impl PulledCommand {
    /// A command that is run once per interval.
    pub fn new(command: Command, interval_sec: String) -> (p: PulledCommand)
        ensures
            p@ == (PulledView { command: command@, interval_sec: interval_sec@ }),
    {
        PulledCommand { command, interval_sec }
    }

    /// Reads a pulled command from a dictionary and takes its settings out.
    pub fn parse(config: &mut config::Config) -> (r: Result<PulledCommand, Error>)
        ensures
            (viewed(r), final(config)@) == pulled_settings(old(config)@),
    {
        let interval_sec = require(config.take_real("interval-sec", "as_f64"), "interval-sec")?;
        let command = Command::parse(config)?;
        Ok(PulledCommand::new(command, interval_sec))
    }

    /// The interval between two runs, in seconds as written.
    pub fn get_interval(&self) -> (interval: &String)
        ensures
            interval@ == self@.interval_sec,
    {
        &self.interval_sec
    }

    /// The command that is run.
    pub fn command(&self) -> (command: &Command)
        ensures
            command@ == self@.command,
    {
        &self.command
    }

    /// What the task of the item does after an event.
    pub fn pull(&self, event: PulledEvent) -> (r: Result<PulledAction, Error>)
        ensures
            match event {
                PulledEvent::Tick => if self@.command.command_list.len() == 0 {
                    r matches Err(e) && e@ == ErrorView::CommandError("Command is empty"@)
                } else {
                    r matches Ok(PulledAction::Run(launch)) && is_launch_of(
                        launch,
                        self@.command.command_list,
                    )
                },
                PulledEvent::Finished(bytes) => if valid_utf8(bytes@) {
                    r matches Ok(PulledAction::Publish { text, show }) && text@ == decode_utf8(
                        bytes@,
                    ) && show == self@.command.trigger_show
                } else {
                    r matches Err(e) && e@ == ErrorView::Msg(
                        "Failed to decode bytes into utf8 string"@,
                    )
                },
                PulledEvent::Failed => r matches Err(e) && e@ == ErrorView::Msg(
                    "Failed to execute command"@,
                ),
            },
    {
        self.command.pull(event)
    }

    /// The text to draw for what the command wrote last, and how to draw it.
    pub fn get_text(&self, output: &str) -> (r: (String, TextConfig))
        ensures
            r.0@ == trimmed(output@),
            r.1 == self@.command.text_config,
    {
        self.command.get_text(output)
    }
}

/// An item of the panel.
#[derive(Debug, PartialEq, Eq)]
pub enum Item {
    /// Runs its command once per interval.
    Pulled(PulledCommand),
    /// Reads the lines of a command that keeps running.
    Pushed(PushedCommand),
}

/// An item, with its texts as characters.
pub ghost enum ItemView {
    Pulled(PulledView),
    Pushed(CommandView),
}

impl View for Item {
    type V = ItemView;

    open spec fn view(&self) -> ItemView {
        match self {
            Item::Pulled(p) => ItemView::Pulled(p@),
            Item::Pushed(c) => ItemView::Pushed(c@),
        }
    }
}

/// The item that a dictionary describes, and what is left of the
/// dictionary once its settings were read: its name says of which kind it
/// is, and the other settings are those of that kind.
pub open spec fn item_settings(map: Map<Seq<char>, Value>) -> (
    Result<ItemView, ErrorView>,
    Map<Seq<char>, Value>,
) {
    let rest = map.remove("name"@);
    match required(text_setting(map, "name"@, "into_string"@), "name"@) {
        Err(e) => (Err(e), rest),
        Ok(name) => if name@ == "pulled-command"@ {
            (
                match pulled_settings(rest).0 {
                    Ok(p) => Ok(ItemView::Pulled(p)),
                    Err(e) => Err(e),
                },
                pulled_settings(rest).1,
            )
        } else if name@ == "pushed-command"@ {
            (
                match command_settings(rest).0 {
                    Ok(c) => Ok(ItemView::Pushed(c)),
                    Err(e) => Err(e),
                },
                command_settings(rest).1,
            )
        } else {
            (Err(ErrorView::ConfigError("Unrecognized name: "@ + name@)), rest)
        },
    }
}

impl Item {
    /// Reads an item from a dictionary and takes its settings out.
    pub fn parse(config: &mut config::Config) -> (r: Result<Item, Error>)
        ensures
            (viewed(r), final(config)@) == item_settings(old(config)@),
    {
        let name = require(config.take_string("name", "into_string"), "name")?;
        if str_eq(name.as_str(), "pulled-command") {
            Ok(Item::Pulled(PulledCommand::parse(config)?))
        } else if str_eq(name.as_str(), "pushed-command") {
            Ok(Item::Pushed(Command::parse(config)?))
        } else {
            Err(Error::ConfigError(String::from_str("Unrecognized name: ").concat(name.as_str())))
        }
    }

    /// The text to draw for what the item wrote last, and how to draw it.
    pub fn get_text(&self, output: &str) -> (r: (String, TextConfig))
        ensures
            r.0@ == trimmed(output@),
            r.1 == (match self@ {
                ItemView::Pulled(p) => p.command.text_config,
                ItemView::Pushed(c) => c.text_config,
            }),
    {
        match self {
            Item::Pulled(p) => p.get_text(output),
            Item::Pushed(c) => c.get_text(output),
        }
    }
}

/// The dictionaries that a list of values stands for; the first value that
/// is no dictionary is the error.
pub open spec fn dictionaries(values: Seq<Value>) -> Result<Seq<Map<Seq<char>, Value>>, ErrorView>
    decreases values.len(),
{
    if values.len() == 0 {
        Ok(Seq::empty())
    } else {
        match dictionaries(values.drop_last()) {
            Err(e) => Err(e),
            Ok(maps) => match dictionary_of(values.last()) {
                Err(e) => Err(e),
                Ok(map) => Ok(maps.push(map)),
            },
        }
    }
}

/// The items that a list of dictionaries describes; the first dictionary
/// that describes none is the error.
pub open spec fn items_of(maps: Seq<Map<Seq<char>, Value>>) -> Result<Seq<ItemView>, ErrorView>
    decreases maps.len(),
{
    if maps.len() == 0 {
        Ok(Seq::empty())
    } else {
        match items_of(maps.drop_last()) {
            Err(e) => Err(e),
            Ok(items) => match item_settings(maps.last()).0 {
                Err(e) => Err(e),
                Ok(item) => Ok(items.push(item)),
            },
        }
    }
}

/// The items of a configuration: the list under `items`, each entry of
/// which is a dictionary that describes an item. No list stands for no
/// items. All entries are checked to be dictionaries before the first is
/// read as an item.
pub open spec fn items_setting(map: Map<Seq<char>, Value>) -> Result<Seq<ItemView>, ErrorView> {
    match list_setting(map, "items"@, Kind::Hash) {
        Err(e) => Err(e),
        Ok(values) => match dictionaries(values) {
            Err(e) => Err(e),
            Ok(maps) => items_of(maps),
        },
    }
}

/// An error among the first values is the error of the whole list.
proof fn lemma_dictionaries_error(values: Seq<Value>, n: int)
    requires
        0 <= n <= values.len(),
        dictionaries(values.take(n)) is Err,
    ensures
        dictionaries(values) == dictionaries(values.take(n)),
    decreases values.len() - n,
{
    if n == values.len() {
        assert(values.take(n) =~= values);
    } else {
        assert(values.take(n + 1).drop_last() =~= values.take(n));
        lemma_dictionaries_error(values, n + 1);
    }
}

/// An error among the first dictionaries is the error of the whole list.
proof fn lemma_items_error(maps: Seq<Map<Seq<char>, Value>>, n: int)
    requires
        0 <= n <= maps.len(),
        items_of(maps.take(n)) is Err,
    ensures
        items_of(maps) == items_of(maps.take(n)),
    decreases maps.len() - n,
{
    if n == maps.len() {
        assert(maps.take(n) =~= maps);
    } else {
        assert(maps.take(n + 1).drop_last() =~= maps.take(n));
        lemma_items_error(maps, n + 1);
    }
}

/// The views of the dictionaries.
pub open spec fn config_views(configs: Seq<config::Config>) -> Seq<Map<Seq<char>, Value>> {
    Seq::new(configs.len(), |i: int| configs[i]@)
}

/// The views of the items.
pub open spec fn item_views(items: Seq<Item>) -> Seq<ItemView> {
    Seq::new(items.len(), |i: int| items[i]@)
}

/// Creates a list of items from a configuration.
pub fn parse_items(config: &mut config::Config) -> (r: Result<Vec<Item>, Error>)
    ensures
        final(config)@ == old(config)@.remove("items"@),
        match items_setting(old(config)@) {
            Ok(views) => r matches Ok(items) && item_views(items@) == views,
            Err(e) => r matches Err(x) && x@ == e,
        },
{
    let values: Vec<Value> = config.take_list("items", Kind::Hash)?;
    let ghost all = values@;
    let mut item_yamls: Vec<config::Config> = Vec::new();
    assert(all.take(0) =~= Seq::<Value>::empty());
    assert(config_views(item_yamls@) =~= Seq::<Map<Seq<char>, Value>>::empty());
    for value in it: values.into_iter()
        invariant
            it.seq() == all,
            dictionaries(all.take(it.index() as int)) == Ok::<
                Seq<Map<Seq<char>, Value>>,
                ErrorView,
            >(config_views(item_yamls@)),
            config@ == old(config)@.remove("items"@),
            list_setting(old(config)@, "items"@, Kind::Hash) == Ok::<Seq<Value>, ErrorView>(all),
    {
        let ghost i = it.index() as int;
        let ghost before = item_yamls@;
        assert(all.take(i + 1).drop_last() =~= all.take(i));
        match yaml_to_hash_map(value) {
            Ok(yaml_object) => {
                item_yamls.push(yaml_object);
                assert(config_views(item_yamls@) =~= config_views(before).push(yaml_object@));
            },
            Err(e) => {
                proof {
                    lemma_dictionaries_error(all, i + 1);
                }
                return Err(e);
            },
        }
    }
    assert(all.take(all.len() as int) =~= all);
    let ghost maps = config_views(item_yamls@);
    let mut items: Vec<Item> = Vec::new();
    assert(maps.take(0) =~= Seq::<Map<Seq<char>, Value>>::empty());
    assert(item_views(items@) =~= Seq::<ItemView>::empty());
    for yaml_object in it: item_yamls.into_iter()
        invariant
            config_views(it.seq()) == maps,
            items_of(maps.take(it.index() as int)) == Ok::<Seq<ItemView>, ErrorView>(
                item_views(items@),
            ),
            config@ == old(config)@.remove("items"@),
            list_setting(old(config)@, "items"@, Kind::Hash) == Ok::<Seq<Value>, ErrorView>(all),
            dictionaries(all) == Ok::<Seq<Map<Seq<char>, Value>>, ErrorView>(maps),
    {
        let ghost i = it.index() as int;
        let ghost before = items@;
        assert(maps.take(i + 1).drop_last() =~= maps.take(i));
        assert(yaml_object@ == maps[i]);
        let mut yaml_object = yaml_object;
        match Item::parse(&mut yaml_object) {
            Ok(item) => {
                items.push(item);
                assert(item_views(items@) =~= item_views(before).push(item@));
            },
            Err(e) => {
                proof {
                    lemma_items_error(maps, i + 1);
                }
                return Err(e);
            },
        }
    }
    assert(maps.take(maps.len() as int) =~= maps);
    Ok(items)
}

} // verus!
