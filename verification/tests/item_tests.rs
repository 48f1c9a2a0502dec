use incredi::config::{Config, Value};
use incredi::draw::{DrawConfig, TextConfig};
use incredi::error::Error;
use incredi::item::{
    create_command, decode, parse_items, resolve_command, Command, Item, Launch,
    PulledAction, PulledCommand, PulledEvent, PushedAction, PushedEvent,
};
use incredi::scheduled_command::ScheduledCommand;
use incredi::util::Color;

fn words(list: &[&str]) -> Vec<String> {
    list.iter().map(|s| s.to_string()).collect()
}

fn text(s: &str) -> Value {
    Value::Text(s.to_string())
}

fn list(items: &[&str]) -> Value {
    Value::Array(items.iter().map(|s| text(s)).collect())
}

fn config_error(message: &str) -> Error {
    Error::ConfigError(message.to_string())
}

fn default_text_config() -> TextConfig {
    TextConfig {
        draw_config: DrawConfig {
            vertical_centre_align: true,
            horizontal_centre_align: true,
            vertical_padding: 5,
            horizontal_padding: 10,
        },
        color: Color { r: 255, g: 255, b: 255, a: 255 },
    }
}

fn dictionary(entries: Vec<(&str, Value)>) -> Config {
    let mut config = Config::new();
    for (name, value) in entries {
        config.insert(name.to_string(), value);
    }
    config
}

fn hash(entries: Vec<(&str, Value)>) -> Value {
    Value::Hash(entries.into_iter().map(|(name, value)| (text(name), value)).collect())
}

fn echo(trigger_show: bool) -> Command {
    Command::new(words(&["echo", "X"]), trigger_show, default_text_config())
}

#[test]
fn a_command_list_stands_alone() {
    assert_eq!(resolve_command(words(&["date", "+%H"]), None, None, None), Ok(words(&["date", "+%H"])));
    let error = config_error("If command is set, interpreter, script, and script_path must not be");
    assert_eq!(
        resolve_command(words(&["date"]), Some("sh".to_string()), None, None),
        Err(error.clone())
    );
    assert_eq!(resolve_command(words(&["date"]), None, Some("x".to_string()), None), Err(error.clone()));
    assert_eq!(resolve_command(words(&["date"]), None, None, Some("x".to_string())), Err(error));
}

#[test]
fn an_interpreter_runs_a_script_or_a_file() {
    assert_eq!(
        resolve_command(vec![], Some("python".to_string()), None, Some("/a/b.py".to_string())),
        Ok(words(&["python", "/a/b.py"]))
    );
    assert_eq!(
        resolve_command(vec![], Some("sh".to_string()), Some("echo hi".to_string()), None),
        Ok(words(&["sh", "-c", "echo hi"]))
    );
    assert_eq!(
        resolve_command(
            vec![],
            Some("sh".to_string()),
            Some("echo hi".to_string()),
            Some("/a".to_string())
        ),
        Err(config_error("Only one of script and script_path can be set"))
    );
}

#[test]
fn without_a_command_nothing_is_specified() {
    let error = config_error("No command specified");
    assert_eq!(resolve_command(vec![], None, None, None), Err(error.clone()));
    assert_eq!(resolve_command(vec![], Some("sh".to_string()), None, None), Err(error.clone()));
    assert_eq!(resolve_command(vec![], None, Some("echo".to_string()), None), Err(error.clone()));
    assert_eq!(resolve_command(vec![], None, None, Some("/a".to_string())), Err(error.clone()));
    assert_eq!(
        resolve_command(vec![], None, Some("echo".to_string()), Some("/a".to_string())),
        Err(error)
    );
}

#[test]
fn the_first_word_is_the_program() {
    assert_eq!(
        create_command(&words(&["date", "+%H", "-u"])),
        Ok(Launch { program: "date".to_string(), args: words(&["+%H", "-u"]) })
    );
    assert_eq!(
        create_command(&words(&["date"])),
        Ok(Launch { program: "date".to_string(), args: vec![] })
    );
    assert_eq!(create_command(&vec![]), Err(Error::CommandError("Command is empty".to_string())));
}

#[test]
fn bytes_are_decoded_as_utf8() {
    assert_eq!(decode("héllo\n".as_bytes().to_vec(), "no"), Ok("héllo\n".to_string()));
    assert_eq!(decode(vec![], "no"), Ok(String::new()));
    assert_eq!(decode(vec![b'a', 0xc3], "no"), Err(Error::Msg("no".to_string())));
    assert_eq!(decode(vec![0xed, 0xa0, 0x80], "no"), Err(Error::Msg("no".to_string())));
}

#[test]
fn a_command_is_read_from_its_settings() {
    let mut config = dictionary(vec![("command", list(&["date", "+%H"])), ("other", Value::Null)]);
    let command = Command::parse(&mut config).unwrap();
    assert_eq!(command.command_list(), &words(&["date", "+%H"]));
    assert!(!command.trigger_show());
    assert_eq!(command.text_config(), default_text_config());
    assert!(!config.contains_key("command"));
    assert!(config.contains_key("other"));
}

#[test]
fn all_settings_of_a_command_are_read() {
    let mut config = dictionary(vec![
        ("interpreter", text("bash")),
        ("script", text("uptime")),
        ("trigger-show", Value::Boolean(true)),
        ("vertical-centre-align", Value::Boolean(false)),
        ("horizontal-padding", Value::Integer(3)),
    ]);
    let command = Command::parse(&mut config).unwrap();
    assert_eq!(command.command_list(), &words(&["bash", "-c", "uptime"]));
    assert!(command.trigger_show());
    assert_eq!(
        command.text_config().draw_config,
        DrawConfig {
            vertical_centre_align: false,
            horizontal_centre_align: true,
            vertical_padding: 5,
            horizontal_padding: 3,
        }
    );
}

#[test]
fn a_command_with_wrong_settings_is_rejected() {
    let mut config = dictionary(vec![("command", text("date"))]);
    assert_eq!(
        Command::parse(&mut config).unwrap_err(),
        config_error("Failed to get 'command' field using 'into_vec'")
    );
    let mut config = dictionary(vec![("command", list(&["date"])), ("trigger-show", text("yes"))]);
    assert_eq!(
        Command::parse(&mut config).unwrap_err(),
        config_error("Failed to get 'trigger-show' field using 'as_bool'")
    );
    let mut config = dictionary(vec![("script", text("date"))]);
    assert_eq!(Command::parse(&mut config).unwrap_err(), config_error("No command specified"));
    // A wrong drawing setting is found before the command line is worked out.
    let mut config = dictionary(vec![("vertical-padding", text("much"))]);
    assert_eq!(
        Command::parse(&mut config).unwrap_err(),
        config_error("Failed to get 'vertical-padding' field using 'into_i64'")
    );
}

#[test]
fn a_pulled_command_needs_its_interval() {
    let mut config = dictionary(vec![
        ("command", list(&["date"])),
        ("interval-sec", Value::Real("1.0".to_string())),
    ]);
    let pulled = PulledCommand::parse(&mut config).unwrap();
    assert_eq!(pulled.get_interval(), "1.0");
    assert_eq!(pulled.command().command_list(), &words(&["date"]));

    let mut config = dictionary(vec![("command", list(&["date"]))]);
    assert_eq!(
        PulledCommand::parse(&mut config).unwrap_err(),
        config_error("Value 'interval-sec' does not exist")
    );
    let mut config = dictionary(vec![("command", list(&["date"])), ("interval-sec", Value::Integer(1))]);
    assert_eq!(
        PulledCommand::parse(&mut config).unwrap_err(),
        config_error("Failed to get 'interval-sec' field using 'as_f64'")
    );
}

#[test]
fn a_pulled_item_shows_what_its_command_wrote() {
    // An item with an interval of one second whose command writes "X".
    let item = PulledCommand::new(echo(false), "1.0".to_string());
    let launch = Launch { program: "echo".to_string(), args: words(&["X"]) };
    assert_eq!(item.pull(PulledEvent::Tick), Ok(PulledAction::Run(launch)));
    let published = item.pull(PulledEvent::Finished(b"X\n".to_vec())).unwrap();
    assert_eq!(published, PulledAction::Publish { text: "X\n".to_string(), show: false });
    let stored = match published {
        PulledAction::Publish { text, .. } => text,
        _ => unreachable!(),
    };
    assert_eq!(item.get_text(&stored).0, "X");
    // After the pause of one second the command is run again.
    assert_eq!(item.get_interval(), "1.0");
    assert!(matches!(item.pull(PulledEvent::Tick), Ok(PulledAction::Run(_))));
}

#[test]
fn a_pulled_item_asks_for_the_window_only_if_set_to() {
    let item = PulledCommand::new(echo(true), "1.0".to_string());
    assert_eq!(
        item.pull(PulledEvent::Finished(b"X".to_vec())),
        Ok(PulledAction::Publish { text: "X".to_string(), show: true })
    );
}

#[test]
fn a_pulled_item_ends_with_its_first_error() {
    let item = PulledCommand::new(echo(true), "1.0".to_string());
    assert_eq!(
        item.pull(PulledEvent::Failed),
        Err(Error::Msg("Failed to execute command".to_string()))
    );
    assert_eq!(
        item.pull(PulledEvent::Finished(vec![0xff])),
        Err(Error::Msg("Failed to decode bytes into utf8 string".to_string()))
    );
    let empty = PulledCommand::new(Command::new(vec![], false, default_text_config()), "1.0".to_string());
    assert_eq!(
        empty.pull(PulledEvent::Tick),
        Err(Error::CommandError("Command is empty".to_string()))
    );
}

#[test]
fn a_pushed_item_starts_its_program_again_when_it_exits() {
    let item = echo(true);
    let launch = || Launch { program: "echo".to_string(), args: words(&["X"]) };
    assert_eq!(item.start(PushedEvent::Start), Ok(PushedAction::Spawn(launch())));
    assert_eq!(
        item.start(PushedEvent::Line("one".to_string())),
        Ok(PushedAction::Publish { text: "one".to_string(), show: true })
    );
    assert_eq!(item.start(PushedEvent::Closed), Ok(PushedAction::Spawn(launch())));
    assert_eq!(item.start(PushedEvent::Closed), Ok(PushedAction::Spawn(launch())));
}

#[test]
fn a_pushed_item_ends_when_its_program_cannot_be_started_or_read() {
    let item = echo(false);
    assert_eq!(
        item.start(PushedEvent::SpawnFailed),
        Err(Error::Msg("Failed to start command".to_string()))
    );
    assert_eq!(item.start(PushedEvent::ReadFailed), Err(Error::Msg("Failed to read line".to_string())));
    let empty = Command::new(vec![], false, default_text_config());
    assert_eq!(
        empty.start(PushedEvent::Start),
        Err(Error::CommandError("Command is empty".to_string()))
    );
    assert_eq!(
        empty.start(PushedEvent::Closed),
        Err(Error::CommandError("Command is empty".to_string()))
    );
}

#[test]
fn the_text_of_an_item_is_trimmed() {
    let item = echo(false);
    assert_eq!(item.get_text("  12:30 \n"), ("12:30".to_string(), default_text_config()));
    assert_eq!(item.get_text("").0, "");
    assert_eq!(item.get_text("\n\n").0, "");
    assert_eq!(Item::Pushed(echo(false)).get_text(" a\n").0, "a");
    assert_eq!(Item::Pulled(PulledCommand::new(echo(false), "2.0".to_string())).get_text(" b ").0, "b");
}

#[test]
fn items_are_read_in_their_order() {
    let mut config = dictionary(vec![
        (
            "items",
            Value::Array(vec![
                hash(vec![
                    ("name", text("pulled-command")),
                    ("command", list(&["date"])),
                    ("interval-sec", Value::Real("0.5".to_string())),
                ]),
                hash(vec![
                    ("name", text("pushed-command")),
                    ("interpreter", text("sh")),
                    ("script-path", text("/bin/feed")),
                    ("trigger-show", Value::Boolean(true)),
                ]),
            ]),
        ),
        ("grid-width", Value::Integer(3)),
    ]);
    let items = parse_items(&mut config).unwrap();
    assert_eq!(
        items,
        vec![
            Item::Pulled(PulledCommand::new(
                Command::new(words(&["date"]), false, default_text_config()),
                "0.5".to_string()
            )),
            Item::Pushed(Command::new(words(&["sh", "/bin/feed"]), true, default_text_config())),
        ]
    );
    assert!(!config.contains_key("items"));
    assert!(config.contains_key("grid-width"));
}

#[test]
fn no_items_are_no_error() {
    assert_eq!(parse_items(&mut Config::new()), Ok(vec![]));
    assert_eq!(parse_items(&mut dictionary(vec![("items", Value::Array(vec![]))])), Ok(vec![]));
}

#[test]
fn wrong_items_are_rejected() {
    let mut config = dictionary(vec![("items", text("none"))]);
    assert_eq!(
        parse_items(&mut config),
        Err(config_error("Failed to get 'items' field using 'into_vec'"))
    );
    let mut config = dictionary(vec![("items", Value::Array(vec![text("date")]))]);
    assert_eq!(
        parse_items(&mut config),
        Err(config_error("Failed to get 'items' field using 'get_fn'"))
    );
    let mut config = dictionary(vec![("items", Value::Array(vec![hash(vec![("command", list(&["date"]))])]))]);
    assert_eq!(parse_items(&mut config), Err(config_error("Value 'name' does not exist")));
    let mut config = dictionary(vec![(
        "items",
        Value::Array(vec![hash(vec![("name", text("clock")), ("command", list(&["date"]))])]),
    )]);
    assert_eq!(parse_items(&mut config), Err(config_error("Unrecognized name: clock")));
    let mut config = dictionary(vec![(
        "items",
        Value::Array(vec![hash(vec![("name", Value::Integer(1))])]),
    )]);
    assert_eq!(
        parse_items(&mut config),
        Err(config_error("Failed to get 'name' field using 'into_string'"))
    );
}

#[test]
fn every_entry_must_be_a_dictionary_before_any_is_read() {
    // The first entry has an unknown name, the second a name that is no
    // text: the second is found first.
    let mut config = dictionary(vec![(
        "items",
        Value::Array(vec![
            hash(vec![("name", text("clock"))]),
            Value::Hash(vec![(Value::Integer(1), Value::Null)]),
        ]),
    )]);
    assert_eq!(parse_items(&mut config), Err(config_error("Found non-string key in yaml")));
}

#[test]
fn the_first_wrong_item_is_the_error() {
    let mut config = dictionary(vec![(
        "items",
        Value::Array(vec![
            hash(vec![("name", text("pushed-command")), ("command", list(&["a"]))]),
            hash(vec![("name", text("pushed-command"))]),
            hash(vec![("name", text("clock"))]),
        ]),
    )]);
    assert_eq!(parse_items(&mut config), Err(config_error("No command specified")));
}

#[test]
fn a_scheduled_command_always_asks_for_the_window() {
    let item = ScheduledCommand::new(words(&["echo", "X"]), "1.0".to_string());
    assert_eq!(item.command_list(), &words(&["echo", "X"]));
    assert_eq!(item.get_interval(), "1.0");
    assert_eq!(
        item.start(PulledEvent::Tick),
        Ok(PulledAction::Run(Launch { program: "echo".to_string(), args: words(&["X"]) }))
    );
    assert_eq!(
        item.start(PulledEvent::Finished(b"X\n".to_vec())),
        Ok(PulledAction::Publish { text: "X\n".to_string(), show: true })
    );
    assert_eq!(item.start(PulledEvent::Failed), Err(Error::Msg("Failed to execute command".to_string())));
    assert_eq!(item.get_text("X\n"), "X\n");
}

#[test]
fn a_scheduled_command_is_read_from_its_settings() {
    let mut config = dictionary(vec![
        ("interpreter", text("sh")),
        ("script", text("date")),
        ("interval-sec", Value::Real("30.0".to_string())),
    ]);
    let item = ScheduledCommand::parse(&mut config).unwrap();
    assert_eq!(item.command_list(), &words(&["sh", "-c", "date"]));
    assert_eq!(item.get_interval(), "30.0");

    let mut config = dictionary(vec![("command", list(&["date"]))]);
    assert_eq!(
        ScheduledCommand::parse(&mut config).unwrap_err(),
        config_error("Value 'interval-sec' does not exist")
    );
    let mut config = dictionary(vec![("interval-sec", Value::Real("1.0".to_string()))]);
    assert_eq!(ScheduledCommand::parse(&mut config).unwrap_err(), config_error("No command specified"));
    let mut config = dictionary(vec![("command", list(&["date"])), ("interval-sec", text("1"))]);
    assert_eq!(
        ScheduledCommand::parse(&mut config).unwrap_err(),
        config_error("Failed to get 'interval-sec' field using 'into_f64'")
    );
}
