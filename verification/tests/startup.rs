use rost_sessionizer::commands::startup::{
    create_default_session, startup, startup_inside, Startup, StartupError,
};
use rost_sessionizer::config::{default_session, paths, Config, ConfigError, DEFAULT_SESSION};
use rost_sessionizer::mux::MuxCommand;
use rost_sessionizer::text::split_at_char;

fn s(text: &str) -> String {
    text.to_string()
}

fn creation() -> Vec<MuxCommand> {
    vec![
        MuxCommand::NewSession { name: s("Default"), path: s("/home/u") },
        MuxCommand::NewWindow { name: s("Default"), index: 2, path: s("/home/u") },
    ]
}

#[test]
fn outside_the_multiplexer_the_default_session_is_created_and_attached() {
    let mut commands = creation();
    commands.push(MuxCommand::AttachSession { name: s("Default"), index: 1 });
    assert_eq!(startup("Default", None, Some("/home/u")), Ok(Startup::Run { commands: commands.clone() }));
    assert_eq!(startup("Default", Some(""), Some("/home/u")), Ok(Startup::Run { commands }));
}

#[test]
fn inside_the_multiplexer_the_default_session_is_asked_after() {
    let ask = Startup::Ask { query: MuxCommand::HasSession { name: s("Default") } };
    assert_eq!(startup("Default", Some("/tmp/tmux-1000/default,1,0"), Some("/home/u")), Ok(ask));
    let ask = Startup::Ask { query: MuxCommand::HasSession { name: s("Main") } };
    assert_eq!(startup("Main", Some("x"), None), Ok(ask));
}

#[test]
fn running_default_session_is_only_announced() {
    assert_eq!(
        startup_inside("Default", true, None),
        Ok(vec![MuxCommand::DisplayMessage {
            text: s("The default session 'Default' is already running")
        }])
    );
}

#[test]
fn missing_default_session_is_created_and_switched_to() {
    let mut commands = creation();
    commands.push(MuxCommand::SwitchClient { name: s("Default"), index: 1 });
    assert_eq!(startup_inside("Default", false, Some("/home/u")), Ok(commands));
}

#[test]
fn creation_needs_a_home_directory() {
    assert_eq!(startup("Default", None, None), Err(StartupError::MissingHome));
    assert_eq!(startup_inside("Default", false, None), Err(StartupError::MissingHome));
    assert_eq!(create_default_session("Default", None), Err(StartupError::MissingHome));
    assert_eq!(create_default_session("Default", Some("/home/u")), Ok(creation()));
}

#[test]
fn default_session_name_falls_back_to_the_fixed_one() {
    assert_eq!(DEFAULT_SESSION, "Default");
    assert_eq!(default_session(None), "Default");
    assert_eq!(default_session(Some("Main")), "Main");
    assert_eq!(default_session(Some("")), "");
}

#[test]
fn roots_are_the_pieces_between_colons() {
    assert_eq!(paths(Some("/a:/b/c:/d")), Ok(vec![s("/a"), s("/b/c"), s("/d")]));
    assert_eq!(paths(Some("/only")), Ok(vec![s("/only")]));
    assert_eq!(paths(Some("")), Ok(vec![s("")]));
    assert_eq!(paths(Some(":/a::")), Ok(vec![s(""), s("/a"), s(""), s("")]));
}

#[test]
fn missing_roots_are_an_error() {
    assert_eq!(paths(None), Err(ConfigError::MissingPaths));
    assert_eq!(Config::load(Some("Main"), None), Err(ConfigError::MissingPaths));
}

#[test]
fn configuration_is_loaded_once() {
    assert_eq!(
        Config::load(None, Some("/r:/s")),
        Ok(Config { default_session: s("Default"), roots: vec![s("/r"), s("/s")] })
    );
    assert_eq!(
        Config::load(Some("Main"), Some("/r")),
        Ok(Config { default_session: s("Main"), roots: vec![s("/r")] })
    );
}

#[test]
fn pieces_agree_with_the_standard_library() {
    for text in ["", ":", "a", "a:b", "::a:", "日:本"] {
        let expected: Vec<String> = text.split(':').map(|p| p.to_string()).collect();
        assert_eq!(split_at_char(text, ':'), expected, "{:?}", text);
    }
    assert_eq!(split_at_char("a,b", ','), vec!["a", "b"]);
}

#[test]
fn configuration_and_commands_are_copied_whole() {
    let config = Config { default_session: s("Main"), roots: vec![s("/r"), s(""), s("/s")] };
    assert_eq!(config.clone(), config);
    for command in [
        MuxCommand::ListSessions,
        MuxCommand::HasSession { name: s("n") },
        MuxCommand::NewSession { name: s("n"), path: s("/p") },
        MuxCommand::NewWindow { name: s("n"), index: 2, path: s("/p") },
        MuxCommand::RenameWindow { name: s("n"), index: 1, label: s("L") },
        MuxCommand::SwitchClient { name: s("n"), index: 1 },
        MuxCommand::AttachSession { name: s("n"), index: 1 },
        MuxCommand::KillSession { name: s("n") },
        MuxCommand::DisplayMessage { text: s("t") },
        MuxCommand::SendKeys { name: s("n"), index: 1, keys: s("k") },
    ] {
        assert_eq!(command.clone(), command);
    }
}
