use rost_sessionizer::candidate::{Candidate, Kind};
use rost_sessionizer::materializer::{
    create_tmux_session, materialize, MaterializeError, EDITOR_KEYS, EDITOR_LABEL, SHELL_LABEL,
};
use rost_sessionizer::mux::{target_text, MuxCommand};
use rost_sessionizer::text::decimal_text;
use rost_sessionizer::utils::{
    tmux_display_message, tmux_has_session, tmux_kill_session, tmux_switch_client,
};

fn s(text: &str) -> String {
    text.to_string()
}

fn chosen() -> Candidate {
    Candidate::located(s("base/feature"), Kind::Worktree, s("/r/base/feature"))
}

#[test]
fn new_session_is_created_in_order() {
    let commands = materialize(&chosen(), false).unwrap();
    assert_eq!(
        commands,
        vec![
            MuxCommand::NewSession { name: s("base/feature"), path: s("/r/base/feature") },
            MuxCommand::RenameWindow { name: s("base/feature"), index: 1, label: s("Neovim") },
            MuxCommand::NewWindow { name: s("base/feature"), index: 2, path: s("/r/base/feature") },
            MuxCommand::RenameWindow { name: s("base/feature"), index: 2, label: s("Bash") },
            MuxCommand::SwitchClient { name: s("base/feature"), index: 1 },
            MuxCommand::SendKeys { name: s("base/feature"), index: 1, keys: s("v") },
        ]
    );
    assert_eq!(create_tmux_session(&chosen()).unwrap(), commands);
}

#[test]
fn creation_is_spelt_as_the_protocol_says() {
    let spelt: Vec<Vec<String>> =
        create_tmux_session(&chosen()).unwrap().iter().map(|c| c.args()).collect();
    assert_eq!(
        spelt,
        vec![
            vec!["new-session", "-ds", "base/feature", "-c", "/r/base/feature"],
            vec!["rename-window", "-t", "base/feature:1", "Neovim"],
            vec!["new-window", "-t", "base/feature:2", "-c", "/r/base/feature"],
            vec!["rename-window", "-t", "base/feature:2", "Bash"],
            vec!["switch-client", "-t", "base/feature:1"],
            vec!["send-keys", "-t", "base/feature:1", "v", "Enter"],
        ]
    );
}

#[test]
fn running_session_is_only_switched_to() {
    assert_eq!(
        materialize(&chosen(), true).unwrap(),
        vec![MuxCommand::SwitchClient { name: s("base/feature"), index: 1 }]
    );
    assert_eq!(
        materialize(&Candidate::live(s("work")), true).unwrap(),
        vec![MuxCommand::SwitchClient { name: s("work"), index: 1 }]
    );
}

#[test]
fn session_without_a_path_cannot_be_created() {
    assert_eq!(
        materialize(&Candidate::live(s("Default")), false),
        Err(MaterializeError::MissingPath { name: s("Default") })
    );
    assert_eq!(
        create_tmux_session(&Candidate::live(s("x"))),
        Err(MaterializeError::MissingPath { name: s("x") })
    );
}

#[test]
fn labels_are_fixed() {
    assert_eq!(EDITOR_LABEL, "Neovim");
    assert_eq!(SHELL_LABEL, "Bash");
    assert_eq!(EDITOR_KEYS, "v");
}

#[test]
fn every_command_has_its_spelling() {
    assert_eq!(MuxCommand::ListSessions.args(), vec!["ls"]);
    assert_eq!(MuxCommand::HasSession { name: s("a b") }.args(), vec!["has-session", "-t", "a b"]);
    assert_eq!(
        MuxCommand::NewSession { name: s("n"), path: s("/p q") }.args(),
        vec!["new-session", "-ds", "n", "-c", "/p q"]
    );
    assert_eq!(
        MuxCommand::NewWindow { name: s("n"), index: 12, path: s("/p") }.args(),
        vec!["new-window", "-t", "n:12", "-c", "/p"]
    );
    assert_eq!(
        MuxCommand::RenameWindow { name: s("n"), index: 0, label: s("L") }.args(),
        vec!["rename-window", "-t", "n:0", "L"]
    );
    assert_eq!(
        MuxCommand::SwitchClient { name: s("n"), index: 3 }.args(),
        vec!["switch-client", "-t", "n:3"]
    );
    assert_eq!(
        MuxCommand::AttachSession { name: s("n"), index: 1 }.args(),
        vec!["attach-session", "-t", "n:1"]
    );
    assert_eq!(MuxCommand::KillSession { name: s("n") }.args(), vec!["kill-session", "-t", "n"]);
    assert_eq!(
        MuxCommand::DisplayMessage { text: s("hello there") }.args(),
        vec!["display-message", "hello there"]
    );
    assert_eq!(
        MuxCommand::SendKeys { name: s("n"), index: 2, keys: s("ls -l") }.args(),
        vec!["send-keys", "-t", "n:2", "ls -l", "Enter"]
    );
}

#[test]
fn command_constructors_address_one_session() {
    assert_eq!(
        tmux_switch_client("work", None),
        MuxCommand::SwitchClient { name: s("work"), index: 1 }
    );
    assert_eq!(
        tmux_switch_client("work", Some(4)),
        MuxCommand::SwitchClient { name: s("work"), index: 4 }
    );
    assert_eq!(tmux_kill_session("work"), MuxCommand::KillSession { name: s("work") });
    assert_eq!(tmux_display_message("hi"), MuxCommand::DisplayMessage { text: s("hi") });
    assert_eq!(tmux_has_session("work"), MuxCommand::HasSession { name: s("work") });
}

#[test]
fn window_target_is_name_colon_index() {
    assert_eq!(target_text(&s("proj"), 1), "proj:1");
    assert_eq!(target_text(&s(""), 0), ":0");
    assert_eq!(target_text(&s("a:b"), 120), "a:b:120");
}

#[test]
fn numbers_are_written_in_decimal() {
    assert_eq!(decimal_text(0), "0");
    assert_eq!(decimal_text(7), "7");
    assert_eq!(decimal_text(10), "10");
    assert_eq!(decimal_text(109), "109");
    assert_eq!(decimal_text(1234567890), "1234567890");
    assert_eq!(decimal_text(usize::MAX), usize::MAX.to_string());
}
