use rost_sessionizer::candidate::{Candidate, Kind};
use rost_sessionizer::classifier::{ChildDir, DirEntry, RootListing, ScanError, SearchMode};
use rost_sessionizer::commands::cli::{search_mode, GitMode};
use rost_sessionizer::commands::open::{
    advance, open, open_in_mode, Action, Event, OpenError, OpenState,
};
use rost_sessionizer::text::copy_texts;
use rost_sessionizer::config::Config;
use rost_sessionizer::materializer::MaterializeError;
use rost_sessionizer::mux::MuxCommand;
use rost_sessionizer::utils::SessionError;

fn s(text: &str) -> String {
    text.to_string()
}

fn config() -> Config {
    Config { default_session: s("Default"), roots: vec![s("/r"), s("/s")] }
}

fn listings() -> Vec<RootListing> {
    vec![
        RootListing {
            path: s("/r"),
            children: vec![
                ChildDir {
                    path: s("/r/proj"),
                    is_dir: true,
                    entries: vec![DirEntry {
                        name: s(".git"),
                        path: s("/r/proj/.git"),
                        is_dir: true,
                        has_git: false,
                    }],
                },
                ChildDir {
                    path: s("/r/base"),
                    is_dir: true,
                    entries: vec![DirEntry {
                        name: s("feature"),
                        path: s("/r/base/feature"),
                        is_dir: true,
                        has_git: true,
                    }],
                },
            ],
        },
        RootListing { path: s("/s"), children: vec![] },
    ]
}

/// Runs opening up to the selection and returns the state and the text shown.
fn up_to_selection(mode: SearchMode, sessions: &str) -> (OpenState, String) {
    let (state, action) = open_in_mode(mode);
    assert_eq!(action, Action::ListSessions);
    let (state, action) = advance(state, &config(), Event::Listed { output: s(sessions) });
    assert_eq!(
        action,
        Action::Scan { roots: vec![s("/r"), s("/s")], descend: mode != SearchMode::Dirs }
    );
    let (state, action) = advance(state, &config(), Event::Scanned { roots: listings() });
    match action {
        Action::Select { text } => (state, text),
        other => panic!("unexpected action {:?}", other),
    }
}

#[test]
fn opening_begins_with_the_session_listing() {
    let (state, action) = open(true, Some(&GitMode::Worktrees));
    assert_eq!(action, Action::ListSessions);
    assert!(matches!(state, OpenState::AwaitSessions { mode: SearchMode::Worktrees }));
    let (state, _) = open(true, None);
    assert!(matches!(state, OpenState::AwaitSessions { mode: SearchMode::Repos }));
    let (state, _) = open(false, Some(&GitMode::Worktrees));
    assert!(matches!(state, OpenState::AwaitSessions { mode: SearchMode::Dirs }));
}

#[test]
fn options_choose_the_search_mode() {
    assert_eq!(search_mode(false, None), SearchMode::Dirs);
    assert_eq!(search_mode(false, Some(&GitMode::Worktrees)), SearchMode::Dirs);
    assert_eq!(search_mode(true, None), SearchMode::Repos);
    assert_eq!(search_mode(true, Some(&GitMode::Worktrees)), SearchMode::Worktrees);
}

#[test]
fn selector_is_shown_the_merged_registry_in_display_order() {
    let (state, text) =
        up_to_selection(SearchMode::Worktrees, "work: 1 windows\nproj: 2 windows (attached)\n");
    assert_eq!(
        text,
        "\x1b[1mDefault\x1b[0m\n\x1b[1mproj\x1b[0m\n\x1b[1mwork\x1b[0m\nbase/feature\n"
    );
    match state {
        OpenState::AwaitSelection { registry } => {
            assert_eq!(registry.len(), 4);
            assert_eq!(registry.get("proj"), Some(&Candidate::live(s("proj"))));
        },
        other => panic!("unexpected state {:?}", other),
    }
}

#[test]
fn plain_mode_shows_the_roots_themselves() {
    let (_, text) = up_to_selection(SearchMode::Dirs, "");
    assert_eq!(text, "\x1b[1mDefault\x1b[0m\nr\ns\n");
}

#[test]
fn all_mode_shows_roots_repositories_and_worktrees() {
    let (_, text) = up_to_selection(SearchMode::All, "");
    assert_eq!(text, "\x1b[1mDefault\x1b[0m\nbase/feature\nproj\nr\ns\n");
}

#[test]
fn chosen_directory_without_a_session_gets_one() {
    let (state, _) = up_to_selection(SearchMode::Repos, "Default: 1 windows (attached)\n");
    let (state, action) = advance(state, &config(), Event::Selected { output: s("proj\n") });
    assert_eq!(action, Action::HasSession { name: s("proj") });
    let (state, action) = advance(state, &config(), Event::Exists { running: false });
    assert!(matches!(state, OpenState::Done));
    assert_eq!(
        action,
        Action::Run {
            commands: vec![
                MuxCommand::NewSession { name: s("proj"), path: s("/r/proj") },
                MuxCommand::RenameWindow { name: s("proj"), index: 1, label: s("Neovim") },
                MuxCommand::NewWindow { name: s("proj"), index: 2, path: s("/r/proj") },
                MuxCommand::RenameWindow { name: s("proj"), index: 2, label: s("Bash") },
                MuxCommand::SwitchClient { name: s("proj"), index: 1 },
                MuxCommand::SendKeys { name: s("proj"), index: 1, keys: s("v") },
            ]
        }
    );
}

#[test]
fn running_session_is_switched_to() {
    let (state, _) = up_to_selection(SearchMode::Repos, "work: 1 windows\n");
    let (state, action) = advance(state, &config(), Event::Selected { output: s("work\n") });
    assert_eq!(action, Action::HasSession { name: s("work") });
    match &state {
        OpenState::AwaitExistence { chosen } => {
            assert_eq!(chosen, &Candidate { name: s("work"), kind: Kind::LiveSession, path: None })
        },
        other => panic!("unexpected state {:?}", other),
    }
    let (_, action) = advance(state, &config(), Event::Exists { running: true });
    assert_eq!(
        action,
        Action::Run { commands: vec![MuxCommand::SwitchClient { name: s("work"), index: 1 }] }
    );
}

#[test]
fn cancelled_selection_touches_nothing() {
    let (state, _) = up_to_selection(SearchMode::Worktrees, "work: 1 windows\n");
    let (state, action) = advance(state, &config(), Event::Selected { output: s("") });
    assert_eq!(action, Action::Cancel);
    assert!(matches!(state, OpenState::Done));
    // Whatever comes in afterwards, no command is handed out any more.
    let (state, action) = advance(state, &config(), Event::Exists { running: false });
    assert_eq!(action, Action::Fail(OpenError::Unexpected));
    assert!(matches!(state, OpenState::Done));
}

#[test]
fn answer_that_was_not_offered_fails() {
    let (state, _) = up_to_selection(SearchMode::Repos, "");
    let (state, action) = advance(state, &config(), Event::Selected { output: s("nope\n") });
    assert_eq!(action, Action::Fail(OpenError::NotOffered { text: s("nope") }));
    assert!(matches!(state, OpenState::Done));
}

#[test]
fn default_session_that_does_not_run_has_no_path() {
    let (state, _) = up_to_selection(SearchMode::Repos, "");
    let (state, _) = advance(state, &config(), Event::Selected { output: s("Default\n") });
    let (_, action) = advance(state, &config(), Event::Exists { running: false });
    assert_eq!(
        action,
        Action::Fail(OpenError::Materialize(MaterializeError::MissingPath { name: s("Default") }))
    );
}

#[test]
fn malformed_session_listing_fails() {
    let (state, _) = open_in_mode(SearchMode::Repos);
    let (state, action) =
        advance(state, &config(), Event::Listed { output: s("no server running\n") });
    assert_eq!(
        action,
        Action::Fail(OpenError::Sessions(SessionError::Malformed {
            line: s("no server running")
        }))
    );
    assert!(matches!(state, OpenState::Done));
}

#[test]
fn bad_root_fails_the_whole_scan() {
    let (state, _) = open_in_mode(SearchMode::Dirs);
    let (state, _) = advance(state, &config(), Event::Listed { output: s("") });
    let roots = vec![
        RootListing { path: s("/r"), children: vec![] },
        RootListing { path: s("/"), children: vec![] },
    ];
    let (state, action) = advance(state, &config(), Event::Scanned { roots });
    assert_eq!(action, Action::Fail(OpenError::Scan(ScanError::MissingName { path: s("/") })));
    assert!(matches!(state, OpenState::Done));
}

#[test]
fn event_that_answers_nothing_fails() {
    let (state, _) = open_in_mode(SearchMode::Repos);
    let (state, action) = advance(state, &config(), Event::Selected { output: s("proj") });
    assert_eq!(action, Action::Fail(OpenError::Unexpected));
    assert!(matches!(state, OpenState::Done));

    let (state, _) = open_in_mode(SearchMode::Repos);
    let (state, _) = advance(state, &config(), Event::Listed { output: s("") });
    let (_, action) = advance(state, &config(), Event::Exists { running: true });
    assert_eq!(action, Action::Fail(OpenError::Unexpected));

    let (state, _) = up_to_selection(SearchMode::Repos, "");
    let (_, action) = advance(state, &config(), Event::Listed { output: s("") });
    assert_eq!(action, Action::Fail(OpenError::Unexpected));

    let (_, action) = advance(OpenState::Done, &config(), Event::Listed { output: s("") });
    assert_eq!(action, Action::Fail(OpenError::Unexpected));
}

#[test]
fn texts_are_copied_in_order() {
    assert_eq!(copy_texts(&vec![]), Vec::<String>::new());
    assert_eq!(copy_texts(&vec![s("b"), s(""), s("a")]), vec!["b", "", "a"]);
}
