use rost_sessionizer::candidate::{Candidate, Kind};
use rost_sessionizer::registry::{is_shown_before, rank_of, Registry};
use rost_sessionizer::selector::render;
use rost_sessionizer::order::precedes;

fn live(name: &str) -> Candidate {
    Candidate { name: name.to_string(), kind: Kind::LiveSession, path: None }
}

fn repo(name: &str, path: &str) -> Candidate {
    Candidate { name: name.to_string(), kind: Kind::Repository, path: Some(path.to_string()) }
}

fn names(cs: &[Candidate]) -> Vec<String> {
    cs.iter().map(|c| c.name.clone()).collect()
}

#[test]
fn live_session_shadows_a_found_directory() {
    let sessions = vec!["Default".to_string(), "proj".to_string()];
    let registry = Registry::build("Default", &sessions, vec![repo("proj", "/r/proj")]);
    assert_eq!(registry.len(), 2);
    let shown = registry.ordered("Default");
    assert_eq!(shown, vec![live("Default"), live("proj")]);
    assert_eq!(render(&shown), "\x1b[1mDefault\x1b[0m\n\x1b[1mproj\x1b[0m\n");
}

#[test]
fn new_registry_is_empty() {
    let registry = Registry::new();
    assert_eq!(registry.len(), 0);
    assert!(registry.entries().is_empty());
    assert!(!registry.contains("Default"));
    assert_eq!(registry.get("Default"), None);
    assert_eq!(registry.ordered("Default"), vec![]);
}

#[test]
fn insert_keeps_the_first_entry_of_a_name() {
    let mut registry = Registry::new();
    assert!(registry.insert(live("proj")));
    assert!(!registry.insert(repo("proj", "/r/proj")));
    assert!(registry.insert(repo("other", "/r/other")));
    assert!(!registry.insert(live("other")));
    assert_eq!(registry.entries(), &vec![live("proj"), repo("other", "/r/other")]);
    assert_eq!(registry.get("proj"), Some(&live("proj")));
    assert_eq!(registry.get("other"), Some(&repo("other", "/r/other")));
    assert_eq!(registry.get("pro"), None);
    assert!(registry.contains("other"));
    assert!(!registry.contains("Other"));
}

#[test]
fn merge_is_first_write_wins_within_the_merged_candidates() {
    let mut registry = Registry::new();
    registry.merge(vec![repo("a", "/1/a"), repo("b", "/1/b"), repo("a", "/2/a")]);
    assert_eq!(registry.entries(), &vec![repo("a", "/1/a"), repo("b", "/1/b")]);
}

#[test]
fn merging_the_same_candidates_twice_changes_nothing() {
    let found = || vec![repo("a", "/r/a"), repo("b", "/r/b"), repo("proj", "/r/proj")];
    let mut registry = Registry::build("Default", &vec!["proj".to_string()], vec![]);
    registry.merge(found());
    let once: Vec<Candidate> = registry.entries().clone();
    registry.merge(found());
    assert_eq!(registry.entries(), &once);
    assert_eq!(
        once,
        vec![live("Default"), live("proj"), repo("a", "/r/a"), repo("b", "/r/b")]
    );
    let mut seen = names(&once);
    seen.sort();
    seen.dedup();
    assert_eq!(seen.len(), once.len());
}

#[test]
fn build_inserts_the_default_session_even_if_it_does_not_run() {
    let registry = Registry::build("Default", &vec![], vec![]);
    assert_eq!(registry.entries(), &vec![live("Default")]);
    let registry = Registry::build("Main", &vec!["x".to_string(), "Main".to_string()], vec![]);
    assert_eq!(registry.entries(), &vec![live("Main"), live("x")]);
}

#[test]
fn found_directory_named_like_the_default_stays_out() {
    let registry = Registry::build("Default", &vec![], vec![repo("Default", "/r/Default")]);
    assert_eq!(registry.entries(), &vec![live("Default")]);
    assert_eq!(registry.get("Default").unwrap().path, None);
}

#[test]
fn default_session_is_shown_first_wherever_its_name_sorts() {
    let sessions = vec!["aaa".to_string(), "Zed".to_string(), "zzz".to_string()];
    let registry = Registry::build("mmm", &sessions, vec![repo("AAA", "/r/AAA"), repo("0", "/r/0")]);
    let shown = registry.ordered("mmm");
    assert_eq!(names(&shown), vec!["mmm", "Zed", "aaa", "zzz", "0", "AAA"]);
}

#[test]
fn default_session_is_shown_first_even_with_a_path() {
    let mut registry = Registry::new();
    registry.merge(vec![repo("b", "/r/b"), live("z"), repo("home", "/home/u"), live("a")]);
    let shown = registry.ordered("home");
    assert_eq!(names(&shown), vec!["home", "a", "z", "b"]);
    assert_eq!(shown[0], repo("home", "/home/u"));
}

#[test]
fn display_order_is_bytewise_within_each_group() {
    let mut registry = Registry::new();
    registry.merge(vec![
        repo("b", "/b"),
        repo("B", "/B"),
        repo("é", "/e"),
        repo("a/b", "/a/b"),
        repo("a", "/a"),
        repo("ab", "/ab"),
        repo("a-b", "/a-b"),
        live("s2"),
        live("s10"),
        live("S"),
    ]);
    let shown = registry.ordered("Default");
    assert_eq!(
        names(&shown),
        vec!["S", "s10", "s2", "B", "a", "a-b", "a/b", "ab", "b", "é"]
    );
    let mut expected_paths = names(&shown[3..]);
    expected_paths.sort_by(|x, y| x.as_bytes().cmp(y.as_bytes()));
    assert_eq!(names(&shown[3..]), expected_paths);
}

#[test]
fn display_order_does_not_depend_on_insertion_order() {
    let items = vec![repo("c", "/c"), live("b"), repo("a", "/a"), live("Default"), live("d")];
    let mut forward = Registry::new();
    forward.merge(items.clone());
    let mut backward = Registry::new();
    backward.merge(items.into_iter().rev().collect());
    assert_eq!(forward.ordered("Default"), backward.ordered("Default"));
    assert_eq!(names(&forward.ordered("Default")), vec!["Default", "b", "d", "a", "c"]);
}

#[test]
fn ordering_keeps_every_entry_once() {
    let mut registry = Registry::new();
    registry.merge(vec![repo("c", "/c"), live("b"), repo("a", "/a")]);
    let shown = registry.ordered("none");
    assert_eq!(shown.len(), registry.len());
    for c in registry.entries() {
        assert_eq!(shown.iter().filter(|s| *s == c).count(), 1);
    }
}

#[test]
fn rank_puts_default_then_pathless_then_located() {
    assert_eq!(rank_of(&live("Default"), "Default"), 0);
    assert_eq!(rank_of(&repo("Default", "/d"), "Default"), 0);
    assert_eq!(rank_of(&live("x"), "Default"), 1);
    assert_eq!(rank_of(&repo("x", "/x"), "Default"), 2);
    assert!(is_shown_before(&live("z"), &repo("a", "/a"), "Default"));
    assert!(!is_shown_before(&repo("a", "/a"), &live("z"), "Default"));
    assert!(is_shown_before(&repo("z", "/z"), &live("a"), "z"));
    assert!(!is_shown_before(&live("a"), &live("a"), "Default"));
}

#[test]
fn names_compare_byte_by_byte() {
    assert!(precedes("", "a"));
    assert!(!precedes("a", ""));
    assert!(!precedes("", ""));
    assert!(precedes("a", "ab"));
    assert!(!precedes("ab", "a"));
    assert!(precedes("Z", "a"));
    assert!(precedes("a", "b"));
    assert!(!precedes("b", "a"));
    assert!(!precedes("same", "same"));
    assert!(precedes("z", "é"));
    assert!(precedes("é", "日"));
    assert!(precedes("abc", "abd"));
    assert!(precedes("ab/", "abc"));
}
