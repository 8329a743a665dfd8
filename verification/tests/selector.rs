use rost_sessionizer::candidate::{Candidate, Kind};
use rost_sessionizer::registry::Registry;
use rost_sessionizer::selector::{
    render, render_line, resolve, select_via_fzf, selector_args, Selection,
};
use rost_sessionizer::text::{is_whitespace, trim};

fn live(name: &str) -> Candidate {
    Candidate::live(name.to_string())
}

fn dir(name: &str, path: &str) -> Candidate {
    Candidate::located(name.to_string(), Kind::Directory, path.to_string())
}

fn offered() -> Registry {
    Registry::build(
        "Default",
        &vec!["work".to_string()],
        vec![dir("proj", "/r/proj"), dir("base/feature", "/r/base/feature")],
    )
}

#[test]
fn empty_answer_is_a_cancellation() {
    assert_eq!(select_via_fzf(&offered(), ""), Selection::Cancelled);
}

#[test]
fn answer_of_white_space_only_is_a_cancellation() {
    assert_eq!(select_via_fzf(&offered(), "\n"), Selection::Cancelled);
    assert_eq!(select_via_fzf(&offered(), " \t\r\n"), Selection::Cancelled);
}

#[test]
fn answer_is_trimmed_and_looked_up_by_exact_name() {
    assert_eq!(select_via_fzf(&offered(), "proj\n"), Selection::Chosen(dir("proj", "/r/proj")));
    assert_eq!(select_via_fzf(&offered(), "  work \r\n"), Selection::Chosen(live("work")));
    assert_eq!(
        select_via_fzf(&offered(), "base/feature"),
        Selection::Chosen(dir("base/feature", "/r/base/feature"))
    );
    assert_eq!(select_via_fzf(&offered(), "Default\n"), Selection::Chosen(live("Default")));
}

#[test]
fn answer_that_was_not_offered_is_told_apart_from_cancellation() {
    assert_eq!(
        select_via_fzf(&offered(), "pro\n"),
        Selection::NotOffered { text: "pro".to_string() }
    );
    assert_eq!(
        select_via_fzf(&offered(), "PROJ"),
        Selection::NotOffered { text: "PROJ".to_string() }
    );
    assert_eq!(
        select_via_fzf(&offered(), "\x1b[1mwork\x1b[0m\n"),
        Selection::NotOffered { text: "\x1b[1mwork\x1b[0m".to_string() }
    );
}

#[test]
fn resolve_takes_the_answer_as_it_is() {
    assert_eq!(resolve(&offered(), ""), Selection::Cancelled);
    assert_eq!(resolve(&offered(), "proj"), Selection::Chosen(dir("proj", "/r/proj")));
    assert_eq!(
        resolve(&offered(), "proj\n"),
        Selection::NotOffered { text: "proj\n".to_string() }
    );
    assert_eq!(resolve(&offered(), " "), Selection::NotOffered { text: " ".to_string() });
}

#[test]
fn live_sessions_are_rendered_in_bold() {
    assert_eq!(render_line(&live("work")), "\x1b[1mwork\x1b[0m");
    assert_eq!(render_line(&dir("proj", "/r/proj")), "proj");
}

#[test]
fn render_writes_one_line_for_each_candidate() {
    assert_eq!(render(&vec![]), "");
    assert_eq!(
        render(&vec![live("Default"), live("work"), dir("a", "/a"), dir("b c", "/b c")]),
        "\x1b[1mDefault\x1b[0m\n\x1b[1mwork\x1b[0m\na\nb c\n"
    );
}

#[test]
fn rendered_text_follows_the_display_order() {
    let text = render(&offered().ordered("Default"));
    assert_eq!(text, "\x1b[1mDefault\x1b[0m\n\x1b[1mwork\x1b[0m\nbase/feature\nproj\n");
}

#[test]
fn selector_is_started_with_fixed_flags() {
    assert_eq!(selector_args(), vec!["--margin=5%", "--padding=2%", "--border", "--ansi"]);
}

#[test]
fn trim_removes_white_space_at_both_ends_only() {
    assert_eq!(trim(""), "");
    assert_eq!(trim("   "), "");
    assert_eq!(trim("a"), "a");
    assert_eq!(trim(" a b \n"), "a b");
    assert_eq!(trim("\t\r\n x"), "x");
    assert_eq!(trim("x\u{3000}\u{a0}"), "x");
    assert_eq!(trim("\u{2003}é日\u{85}"), "é日");
    assert_eq!(trim("\u{200b}x"), "\u{200b}x");
}

#[test]
fn trim_agrees_with_the_standard_library() {
    for s in ["", " ", "a", " a", "a ", "\n\na b\t", "\u{1680}x\u{2028}", "\u{180e}y\u{feff}"] {
        assert_eq!(trim(s), s.trim());
    }
}

#[test]
fn white_space_is_what_unicode_says() {
    for u in 0u32..=0x10ffff {
        if let Some(c) = char::from_u32(u) {
            assert_eq!(is_whitespace(c), c.is_whitespace(), "U+{:04X}", u);
        }
    }
    assert!(is_whitespace(' '));
    assert!(is_whitespace('\n'));
    assert!(is_whitespace('\u{3000}'));
    assert!(!is_whitespace('a'));
    assert!(!is_whitespace('\u{feff}'));
}
