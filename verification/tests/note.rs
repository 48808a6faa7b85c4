//! Notes: file names, scopes, and which part a press is on.

use vellum_app::note::{file_name, hit, scope_label, NotePart, NoteScope};

#[test]
fn a_file_name_survives_any_path() {
    assert_eq!(file_name(".velm/notes/plan.md"), "plan.md");
    assert_eq!(file_name("plan.md"), "plan.md");
    assert_eq!(file_name(""), "");
    // Non-ASCII, and a trailing separator, neither of which may panic.
    assert_eq!(file_name("notes/計画.md"), "計画.md");
    assert_eq!(file_name("notes/"), "");
}

#[test]
fn a_backslash_is_a_separator_too() {
    assert_eq!(file_name("notes\\plan.md"), "plan.md");
    assert_eq!(file_name("a/b\\c/d\\e"), "e");
    assert_eq!(file_name("a\\b/c"), "c");
}

#[test]
fn the_scope_chip_says_which_scope_it_is() {
    assert_eq!(scope_label(&NoteScope::Shared), "Shared");
    assert_eq!(scope_label(&NoteScope::Private { agent: "1@2".into() }), "Private");
}

#[test]
fn the_footer_is_asked_before_the_body() {
    assert_eq!(hit(false, true, true, true), Some(NotePart::Title));
    assert_eq!(hit(false, false, true, true), Some(NotePart::Footer));
    assert_eq!(hit(false, false, false, true), Some(NotePart::Body));
    assert_eq!(hit(false, false, false, false), None);
    assert_eq!(hit(true, true, true, true), None);
}
