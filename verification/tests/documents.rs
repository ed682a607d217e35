use hermito::buffer::{Buffer, StaleRevision};
use hermito::document::{
    BufferPathState, DocumentId, DocumentRevision, Language, Selection, WorkspaceEpoch,
};
use hermito::edit::TextEdit;
use hermito::path::{extension, file_name, is_absolute, is_below, join, same_path, strip_root};
use hermito::protocol::lsp::AuthorityIdentity;
use hermito::protocol::request::{EnvironmentEpoch, ExecutionContextV1};
use hermito::words::{
    contains_text, decimal_text, eq_ignoring_case, parse_size, signed_text, split_lines,
    split_words, starts_with, trim,
};

fn buffer(text: &str) -> Buffer {
    Buffer::new(DocumentId(7), Language::Rust, text)
}

fn edit(b: &mut Buffer, e: TextEdit) -> DocumentRevision {
    let revision = b.revision();
    b.apply_edit(revision, e, WorkspaceEpoch(1)).unwrap().0
}

#[test]
fn edits_replace_a_range_and_advance_the_revision() {
    let mut b = buffer("hello world");
    assert!(!b.is_dirty());
    let (revision, payload) = b
        .apply_edit(
            DocumentRevision(0),
            TextEdit::replace(6..11, "there".to_owned()),
            WorkspaceEpoch(4),
        )
        .unwrap();
    assert_eq!(revision, DocumentRevision(1));
    assert_eq!(b.text(), "hello there");
    assert!(b.is_dirty());
    assert_eq!(payload.content, "hello there");
    assert_eq!(payload.revision, DocumentRevision(1));
    assert_eq!(payload.epoch, WorkspaceEpoch(4));
    assert_eq!(payload.doc_id, DocumentId(7));
    assert_eq!(payload.language, Language::Rust);
    assert_eq!(payload.path, None);
}

#[test]
fn edits_of_another_revision_are_refused() {
    let mut b = buffer("x");
    let r = b.apply_edit(
        DocumentRevision(3),
        TextEdit::insert(0, "y".to_owned()),
        WorkspaceEpoch(1),
    );
    assert_eq!(r.err(), Some(StaleRevision));
    assert_eq!(b.text(), "x");
    assert_eq!(b.revision(), DocumentRevision(0));
}

#[test]
fn offsets_inside_a_character_go_back_and_those_past_the_end_are_cut() {
    let mut b = buffer("é!");
    edit(&mut b, TextEdit::insert(1, "a".to_owned()));
    assert_eq!(b.text(), "aé!");
    edit(&mut b, TextEdit::delete(99..200));
    assert_eq!(b.text(), "aé!");
    edit(&mut b, TextEdit::insert(99, "z".to_owned()));
    assert_eq!(b.text(), "aé!z");
}

#[test]
fn deleting_what_was_inserted_restores_the_text() {
    let mut b = buffer("ab文cd");
    edit(&mut b, TextEdit::insert(2, "xy".to_owned()));
    assert_eq!(b.text(), "abxy文cd");
    edit(&mut b, TextEdit::delete(2..4));
    assert_eq!(b.text(), "ab文cd");
    assert_eq!(b.revision(), DocumentRevision(2));
}

#[test]
fn deltas_count_bytes() {
    assert_eq!(TextEdit::replace(2..5, "é".to_owned()).delta(), -1);
    assert_eq!(TextEdit::insert(0, "abc".to_owned()).delta(), 3);
    assert_eq!(TextEdit::delete(1..4).delta(), -3);
}

#[test]
fn texts_grow_by_the_delta_of_their_edit() {
    let mut b = buffer("ab文cd");
    let change = TextEdit::replace(2..5, "wxyz".to_owned());
    let delta = change.delta();
    edit(&mut b, change);
    assert_eq!(delta, 1);
    assert_eq!(b.text().len(), 8);
}

#[test]
fn only_the_current_revision_makes_a_buffer_clean() {
    let mut b = buffer("x");
    edit(&mut b, TextEdit::insert(0, "y".to_owned()));
    b.mark_clean(DocumentRevision(0));
    assert!(b.is_dirty());
    b.record_last_checkpoint(DocumentRevision(1));
    assert!(b.is_dirty());
    assert_eq!(b.last_checkpointed_revision(), Some(DocumentRevision(1)));
    b.mark_clean(DocumentRevision(1));
    assert!(!b.is_dirty());
}

#[test]
fn recovered_buffers_are_dirty_and_keep_their_name() {
    let b = Buffer::recover(
        DocumentId(1),
        Language::Go,
        "package x",
        DocumentRevision(9),
        BufferPathState::Recovered { original: "/w/a.go".to_owned() },
    );
    assert!(b.is_dirty());
    assert_eq!(b.revision(), DocumentRevision(9));
    assert_eq!(b.path_state().display_name(), "Recovered · a.go");
    assert_eq!(b.path().unwrap(), "/w/a.go");
}

#[test]
fn ledgers_follow_the_edits_of_a_buffer() {
    let mut b = buffer("one");
    let who = AuthorityIdentity("local".to_owned());
    let place = ExecutionContextV1::AuthorityRoot;
    assert!(b.lsp_ledger(&who, &place).is_none());
    let first = b.ensure_lsp_ledger(
        AuthorityIdentity("local".to_owned()),
        ExecutionContextV1::AuthorityRoot,
        WorkspaceEpoch(1),
        EnvironmentEpoch(2),
    );
    assert_eq!((first.sent_version, first.session_generation), (0, 0));
    edit(&mut b, TextEdit::insert(3, "!".to_owned()));
    let after = b.lsp_ledger(&who, &place).unwrap();
    assert_eq!(after.revision, DocumentRevision(1));
    assert_eq!(after.sent_version, 1);
    assert_eq!(after.text, "one!");
    let reset = b.reset_lsp_session(
        AuthorityIdentity("local".to_owned()),
        ExecutionContextV1::AuthorityRoot,
        WorkspaceEpoch(1),
        EnvironmentEpoch(2),
    );
    assert_eq!((reset.sent_version, reset.session_generation), (0, 1));
    b.bump_lsp_session_generation(&who, &place);
    assert_eq!(b.lsp_ledgers()[0].session_generation, 2);
}

#[test]
fn replacements_need_a_current_ledger() {
    let mut b = buffer("one");
    let who = AuthorityIdentity("local".to_owned());
    let place = ExecutionContextV1::AuthorityRoot;
    let refused = b.apply_lsp_workspace_replacement(
        &who,
        &place,
        DocumentRevision(0),
        WorkspaceEpoch(1),
        EnvironmentEpoch(2),
        "two",
    );
    assert_eq!(refused.err(), Some(StaleRevision));
    b.ensure_lsp_ledger(
        AuthorityIdentity("local".to_owned()),
        ExecutionContextV1::AuthorityRoot,
        WorkspaceEpoch(1),
        EnvironmentEpoch(2),
    );
    let done = b.apply_lsp_workspace_replacement(
        &who,
        &place,
        DocumentRevision(0),
        WorkspaceEpoch(1),
        EnvironmentEpoch(2),
        "two",
    );
    assert_eq!(done.ok(), Some(DocumentRevision(1)));
    assert_eq!(b.text(), "two");
}

#[test]
fn fresh_identifiers_are_random_uuids() {
    let a = DocumentId::new();
    let b = DocumentId::new();
    assert_ne!(a, b);
    assert_eq!((a.0 >> 76) & 0xf, 4);
    assert_eq!((a.0 >> 62) & 0x3, 2);
}

#[test]
fn languages_are_known_by_their_extensions() {
    assert_eq!(Language::from_path("/a/b.RS"), Language::Rust);
    assert_eq!(Language::from_path("x.tsx"), Language::TypeScript);
    assert_eq!(Language::from_path("x.mjs"), Language::JavaScript);
    assert_eq!(Language::from_path("x.go"), Language::Go);
    assert_eq!(Language::from_path("x.pyi"), Language::Python);
    assert_eq!(Language::from_path("Makefile"), Language::PlainText);
    assert_eq!(Language::Python.as_str(), "python");
}

#[test]
fn selections_are_ordered() {
    let s = Selection { anchor: 9, cursor: 4 };
    assert_eq!(s.range(), (4, 9));
    assert!(!s.is_empty());
    assert!(Selection::new(3).is_empty());
}

#[test]
fn paths_are_taken_apart_as_on_unix() {
    assert!(is_absolute("/a"));
    assert!(!is_absolute("a"));
    assert_eq!(join("/a", "b/c"), "/a/b/c");
    assert_eq!(join("/a", "/b"), "/b");
    assert!(same_path("/a//b/", "/a/b"));
    assert!(is_below("/a/b/c", "/a/b"));
    assert!(!is_below("/a/bc", "/a/b"));
    assert_eq!(strip_root("/a/b/c", "/a").as_deref(), Some("b/c"));
    assert_eq!(strip_root("/a", "/a"), None);
    assert_eq!(strip_root("/a/../b", "/a"), None);
    assert_eq!(file_name("/a/b.rs").as_deref(), Some("b.rs"));
    assert_eq!(file_name("/a/.."), None);
    assert_eq!(extension("/a/b.tar.gz").as_deref(), Some("gz"));
    assert_eq!(extension("/a/.rs"), None);
}

#[test]
fn words_lines_and_numbers_are_read() {
    assert_eq!(trim(" \u{2003}a b\t\n"), "a b");
    assert_eq!(split_words("  one\ttwo "), vec!["one", "two"]);
    assert_eq!(split_lines("a\r\nb\n"), vec!["a", "b"]);
    assert!(eq_ignoring_case("RUST", "rust"));
    assert!(!eq_ignoring_case("ÄA", "äa"));
    assert!(starts_with("SHA256:x", "SHA256:"));
    assert!(contains_text("abcd", "bc"));
    assert!(contains_text("abcd", ""));
    assert!(!contains_text("abcd", "bd"));
    assert_eq!(decimal_text(18_446_744_073_709_551_615), "18446744073709551615");
    assert_eq!(signed_text(-2_147_483_648), "-2147483648");
    assert_eq!(parse_size("0042"), Some(42));
    assert_eq!(parse_size("+7"), Some(7));
    assert_eq!(parse_size("-7"), None);
    assert_eq!(parse_size(""), None);
    assert_eq!(parse_size("99999999999999999999999"), None);
}
