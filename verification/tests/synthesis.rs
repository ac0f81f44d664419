//! Edit-synthesis scenarios: prefix trimming, path completion, the path
//! token grammar, and additional-edit application.

use completion_core::candidate::{
    CompletionItem, LspItem, OffsetEncoding, PathType, TextEdit,
};
use completion_core::completion::{apply_additional_edits, Completion, PromptEvent};
use completion_core::synthesize::item_to_transaction;
use completion_core::transaction::{apply_to, Change, Transaction};

fn chars(s: &str) -> Vec<char> {
    s.chars().collect()
}

fn text(v: &Vec<char>) -> String {
    v.iter().collect()
}

fn bare_lsp_item(label: &str) -> LspItem {
    LspItem {
        label: chars(label),
        kind: None,
        filter_text: None,
        sort_text: None,
        insert_text: None,
        text_edit: None,
        additional_text_edits: None,
        documentation: None,
        detail: None,
        preselect: None,
    }
}

fn path_item(path: &str, kind: PathType) -> CompletionItem {
    CompletionItem::Path { path: chars(path), permissions: 0o644, path_type: kind }
}

#[test]
fn prefix_is_trimmed_once() {
    let doc = chars("pri");
    let mut item = bare_lsp_item("private");
    item.insert_text = Some(chars("private"));
    let it = CompletionItem::LSP {
        language_server_id: 0,
        item,
        offset_encoding: OffsetEncoding::Utf8,
    };
    let tx = item_to_transaction(&doc, 0, 3, &it).unwrap();
    let out = apply_to(&doc, &tx).unwrap();
    assert_eq!(text(&out), "private");
    assert_eq!(tx.changes.len(), 1);
    assert_eq!(tx.changes[0].start, 3);
    assert_eq!(tx.changes[0].end, 3);
    assert_eq!(text(tx.changes[0].text.as_ref().unwrap()), "vate");
}

#[test]
fn label_stands_in_for_missing_insert_text() {
    let doc = chars("pri");
    let it = CompletionItem::LSP {
        language_server_id: 0,
        item: bare_lsp_item("println!"),
        offset_encoding: OffsetEncoding::Utf8,
    };
    let tx = item_to_transaction(&doc, 0, 3, &it).unwrap();
    assert_eq!(text(tx.changes[0].text.as_ref().unwrap()), "ntln!");
}

#[test]
fn unrelated_text_is_inserted_whole() {
    let doc = chars("pri");
    let mut item = bare_lsp_item("other");
    item.insert_text = Some(chars("other"));
    let it = CompletionItem::LSP {
        language_server_id: 0,
        item,
        offset_encoding: OffsetEncoding::Utf8,
    };
    let tx = item_to_transaction(&doc, 0, 3, &it).unwrap();
    assert_eq!(text(tx.changes[0].text.as_ref().unwrap()), "other");
}

#[test]
fn path_completion_inserts_the_remainder() {
    let mut doc = chars("open ./src/ma");
    let cand = path_item("./src/main.rs", PathType::File);
    let mut c = Completion::new(&doc, vec![cand], 11, 13);
    let resp = c.on_event(&mut doc, PromptEvent::Update, false).unwrap();
    assert_eq!(text(&doc), "open ./src/main.rs");
    let a = resp.action.unwrap();
    assert_eq!(a.trigger_offset, 13);
    assert_eq!(a.changes.len(), 1);
    assert_eq!(text(a.changes[0].text.as_ref().unwrap()), "in.rs");
}

#[test]
fn path_token_scan_stays_on_the_current_line() {
    let doc = chars("./a\nopen ./src/ma");
    let cand = path_item("./src/main.rs", PathType::File);
    let tx = item_to_transaction(&doc, 15, 17, &cand).unwrap();
    assert_eq!(text(tx.changes[0].text.as_ref().unwrap()), "in.rs");
}

#[test]
fn missing_path_token_is_a_synthesis_error() {
    let mut doc = chars("open ma");
    let cand = path_item("./src/main.rs", PathType::File);
    let mut c = Completion::new(&doc, vec![cand], 5, 7);
    assert!(c.on_event(&mut doc, PromptEvent::Update, false).is_err());
    assert_eq!(text(&doc), "open ma");
}

#[test]
fn fully_typed_directory_component() {
    // The token "./src/" names the directory already; only what follows the
    // separator is still owed.
    let doc = chars("open ./src/");
    let cand = path_item("./src/main.rs", PathType::File);
    let tx = item_to_transaction(&doc, 11, 11, &cand).unwrap();
    assert_eq!(text(tx.changes[0].text.as_ref().unwrap()), "main.rs");
}

#[test]
fn path_filter_key_is_the_file_name() {
    let dir = path_item("./src/", PathType::Dir);
    assert_eq!(text(&dir.filter_text()), "src");
    assert_eq!(text(&dir.label()), "src");

    let dot = path_item("./", PathType::Dir);
    assert_eq!(text(&dot.filter_text()), "");

    let parent = path_item("../", PathType::Dir);
    assert_eq!(text(&parent.filter_text()), "");

    let file = path_item("./src/main.rs", PathType::File);
    assert_eq!(text(&file.filter_text()), "main.rs");

    // A trailing `.` segment names the directory it stands in; a trailing
    // `..` names no component.
    let here = path_item("x/.", PathType::Dir);
    assert_eq!(text(&here.filter_text()), "x");
    let up = path_item("x/..", PathType::Dir);
    assert_eq!(text(&up.filter_text()), "");
    let dots = path_item("x/...", PathType::File);
    assert_eq!(text(&dots.filter_text()), "...");
}

#[test]
fn additional_edits_apply_in_order() {
    let mut doc = chars("abcdef");
    let edits = vec![
        TextEdit { start: 0, end: 1, new_text: chars("X") },
        TextEdit { start: 3, end: 5, new_text: chars("Y") },
    ];
    assert!(apply_additional_edits(&mut doc, &edits));
    assert_eq!(text(&doc), "XbcYf");
}

#[test]
fn overlapping_additional_edits_are_rejected_atomically() {
    let mut doc = chars("abcdef");
    let edits = vec![
        TextEdit { start: 0, end: 3, new_text: chars("X") },
        TextEdit { start: 2, end: 5, new_text: chars("Y") },
    ];
    assert!(!apply_additional_edits(&mut doc, &edits));
    assert_eq!(text(&doc), "abcdef");
}

#[test]
fn out_of_bounds_additional_edits_are_rejected() {
    let mut doc = chars("abc");
    let edits = vec![TextEdit { start: 2, end: 9, new_text: chars("X") }];
    assert!(!apply_additional_edits(&mut doc, &edits));
    assert_eq!(text(&doc), "abc");
}

#[test]
fn committing_a_path_candidate_needs_no_follow_up() {
    let mut doc = chars("open ./src/ma");
    let cand = path_item("./src/main.rs", PathType::File);
    let mut c = Completion::new(&doc, vec![cand], 11, 13);
    let resp = c.on_event(&mut doc, PromptEvent::Validate, true).unwrap();
    assert_eq!(text(&doc), "open ./src/main.rs");
    assert!(matches!(
        resp.follow_up,
        completion_core::completion::FollowUp::Nothing
    ));
}

#[test]
fn sort_key_coincides_with_filter_key() {
    let mut item = bare_lsp_item("label");
    item.filter_text = Some(chars("filter"));
    let it = CompletionItem::LSP {
        language_server_id: 0,
        item,
        offset_encoding: OffsetEncoding::Utf8,
    };
    assert_eq!(text(&it.sort_text()), "filter");
    assert_eq!(text(&it.filter_text()), "filter");
    assert_eq!(text(&it.label()), "label");
}

#[test]
fn deletion_edits_carry_no_text() {
    let doc = chars("abcdef");
    let tx = Transaction {
        changes: vec![Change { start: 1, end: 3, text: None }],
    };
    let out = apply_to(&doc, &tx).unwrap();
    assert_eq!(text(&out), "adef");
}
