//! Lifecycle scenarios: previews, commit, abort, dismissal, resolution.

use completion_core::candidate::{
    clone_item, CompletionItem, LspItem, OffsetEncoding, PathType, ServerEdit, TextEdit,
};
use completion_core::completion::{
    Completion, FilterOutcome, FollowUp, PromptEvent,
};

fn chars(s: &str) -> Vec<char> {
    s.chars().collect()
}

fn text(v: &Vec<char>) -> String {
    v.iter().collect()
}

fn bare_lsp_item(label: &str) -> LspItem {
    LspItem {
        label: chars(label),
        kind: None,
        filter_text: None,
        sort_text: None,
        insert_text: None,
        text_edit: None,
        additional_text_edits: None,
        documentation: None,
        detail: None,
        preselect: None,
    }
}

fn lsp(label: &str) -> CompletionItem {
    CompletionItem::LSP {
        language_server_id: 1,
        item: bare_lsp_item(label),
        offset_encoding: OffsetEncoding::Utf8,
    }
}

fn lsp_with(item: LspItem) -> CompletionItem {
    CompletionItem::LSP { language_server_id: 1, item, offset_encoding: OffsetEncoding::Utf8 }
}

fn changes_of(resp: &completion_core::completion::EventResponse) -> Vec<(usize, usize, Option<String>)> {
    resp.action
        .as_ref()
        .map(|a| {
            a.changes
                .iter()
                .map(|c| (c.start, c.end, c.text.as_ref().map(|t| text(t))))
                .collect()
        })
        .unwrap_or_default()
}

#[test]
fn update_previews_focused_candidate() {
    let mut doc = chars("pri");
    let mut item = bare_lsp_item("private");
    item.insert_text = Some(chars("private"));
    let mut c = Completion::new(&doc, vec![lsp_with(item)], 0, 3);
    let resp = c.on_event(&mut doc, PromptEvent::Update, false).unwrap();
    assert_eq!(text(&doc), "private");
    assert_eq!(changes_of(&resp), vec![(3, 3, Some("vate".to_string()))]);
}

#[test]
fn updates_never_compound() {
    let mut doc = chars("pri");
    let mut item = bare_lsp_item("private");
    item.insert_text = Some(chars("private"));
    let first = lsp_with(item);
    let mut c = Completion::new(&doc, vec![clone_item(&first)], 0, 3);

    c.on_event(&mut doc, PromptEvent::Update, false).unwrap();
    assert_eq!(text(&doc), "private");

    // A second preview of the same candidate starts from the baseline again.
    c.on_event(&mut doc, PromptEvent::Update, false).unwrap();
    assert_eq!(text(&doc), "private");

    // Swap the focused candidate in place; the next preview still starts
    // from the baseline, not from the previous preview's document.
    let mut other = bare_lsp_item("primary");
    other.insert_text = Some(chars("primary"));
    c.replace_item(&first, lsp_with(other));
    c.on_event(&mut doc, PromptEvent::Update, false).unwrap();
    assert_eq!(text(&doc), "primary");
}

#[test]
fn abort_restores_pre_popup_content() {
    let mut doc = chars("pri");
    let mut item = bare_lsp_item("private");
    item.insert_text = Some(chars("private"));
    let mut c = Completion::new(&doc, vec![lsp_with(item)], 0, 3);

    c.on_event(&mut doc, PromptEvent::Update, false).unwrap();
    c.on_event(&mut doc, PromptEvent::Update, false).unwrap();
    assert_eq!(text(&doc), "private");

    let resp = c.on_event(&mut doc, PromptEvent::Abort, false).unwrap();
    assert_eq!(text(&doc), "pri");
    assert!(resp.action.is_none());
    assert!(c.is_empty());

    // The popup is closed; further events change nothing.
    let resp = c.on_event(&mut doc, PromptEvent::Update, false).unwrap();
    assert_eq!(text(&doc), "pri");
    assert!(resp.action.is_none());
}

#[test]
fn backtrack_dismisses_popup() {
    let mut doc = chars("xab");
    let mut item = bare_lsp_item("abcdef");
    item.insert_text = Some(chars("abcdef"));
    let mut c = Completion::new(&doc, vec![lsp_with(item)], 1, 3);
    c.on_event(&mut doc, PromptEvent::Update, false).unwrap();
    assert_eq!(text(&doc), "xabcdef");

    // The user backspaces below the anchor start. The filter only reads the
    // document — the preview still stands in the buffer — discards the
    // candidates and reports Dismiss.
    let outcome = c.recompute_filter(&doc, 0);
    assert!(matches!(outcome, FilterOutcome::Dismiss));
    assert!(c.is_empty());
    assert_eq!(text(&doc), "xabcdef");

    // No candidate edit is ever applied afterwards: with the store empty,
    // events only restore the baseline.
    let resp = c.on_event(&mut doc, PromptEvent::Update, false).unwrap();
    assert!(resp.action.is_none());
    assert_eq!(text(&doc), "xab");

    // The caller closes the popup by delivering Abort, which restores the
    // baseline and is terminal.
    let resp = c.on_event(&mut doc, PromptEvent::Abort, false).unwrap();
    assert!(resp.action.is_none());
    assert_eq!(text(&doc), "xab");
    assert!(c.selection().is_none());
}

#[test]
fn resolution_after_abort_is_a_no_op() {
    let mut doc = chars("pri");
    let stale = lsp("private");
    let mut c = Completion::new(&doc, vec![clone_item(&stale)], 0, 3);
    assert!(c.ensure_item_resolved(true, true));

    c.on_event(&mut doc, PromptEvent::Abort, false).unwrap();

    // The response arrives after the popup closed: nothing to swap, no error.
    let mut resolved_item = bare_lsp_item("private");
    resolved_item.documentation = Some(chars("docs"));
    c.replace_item(&stale, lsp_with(resolved_item));
    assert!(c.is_empty());
    assert!(c.selection().is_none());
}

#[test]
fn preselected_candidates_come_first() {
    let doc = chars("");
    let b = lsp("B");
    let mut a_item = bare_lsp_item("A");
    a_item.preselect = Some(true);
    let a = lsp_with(a_item);
    let mut c_item = bare_lsp_item("C");
    c_item.preselect = Some(false);
    let c = lsp_with(c_item);

    let popup = Completion::new(&doc, vec![b, a, c], 0, 0);
    assert_eq!(popup.visible_len(), 3);
    let order: Vec<String> = (0..3).map(|i| text(&popup.visible_item(i).label())).collect();
    assert_eq!(order, vec!["A".to_string(), "B".to_string(), "C".to_string()]);
    // Initial focus rests on the preselected candidate.
    assert_eq!(text(&popup.selection().unwrap().label()), "A");
}

#[test]
fn validate_applies_primary_then_additional_edits() {
    let mut doc = chars("hello world");
    let mut item = bare_lsp_item("HI");
    item.text_edit = Some(ServerEdit::Replace(TextEdit {
        start: 0,
        end: 5,
        new_text: chars("HI"),
    }));
    // Offsets of additional edits address the document after the primary
    // edit: "HI world".
    item.additional_text_edits = Some(vec![TextEdit { start: 3, end: 4, new_text: chars("W") }]);
    let mut c = Completion::new(&doc, vec![lsp_with(item)], 11, 11);

    let resp = c.on_event(&mut doc, PromptEvent::Validate, true).unwrap();
    assert_eq!(text(&doc), "HI World");
    // With additional edits present, no resolution is handed off.
    assert!(matches!(resp.follow_up, FollowUp::Nothing));
    // The primary replace does not touch the trigger offset, so the
    // published context holds no changes.
    assert_eq!(changes_of(&resp), vec![]);

    // Commit is terminal.
    let resp = c.on_event(&mut doc, PromptEvent::Update, false).unwrap();
    assert!(resp.action.is_none());
    assert_eq!(text(&doc), "HI World");
}

#[test]
fn validate_hands_off_resolution_for_unresolved_candidate() {
    let mut doc = chars("pri");
    let mut item = bare_lsp_item("private");
    item.insert_text = Some(chars("private"));
    let mut c = Completion::new(&doc, vec![lsp_with(item)], 0, 3);

    let resp = c.on_event(&mut doc, PromptEvent::Validate, true).unwrap();
    assert_eq!(text(&doc), "private");
    match resp.follow_up {
        FollowUp::Resolve { language_server_id, ref item } => {
            assert_eq!(language_server_id, 1);
            assert_eq!(text(&item.label), "private");
        },
        FollowUp::Nothing => panic!("expected a resolution hand-off"),
    }
}

#[test]
fn validate_without_resolve_support_finishes_quietly() {
    let mut doc = chars("pri");
    let mut item = bare_lsp_item("private");
    item.insert_text = Some(chars("private"));
    let mut c = Completion::new(&doc, vec![lsp_with(item)], 0, 3);

    let resp = c.on_event(&mut doc, PromptEvent::Validate, false).unwrap();
    assert_eq!(text(&doc), "private");
    assert!(matches!(resp.follow_up, FollowUp::Nothing));
}

#[test]
fn resolved_candidate_needs_no_follow_up() {
    let mut doc = chars("pri");
    let mut item = bare_lsp_item("private");
    item.insert_text = Some(chars("private"));
    item.documentation = Some(chars("already here"));
    let mut c = Completion::new(&doc, vec![lsp_with(item)], 0, 3);
    assert!(!c.ensure_item_resolved(true, true));
    let resp = c.on_event(&mut doc, PromptEvent::Validate, true).unwrap();
    assert!(matches!(resp.follow_up, FollowUp::Nothing));
}

#[test]
fn invalid_additional_edits_no_op_the_commit() {
    let mut doc = chars("hello world");
    let mut item = bare_lsp_item("HI");
    item.text_edit = Some(ServerEdit::Replace(TextEdit {
        start: 0,
        end: 5,
        new_text: chars("HI"),
    }));
    item.additional_text_edits = Some(vec![TextEdit {
        start: 90,
        end: 95,
        new_text: chars("X"),
    }]);
    let mut c = Completion::new(&doc, vec![lsp_with(item)], 11, 11);

    assert!(c.on_event(&mut doc, PromptEvent::Validate, true).is_err());
    // The buffer stands at its restored baseline and the popup stays open.
    assert_eq!(text(&doc), "hello world");
    assert!(!c.is_empty());
}

#[test]
fn overlapping_additional_edit_is_a_policy_violation() {
    let mut doc = chars("hello world");
    let mut item = bare_lsp_item("HI");
    item.text_edit = Some(ServerEdit::Replace(TextEdit {
        start: 0,
        end: 5,
        new_text: chars("HI"),
    }));
    // The primary edit's text occupies offsets 0..2 of the committed
    // document; this additional edit reaches into it.
    item.additional_text_edits = Some(vec![TextEdit { start: 1, end: 3, new_text: chars("Z") }]);
    let mut c = Completion::new(&doc, vec![lsp_with(item)], 11, 11);

    assert!(c.on_event(&mut doc, PromptEvent::Validate, true).is_err());
    // Detected, not patched: the buffer stands at its restored baseline and
    // the popup stays open.
    assert_eq!(text(&doc), "hello world");
    assert!(!c.is_empty());
}

#[test]
fn malformed_server_edit_fails_synthesis() {
    let mut doc = chars("abc");
    let mut item = bare_lsp_item("x");
    item.text_edit = Some(ServerEdit::Replace(TextEdit {
        start: 0,
        end: 99,
        new_text: chars("x"),
    }));
    let mut c = Completion::new(&doc, vec![lsp_with(item)], 3, 3);
    assert!(c.selection().is_some());
    assert!(c.on_event(&mut doc, PromptEvent::Update, false).is_err());
    assert_eq!(text(&doc), "abc");
}

#[test]
fn insert_and_replace_uses_the_replace_range() {
    let mut doc = chars("abcdef");
    let mut item = bare_lsp_item("XY");
    item.text_edit = Some(ServerEdit::InsertAndReplace {
        insert: TextEdit { start: 1, end: 2, new_text: chars("XY") },
        replace: TextEdit { start: 1, end: 4, new_text: chars("XY") },
    });
    let mut c = Completion::new(&doc, vec![lsp_with(item)], 6, 6);
    c.on_event(&mut doc, PromptEvent::Update, false).unwrap();
    assert_eq!(text(&doc), "aXYef");
}

#[test]
fn replace_item_swaps_the_selected_slot() {
    let doc = chars("");
    let old = lsp("alpha");
    let mut c = Completion::new(&doc, vec![clone_item(&old), lsp("beta")], 0, 0);
    assert_eq!(text(&c.selection().unwrap().label()), "alpha");

    let mut resolved = bare_lsp_item("alpha");
    resolved.documentation = Some(chars("docs"));
    c.replace_item(&old, lsp_with(resolved));

    // The selection pointer kept its slot and now sees the resolved value.
    match c.selection().unwrap() {
        CompletionItem::LSP { item, .. } => {
            assert_eq!(text(&item.label), "alpha");
            assert!(item.documentation.is_some());
        },
        _ => panic!("expected a server candidate"),
    }
    assert!(!c.ensure_item_resolved(true, true));
}

#[test]
fn ensure_item_resolved_needs_server_and_support() {
    let doc = chars("");
    let c = Completion::new(&doc, vec![lsp("x")], 0, 0);
    assert!(c.ensure_item_resolved(true, true));
    assert!(!c.ensure_item_resolved(false, true));
    assert!(!c.ensure_item_resolved(true, false));

    let p = CompletionItem::Path {
        path: chars("./x"),
        permissions: 0o644,
        path_type: PathType::File,
    };
    let c = Completion::new(&doc, vec![p], 0, 0);
    assert!(!c.ensure_item_resolved(true, true));
}

#[test]
fn empty_popup_events_only_restore() {
    let mut doc = chars("abc");
    let mut c = Completion::new(&doc, vec![], 1, 2);
    assert!(c.is_empty());
    doc.push('!');
    let resp = c.on_event(&mut doc, PromptEvent::Update, false).unwrap();
    assert!(resp.action.is_none());
    assert_eq!(text(&doc), "abc");
}

#[test]
fn filter_narrows_and_widens_visibility() {
    let mut doc = chars("b");
    let mut c = Completion::new(&doc, vec![lsp("foo"), lsp("bar")], 0, 1);
    assert_eq!(c.visible_len(), 1);
    assert_eq!(text(&c.visible_item(0).label()), "bar");

    // Widening the fragment back to nothing re-admits every candidate
    // without re-querying the provider.
    doc.clear();
    let outcome = c.recompute_filter(&doc, 0);
    assert!(matches!(outcome, FilterOutcome::Active));
    assert_eq!(c.visible_len(), 2);
}

#[test]
fn rescoring_keeps_focus_when_possible() {
    let mut doc = chars("");
    let mut c = Completion::new(&doc, vec![lsp("abc"), lsp("bcd")], 0, 0);
    assert_eq!(text(&c.selection().unwrap().label()), "abc");

    // Typing "b": both match ("b" is a subsequence of each); focus stays.
    doc.push('b');
    c.update(&doc, 1);
    assert_eq!(c.visible_len(), 2);
    assert_eq!(text(&c.selection().unwrap().label()), "abc");

    // Typing "bd": only "bcd" matches; focus moves to it.
    doc.push('d');
    c.update(&doc, 2);
    assert_eq!(c.visible_len(), 1);
    assert_eq!(text(&c.selection().unwrap().label()), "bcd");
}

#[test]
fn later_batches_join_the_store() {
    let doc = chars("a");
    let mut c = Completion::new(&doc, vec![lsp("abc")], 0, 1);
    assert_eq!(c.visible_len(), 1);
    c.add_completion_items(vec![lsp("xyz"), lsp("axy")]);
    // "a" matches "abc" and "axy"; focus kept.
    assert_eq!(c.visible_len(), 2);
    assert_eq!(text(&c.selection().unwrap().label()), "abc");
    assert_eq!(text(&c.visible_item(1).label()), "axy");
}

#[test]
fn anchor_offsets_are_published() {
    let doc = chars("hello");
    let c = Completion::new(&doc, vec![], 2, 4);
    assert_eq!(c.start_offset(), 2);
    assert_eq!(c.trigger_offset(), 4);
}
