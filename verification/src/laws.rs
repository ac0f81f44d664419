//! Laws of the popup lifecycle, stated over the spec-level transition
//! functions that every exec method's contract goes through.

use vstd::prelude::*;

use crate::candidate::{preselect_of, CompletionItemV, LspItemV};
use crate::completion::{
    additional_edits_of, any_overlaps_primary, edits_as_changes, filter_presel, has_additional,
    presel_first, step_abort, step_recompute, step_update, step_validate, CompletionV,
};
use crate::menu::find_first_eq;
use crate::synthesize::{insert_at, synth_spec};
use crate::text::{is_prefix_of, strip_prefix_spec};
use crate::transaction::{apply_changes, changes_valid};

verus! {

/// Law: previews never compound. The document an `Update` produces depends
/// only on the popup state — the focused candidate's edit is applied to the
/// savepoint taken at popup creation, whatever document earlier previews
/// left behind — and `Update` leaves the popup state itself unchanged, so
/// along any run of `Update` events every preview starts from the same
/// baseline.
pub proof fn lemma_restore_idempotence(s: CompletionV, d1: Seq<char>, d2: Seq<char>)
    requires
        s.state is Open,
    ensures
        step_update(s, d1).doc == step_update(s, d2).doc,
        s.focused() is Some && s.focused_synth() is Some ==> step_update(s, d1).doc
            == apply_changes(s.savepoint, s.focused_synth().unwrap()),
        step_update(s, step_update(s, d1).doc).doc == step_update(s, d2).doc,
{
}

/// Law: abort is pure. Whatever document the popup's previews produced,
/// `Abort` returns it to exactly the savepoint content — the document as it
/// stood at popup creation — also after any number of intervening previews.
pub proof fn lemma_abort_purity(s: CompletionV, d: Seq<char>, d2: Seq<char>)
    requires
        s.state is Open,
    ensures
        step_abort(s, d).1 == s.savepoint,
        step_abort(s, step_update(s, d2).doc).1 == s.savepoint,
{
}

/// Law: a cursor strictly before the anchor start dismisses the popup. The
/// filter recompute itself only reads the document; it discards the
/// candidates and reports `Dismiss`, and the caller closes the popup by
/// delivering `Abort`, which restores the savepoint and is terminal. From
/// the dismissed state no event ever applies a candidate edit: with the
/// store empty, `Update` and `Validate` restore the baseline and nothing
/// more.
pub proof fn lemma_dismiss_on_backtrack(
    s: CompletionV,
    d: Seq<char>,
    cursor: int,
    d2: Seq<char>,
    resolve_supported: bool,
)
    requires
        s.wf(),
        s.state is Open,
        cursor < s.start_offset,
    ensures
        ({
            let st = step_recompute(s, d, cursor);
            &&& st.dismissed
            &&& st.post.menu.options.len() == 0
            &&& st.post.menu.visible.len() == 0
            &&& st.post.savepoint == s.savepoint
            // the caller's Abort then restores the baseline and closes:
            &&& step_abort(st.post, d2).1 == s.savepoint
            &&& step_abort(st.post, d2).0.state is Aborted
            // and no candidate edit can be applied meanwhile:
            &&& step_update(st.post, d2).doc == s.savepoint
            &&& step_update(st.post, d2).action is None
            &&& step_validate(st.post, d2, resolve_supported).doc == s.savepoint
            &&& step_validate(st.post, d2, resolve_supported).action is None
        }),
{
}

/// Law: resolution races are safe. After an abort the candidate store is
/// empty, so a resolution that completes late finds no candidate equal to
/// the one it was issued for: the identity-preserving swap of
/// `replace_item` falls into its no-match case and the popup stays exactly
/// as it is, without an error.
pub proof fn lemma_resolution_race_safety(
    s: CompletionV,
    d: Seq<char>,
    ov: CompletionItemV,
    nv: CompletionItemV,
)
    requires
        s.state is Open,
    ensures
        step_abort(s, d).0.menu.options.len() == 0,
        find_first_eq(step_abort(s, d).0.menu.options, ov, 0) is None,
{
    let post = step_abort(s, d).0;
    assert(find_first_eq(post.menu.options, ov, 0) is None);
}

/// Law: on `Validate`, the primary edit is applied first, to the savepoint
/// baseline, and the candidate's additional edits are applied after it, to
/// the document the primary edit produced.
pub proof fn lemma_additional_after_primary(
    s: CompletionV,
    d: Seq<char>,
    resolve_supported: bool,
)
    requires
        s.state is Open,
        s.focused() is Some,
        s.focused_synth() is Some,
        has_additional(s.focused().unwrap()),
        changes_valid(
            edits_as_changes(additional_edits_of(s.focused().unwrap()).unwrap()),
            apply_changes(s.savepoint, s.focused_synth().unwrap()).len() as int,
        ),
        !any_overlaps_primary(
            s.focused_synth().unwrap()[0],
            edits_as_changes(additional_edits_of(s.focused().unwrap()).unwrap()),
        ),
    ensures
        step_validate(s, d, resolve_supported).doc == apply_changes(
            apply_changes(s.savepoint, s.focused_synth().unwrap()),
            edits_as_changes(additional_edits_of(s.focused().unwrap()).unwrap()),
        ),
        step_validate(s, d, resolve_supported).post.state is Committed,
{
}

/// Law: an additional edit whose range overlaps the primary edit's range is
/// a fatal synthesis-policy violation. The commit detects it and fails
/// recoverably — the document stands at the restored baseline and the popup
/// is unchanged — rather than patching or reordering the edits.
pub proof fn lemma_overlapping_additional_rejected(
    s: CompletionV,
    d: Seq<char>,
    resolve_supported: bool,
)
    requires
        s.state is Open,
        s.focused() is Some,
        s.focused_synth() is Some,
        has_additional(s.focused().unwrap()),
        any_overlaps_primary(
            s.focused_synth().unwrap()[0],
            edits_as_changes(additional_edits_of(s.focused().unwrap()).unwrap()),
        ),
    ensures
        !step_validate(s, d, resolve_supported).ok,
        step_validate(s, d, resolve_supported).doc == s.savepoint,
        step_validate(s, d, resolve_supported).post == s,
{
}

/// Law: prefix trimming. For a server candidate with no explicit edit whose
/// text starts with the already-typed fragment, the synthesized transaction
/// is the single insert, at the trigger, of exactly the text with that
/// fragment removed from its front.
pub proof fn lemma_prefix_trim(
    doc: Seq<char>,
    start: int,
    trigger: int,
    item: CompletionItemV,
)
    requires
        0 <= start <= trigger <= doc.len(),
        item is LSP,
        lsp_payload(item).text_edit is None,
        is_prefix_of(doc.subrange(start, trigger), candidate_text(item)),
    ensures
        synth_spec(doc, start, trigger, item) == Some(
            seq![insert_at(trigger, candidate_text(item).skip(trigger - start))],
        ),
{
    let t = candidate_text(item);
    let pre = doc.subrange(start, trigger);
    assert(pre.len() == trigger - start);
    assert(strip_prefix_spec(t, pre) == t.skip(trigger - start));
}

/// The payload of a server candidate.
pub open spec fn lsp_payload(item: CompletionItemV) -> LspItemV
    recommends
        item is LSP,
{
    match item {
        CompletionItemV::LSP { item: it, .. } => it,
        CompletionItemV::Path { .. } => arbitrary(),
    }
}

/// The text a server candidate without an explicit edit inserts: its insert
/// text, its label when it names none.
pub open spec fn candidate_text(item: CompletionItemV) -> Seq<char>
    recommends
        item is LSP,
{
    match lsp_payload(item).insert_text {
        Some(t) => t,
        None => lsp_payload(item).label,
    }
}

/// Every candidate of the partition's first group is preselected, every one
/// of the second is not.
pub proof fn lemma_filter_presel_members(items: Seq<CompletionItemV>, want: bool)
    ensures
        forall|k: int|
            0 <= k < filter_presel(items, want).len() ==> preselect_of(
                #[trigger] filter_presel(items, want)[k],
            ) == want,
    decreases items.len(),
{
    if items.len() > 0 {
        lemma_filter_presel_members(items.drop_last(), want);
        let rest = filter_presel(items.drop_last(), want);
        let out = filter_presel(items, want);
        if preselect_of(items.last()) == want {
            assert(out == rest.push(items.last()));
            assert forall|k: int| 0 <= k < out.len() implies preselect_of(out[k]) == want by {
                if k < rest.len() {
                    assert(out[k] == rest[k]);
                } else {
                    assert(out[k] == items.last());
                }
            }
        }
    }
}

/// The partition loses and invents no candidate.
pub proof fn lemma_filter_presel_len(items: Seq<CompletionItemV>)
    ensures
        filter_presel(items, true).len() + filter_presel(items, false).len() == items.len(),
    decreases items.len(),
{
    if items.len() > 0 {
        lemma_filter_presel_len(items.drop_last());
    }
}

/// Law: preselect ordering. The initial candidate order places every
/// preselected candidate before every non-preselected one — whenever a
/// later candidate is preselected, so is every earlier one — and keeps all
/// candidates.
pub proof fn lemma_preselect_ordering(items: Seq<CompletionItemV>)
    ensures
        presel_first(items).len() == items.len(),
        forall|i: int, j: int|
            0 <= i < j < presel_first(items).len() && preselect_of(
                #[trigger] presel_first(items)[j],
            ) ==> preselect_of(#[trigger] presel_first(items)[i]),
{
    lemma_filter_presel_len(items);
    lemma_filter_presel_members(items, true);
    lemma_filter_presel_members(items, false);
    let out = presel_first(items);
    let a = filter_presel(items, true);
    let b = filter_presel(items, false);
    assert forall|i: int, j: int|
        0 <= i < j < out.len() && preselect_of(out[j]) implies preselect_of(out[i]) by {
        if i >= a.len() {
            assert(out[i] == b[i - a.len()]);
            assert(out[j] == b[j - a.len()]);
        } else {
            assert(out[i] == a[i]);
        }
    }
}

} // verus!
