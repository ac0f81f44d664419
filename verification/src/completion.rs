//! The lifecycle controller: the popup state machine driving preview, commit
//! and abort, the buffer-restoration protocol around a savepoint taken at
//! popup creation, and the decision side of asynchronous candidate
//! resolution.

use vstd::prelude::*;

use crate::candidate::{
    clone_edits, clone_lsp_item, preselect_of, CompletionItem, CompletionItemV, LspItem, LspItemV,
    TextEdit, TextEditV,
};
use crate::menu::{matching_indices, rescored_cursor, Menu, MenuV};
use crate::synthesize::{
    changes_overlapping, completion_changes, item_to_transaction, lemma_synth_valid, synth_spec,
    SynthesisFailed,
};
use crate::text::{clone_chars, copy_range};
use crate::transaction::{
    apply_changes, apply_to, change_ins, changes_valid, Change, ChangeV, Transaction,
};

verus! {

broadcast use crate::text::lemma_chars_deep_view;

/// The popup's lifecycle: open and interactive, or closed by abort or by
/// commit. The two closed states are terminal.
#[derive(Debug, Clone, Copy, PartialEq, Eq, Structural)]
pub enum LifecycleState {
    Open,
    Aborted,
    Committed,
}

/// The events the surrounding input-handling loop delivers to the popup.
#[derive(Debug, Clone, Copy, PartialEq, Eq, Structural)]
pub enum PromptEvent {
    Abort,
    Update,
    Validate,
}

/// What the filter controller decided: the popup stays active, or the cursor
/// backtracked past the anchor and the popup was dismissed.
#[derive(Debug, Clone, Copy, PartialEq, Eq, Structural)]
pub enum FilterOutcome {
    Active,
    Dismiss,
}

/// The "last completion" record published after a preview or a commit: the
/// trigger offset and the changes of the applied transaction that overlap
/// it. Auto-pairing and indent collaborators consume it.
pub struct CompleteAction {
    pub trigger_offset: usize,
    pub changes: Vec<Change>,
}

/// Mathematical value of a [`CompleteAction`].
pub ghost struct CompleteActionV {
    pub trigger_offset: int,
    pub changes: Seq<ChangeV>,
}

impl DeepView for CompleteAction {
    type V = CompleteActionV;

    open spec fn deep_view(&self) -> CompleteActionV {
        CompleteActionV {
            trigger_offset: self.trigger_offset as int,
            changes: self.changes.deep_view(),
        }
    }
}

/// What remains to be done after a commit: nothing, or fetching the focused
/// candidate's resolution to pick up additional edits asynchronously.
pub enum FollowUp {
    Nothing,
    Resolve { language_server_id: usize, item: LspItem },
}

/// Mathematical value of a [`FollowUp`].
pub ghost enum FollowUpV {
    Nothing,
    Resolve { language_server_id: int, item: LspItemV },
}

impl DeepView for FollowUp {
    type V = FollowUpV;

    open spec fn deep_view(&self) -> FollowUpV {
        match self {
            FollowUp::Nothing => FollowUpV::Nothing,
            FollowUp::Resolve { language_server_id, item } => FollowUpV::Resolve {
                language_server_id: *language_server_id as int,
                item: item.deep_view(),
            },
        }
    }
}

/// What an event handler returns on success.
pub struct EventResponse {
    pub action: Option<CompleteAction>,
    pub follow_up: FollowUp,
}

/// The mathematical state of the popup.
pub ghost struct CompletionV {
    pub menu: MenuV,
    pub start_offset: int,
    pub trigger_offset: int,
    pub savepoint: Seq<char>,
    pub state: LifecycleState,
}

impl CompletionV {
    /// Well-formedness: the store is well-formed and the anchor lies inside
    /// the savepoint document, with its start at or before its trigger.
    pub open spec fn wf(self) -> bool {
        &&& self.menu.wf()
        &&& 0 <= self.start_offset <= self.trigger_offset <= self.savepoint.len()
    }

    /// The focused candidate, if any.
    pub open spec fn focused(self) -> Option<CompletionItemV> {
        self.menu.selected()
    }

    /// The transaction synthesis for the focused candidate, against the
    /// savepoint baseline the document is restored to first.
    pub open spec fn focused_synth(self) -> Option<Seq<ChangeV>>
        recommends
            self.focused() is Some,
    {
        synth_spec(self.savepoint, self.start_offset, self.trigger_offset, self.focused().unwrap())
    }
}

/// The store after the popup closes: every candidate discarded, nothing
/// visible or selected.
pub open spec fn cleared_menu(m: MenuV) -> MenuV {
    MenuV {
        options: Seq::empty(),
        visible: Seq::empty(),
        cursor: None,
        pattern: m.pattern,
    }
}

/// The popup after an abort: candidates discarded, terminal state.
pub open spec fn aborted_state(s: CompletionV) -> CompletionV {
    CompletionV { menu: cleared_menu(s.menu), state: LifecycleState::Aborted, ..s }
}

/// The popup after a commit: candidates discarded, terminal state.
pub open spec fn committed_state(s: CompletionV) -> CompletionV {
    CompletionV { menu: cleared_menu(s.menu), state: LifecycleState::Committed, ..s }
}

/// Additional edits as transaction changes, each inserting its text over its
/// range.
pub open spec fn edits_as_changes(es: Seq<TextEditV>) -> Seq<ChangeV> {
    es.map_values(|e: TextEditV| ChangeV { start: e.start, end: e.end, text: Some(e.new_text) })
}

/// The additional edits a candidate carries, if it is a server candidate.
pub open spec fn additional_edits_of(it: CompletionItemV) -> Option<Seq<TextEditV>> {
    match it {
        CompletionItemV::LSP { item, .. } => item.additional_text_edits,
        CompletionItemV::Path { .. } => None,
    }
}

/// Whether the additional change `a` overlaps the region the primary change
/// `p` occupies in the document the primary edit produced: `p` replaced its
/// range with its inserted text, which spans `[p.start, p.start + |ins|)`
/// there, and additional changes address that document. Touching at an
/// endpoint is not an overlap.
pub open spec fn overlaps_primary(p: ChangeV, a: ChangeV) -> bool {
    let lo = if a.start > p.start {
        a.start
    } else {
        p.start
    };
    lo < a.end && lo < p.start + change_ins(p).len()
}

/// Whether any change of `acs` overlaps the primary change `p`.
pub open spec fn any_overlaps_primary(p: ChangeV, acs: Seq<ChangeV>) -> bool {
    exists|i: int| 0 <= i < acs.len() && overlaps_primary(p, #[trigger] acs[i])
}

/// Whether a candidate carries at least one additional edit.
pub open spec fn has_additional(it: CompletionItemV) -> bool {
    match additional_edits_of(it) {
        Some(es) => es.len() > 0,
        None => false,
    }
}

/// Whether a candidate is a server candidate that has not been resolved yet:
/// no documentation has been fetched for it.
pub open spec fn is_unresolved_lsp(it: CompletionItemV) -> bool {
    match it {
        CompletionItemV::LSP { item, .. } => item.documentation is None,
        CompletionItemV::Path { .. } => false,
    }
}

/// The server a candidate came from.
pub open spec fn server_id_of(it: CompletionItemV) -> int
    recommends
        it is LSP,
{
    match it {
        CompletionItemV::LSP { language_server_id, .. } => language_server_id,
        CompletionItemV::Path { .. } => 0,
    }
}

/// The server payload of a candidate.
pub open spec fn lsp_item_of(it: CompletionItemV) -> LspItemV
    recommends
        it is LSP,
{
    match it {
        CompletionItemV::LSP { item, .. } => item,
        CompletionItemV::Path { .. } => arbitrary(),
    }
}

/// What an `Update` event does: in a closed popup, nothing; otherwise the
/// document is first restored to the savepoint, and the focused candidate's
/// transaction, if one is focused and synthesis succeeds, is applied to that
/// baseline. The store is never touched.
pub ghost struct UpdateStep {
    pub doc: Seq<char>,
    pub ok: bool,
    pub action: Option<CompleteActionV>,
}

pub open spec fn step_update(s: CompletionV, doc: Seq<char>) -> UpdateStep {
    if !(s.state is Open) {
        UpdateStep { doc, ok: true, action: None }
    } else {
        match s.focused() {
            None => UpdateStep { doc: s.savepoint, ok: true, action: None },
            Some(it) => match s.focused_synth() {
                None => UpdateStep { doc: s.savepoint, ok: false, action: None },
                Some(cs) => UpdateStep {
                    doc: apply_changes(s.savepoint, cs),
                    ok: true,
                    action: Some(
                        CompleteActionV {
                            trigger_offset: s.trigger_offset,
                            changes: changes_overlapping(cs, s.trigger_offset),
                        },
                    ),
                },
            },
        }
    }
}

/// What a `Validate` event does: as `Update`, then the commit. A candidate
/// carrying additional edits has them applied immediately after the primary
/// edit, against the document the primary edit produced; an additional edit
/// that overlaps the primary edit's range is a synthesis-policy violation,
/// detected and surfaced as the recoverable error rather than patched or
/// reordered. Otherwise, when the server supports resolution and the
/// candidate is unresolved, resolution is handed off to run after this
/// transition. Commit discards the candidates and is terminal.
pub ghost struct ValidateStep {
    pub post: CompletionV,
    pub doc: Seq<char>,
    pub ok: bool,
    pub action: Option<CompleteActionV>,
    pub follow_up: FollowUpV,
}

pub open spec fn step_validate(s: CompletionV, doc: Seq<char>, resolve_supported: bool) -> ValidateStep {
    if !(s.state is Open) {
        ValidateStep { post: s, doc, ok: true, action: None, follow_up: FollowUpV::Nothing }
    } else {
        match s.focused() {
            None => ValidateStep {
                post: s,
                doc: s.savepoint,
                ok: true,
                action: None,
                follow_up: FollowUpV::Nothing,
            },
            Some(it) => match s.focused_synth() {
                None => ValidateStep {
                    post: s,
                    doc: s.savepoint,
                    ok: false,
                    action: None,
                    follow_up: FollowUpV::Nothing,
                },
                Some(cs) => {
                    let doc1 = apply_changes(s.savepoint, cs);
                    let action = Some(
                        CompleteActionV {
                            trigger_offset: s.trigger_offset,
                            changes: changes_overlapping(cs, s.trigger_offset),
                        },
                    );
                    if has_additional(it) {
                        let acs = edits_as_changes(additional_edits_of(it).unwrap());
                        if changes_valid(acs, doc1.len() as int) && !any_overlaps_primary(
                            cs[0],
                            acs,
                        ) {
                            ValidateStep {
                                post: committed_state(s),
                                doc: apply_changes(doc1, acs),
                                ok: true,
                                action,
                                follow_up: FollowUpV::Nothing,
                            }
                        } else {
                            ValidateStep {
                                post: s,
                                doc: s.savepoint,
                                ok: false,
                                action: None,
                                follow_up: FollowUpV::Nothing,
                            }
                        }
                    } else {
                        ValidateStep {
                            post: committed_state(s),
                            doc: doc1,
                            ok: true,
                            action,
                            follow_up: if resolve_supported && is_unresolved_lsp(it) {
                                FollowUpV::Resolve {
                                    language_server_id: server_id_of(it),
                                    item: lsp_item_of(it),
                                }
                            } else {
                                FollowUpV::Nothing
                            },
                        }
                    }
                },
            },
        }
    }
}

/// What an `Abort` event does: in an open popup, the document returns to the
/// savepoint and the candidates are discarded; a closed popup stays as it
/// is. Abort is terminal.
pub open spec fn step_abort(s: CompletionV, doc: Seq<char>) -> (CompletionV, Seq<char>) {
    if s.state is Open {
        (aborted_state(s), s.savepoint)
    } else {
        (s, doc)
    }
}

/// What recomputing the filter does: a cursor strictly before the anchor
/// start dismisses the popup — the candidates become invisible and are
/// discarded, and the caller is told to close the popup, which it does by
/// delivering `Abort`; otherwise the store is rescored against the fragment
/// between the anchor start and the cursor, keeping the focus when it still
/// matches. Recomputing only reads the document: all document mutation,
/// restoration included, belongs to the event handler.
pub ghost struct RecomputeStep {
    pub post: CompletionV,
    pub dismissed: bool,
}

pub open spec fn step_recompute(s: CompletionV, doc: Seq<char>, cursor: int) -> RecomputeStep {
    if !(s.state is Open) {
        RecomputeStep { post: s, dismissed: true }
    } else if cursor < s.start_offset {
        RecomputeStep {
            post: CompletionV { menu: cleared_menu(s.menu), ..s },
            dismissed: true,
        }
    } else {
        let frag = doc.subrange(s.start_offset, cursor);
        let vis = matching_indices(s.menu.options, frag);
        RecomputeStep {
            post: CompletionV {
                menu: MenuV {
                    options: s.menu.options,
                    visible: vis,
                    cursor: rescored_cursor(s.menu.cursor, true, vis),
                    pattern: frag,
                },
                ..s
            },
            dismissed: false,
        }
    }
}

/// Candidates reordered so that every preselected one stands before every
/// non-preselected one, each group keeping its arrival order.
pub open spec fn filter_presel(items: Seq<CompletionItemV>, want: bool) -> Seq<CompletionItemV>
    decreases items.len(),
{
    if items.len() == 0 {
        Seq::empty()
    } else {
        let rest = filter_presel(items.drop_last(), want);
        if preselect_of(items.last()) == want {
            rest.push(items.last())
        } else {
            rest
        }
    }
}

pub open spec fn presel_first(items: Seq<CompletionItemV>) -> Seq<CompletionItemV> {
    filter_presel(items, true) + filter_presel(items, false)
}

/// Stable partition of the candidates: preselected ones first, arrival order
/// kept within each group.
pub fn sort_by_preselect(items: &Vec<CompletionItem>) -> (r: Vec<CompletionItem>)
    ensures
        r.deep_view() == presel_first(items.deep_view()),
{
    let ghost iv = items.deep_view();
    let mut r: Vec<CompletionItem> = Vec::new();
    let mut i: usize = 0;
    proof {
        assert(iv.take(0) =~= Seq::<CompletionItemV>::empty());
        assert(r.deep_view() =~= filter_presel(iv.take(0), true));
    }
    while i < items.len()
        invariant
            i <= items@.len(),
            iv == items.deep_view(),
            iv.len() == items@.len(),
            r.deep_view() == filter_presel(iv.take(i as int), true),
        decreases items.len() - i,
    {
        let ghost before = r.deep_view();
        proof {
            assert(iv.take(i as int + 1).drop_last() =~= iv.take(i as int));
            assert(iv.take(i as int + 1).last() == iv[i as int]);
        }
        let it = &items[i];
        if it.preselect() {
            r.push(crate::candidate::clone_item(it));
            proof {
                assert(r.deep_view() =~= before.push(iv[i as int]));
            }
        }
        i += 1;
    }
    proof {
        assert(iv.take(items@.len() as int) =~= iv);
    }
    let ghost pre = r.deep_view();
    let mut i: usize = 0;
    proof {
        assert(pre + filter_presel(iv.take(0), false) =~= pre);
    }
    while i < items.len()
        invariant
            i <= items@.len(),
            iv == items.deep_view(),
            iv.len() == items@.len(),
            r.deep_view() == pre + filter_presel(iv.take(i as int), false),
            pre == filter_presel(iv, true),
        decreases items.len() - i,
    {
        let ghost before = r.deep_view();
        proof {
            assert(iv.take(i as int + 1).drop_last() =~= iv.take(i as int));
            assert(iv.take(i as int + 1).last() == iv[i as int]);
        }
        let it = &items[i];
        if !it.preselect() {
            r.push(crate::candidate::clone_item(it));
            proof {
                assert(r.deep_view() =~= before.push(iv[i as int]));
                assert(before.push(iv[i as int]) =~= pre + filter_presel(
                    iv.take(i as int + 1),
                    false,
                ));
            }
        }
        i += 1;
    }
    proof {
        assert(iv.take(items@.len() as int) =~= iv);
    }
    r
}

/// Builds the transaction that applies an additional-edit list.
pub fn edits_to_transaction(es: &Vec<TextEdit>) -> (r: Transaction)
    ensures
        r@ == edits_as_changes(es.deep_view()),
{
    let mut changes: Vec<Change> = Vec::new();
    let mut i: usize = 0;
    while i < es.len()
        invariant
            i <= es@.len(),
            changes@.len() == i,
            forall|k: int|
                0 <= k < i ==> changes@[k]@ == (ChangeV {
                    start: es@[k]@.start,
                    end: es@[k]@.end,
                    text: Some(es@[k]@.new_text),
                }),
        decreases es.len() - i,
    {
        let e = &es[i];
        changes.push(Change { start: e.start, end: e.end, text: Some(clone_chars(&e.new_text)) });
        i += 1;
    }
    let r = Transaction { changes };
    proof {
        assert(r@ =~= edits_as_changes(es.deep_view()));
    }
    r
}

/// Decides whether any change of `tx` overlaps the primary change `p`.
fn overlaps_any_primary(p: &Change, tx: &Transaction) -> (r: bool)
    ensures
        r == any_overlaps_primary(p@, tx@),
{
    let ins_len: usize = match &p.text {
        Some(t) => t.len(),
        None => 0,
    };
    proof {
        assert(ins_len == change_ins(p@).len());
    }
    let mut i: usize = 0;
    while i < tx.changes.len()
        invariant
            i <= tx.changes@.len() == tx@.len(),
            forall|k: int| 0 <= k < tx@.len() ==> tx@[k] == tx.changes@[k]@,
            ins_len == change_ins(p@).len(),
            forall|k: int| 0 <= k < i ==> !overlaps_primary(p@, tx@[k]),
        decreases tx.changes.len() - i,
    {
        let a = &tx.changes[i];
        let lo = if a.start > p.start {
            a.start
        } else {
            p.start
        };
        if lo < a.end && lo - p.start < ins_len {
            proof {
                assert(overlaps_primary(p@, tx@[i as int]));
                assert(any_overlaps_primary(p@, tx@)) by {
                    assert(overlaps_primary(p@, tx@[i as int]));
                }
            }
            return true;
        }
        proof {
            assert(!overlaps_primary(p@, tx@[i as int]));
        }
        i += 1;
    }
    proof {
        assert(!any_overlaps_primary(p@, tx@)) by {
            assert(forall|k: int| 0 <= k < tx@.len() ==> !overlaps_primary(p@, tx@[k]));
        }
    }
    false
}

/// Applies an additional-edit list to the document, atomically: when the
/// edits are not valid for the document nothing changes. This is also the
/// entry point for additional edits that arrive with an asynchronous
/// resolution after a commit.
pub fn apply_additional_edits(doc: &mut Vec<char>, edits: &Vec<TextEdit>) -> (ok: bool)
    ensures
        ok == changes_valid(edits_as_changes(edits.deep_view()), old(doc)@.len() as int),
        ok ==> final(doc)@ == apply_changes(old(doc)@, edits_as_changes(edits.deep_view())),
        !ok ==> final(doc)@ == old(doc)@,
{
    let tx = edits_to_transaction(edits);
    match apply_to(doc, &tx) {
        Some(out) => {
            *doc = out;
            true
        },
        None => false,
    }
}

/// The completion popup: candidate store, anchor, savepoint and lifecycle
/// state. The savepoint is the document as it stood at popup creation; every
/// event first restores it, so previews replace and never compound.
pub struct Completion {
    menu: Menu,
    start_offset: usize,
    trigger_offset: usize,
    savepoint: Vec<char>,
    state: LifecycleState,
}

impl View for Completion {
    type V = CompletionV;

    closed spec fn view(&self) -> CompletionV {
        CompletionV {
            menu: self.menu@,
            start_offset: self.start_offset as int,
            trigger_offset: self.trigger_offset as int,
            savepoint: self.savepoint@,
            state: self.state,
        }
    }
}

impl Completion {
    /// Opens a popup over `doc` for the anchor
    /// `(start_offset, trigger_offset)`: candidates are ordered preselected
    /// first, the savepoint is taken, and the filter is scored at once
    /// against the fragment already typed between the anchor offsets.
    pub fn new(
        doc: &Vec<char>,
        items: Vec<CompletionItem>,
        start_offset: usize,
        trigger_offset: usize,
    ) -> (r: Completion)
        requires
            start_offset <= trigger_offset <= doc@.len(),
        ensures
            r@.wf(),
            r@.state is Open,
            r@.savepoint == doc@,
            r@.start_offset == start_offset as int,
            r@.trigger_offset == trigger_offset as int,
            r@.menu.pattern == doc@.subrange(start_offset as int, trigger_offset as int),
            r@.menu.options == presel_first(items.deep_view()),
            r@.menu.visible == matching_indices(r@.menu.options, r@.menu.pattern),
            r@.menu.cursor == rescored_cursor(None, false, r@.menu.visible),
    {
        let sorted = sort_by_preselect(&items);
        let fragment = copy_range(doc, start_offset, trigger_offset);
        let menu = Menu::new(sorted, fragment);
        let savepoint = clone_chars(doc);
        Completion { menu, start_offset, trigger_offset, savepoint, state: LifecycleState::Open }
    }

    /// The cursor position at popup-open time.
    pub fn trigger_offset(&self) -> (r: usize)
        ensures
            r as int == self@.trigger_offset,
    {
        self.trigger_offset
    }

    /// The leftmost offset the completion may replace.
    pub fn start_offset(&self) -> (r: usize)
        ensures
            r as int == self@.start_offset,
    {
        self.start_offset
    }

    /// Whether no candidate is visible under the current fragment.
    pub fn is_empty(&self) -> (r: bool)
        ensures
            r == (self@.menu.visible.len() == 0),
    {
        self.menu.is_empty()
    }

    /// The focused candidate, if any.
    pub fn selection(&self) -> (r: Option<&CompletionItem>)
        requires
            self@.wf(),
        ensures
            match r {
                Some(it) => self@.focused() == Some(it.deep_view()),
                None => self@.focused() is None,
            },
    {
        self.menu.selection()
    }

    /// The number of visible candidates.
    pub fn visible_len(&self) -> (r: usize)
        ensures
            r == self@.menu.visible.len(),
    {
        self.menu.visible_len()
    }

    /// The `i`-th visible candidate, in focus order.
    pub fn visible_item(&self, i: usize) -> (r: &CompletionItem)
        requires
            self@.wf(),
            i < self@.menu.visible.len(),
        ensures
            r.deep_view() == self@.menu.options[self@.menu.visible[i as int]],
    {
        self.menu.visible_item(i)
    }

    /// Appends a further batch of candidates to the backing store of an open
    /// popup, rescoring against the current fragment; a closed popup ignores
    /// it.
    pub fn add_completion_items(&mut self, items: Vec<CompletionItem>)
        requires
            old(self)@.wf(),
        ensures
            final(self)@.wf(),
            final(self)@.start_offset == old(self)@.start_offset,
            final(self)@.trigger_offset == old(self)@.trigger_offset,
            final(self)@.savepoint == old(self)@.savepoint,
            final(self)@.state == old(self)@.state,
            if old(self)@.state is Open {
                &&& final(self)@.menu.options == old(self)@.menu.options + items.deep_view()
                &&& final(self)@.menu.pattern == old(self)@.menu.pattern
                &&& final(self)@.menu.visible == matching_indices(
                    final(self)@.menu.options,
                    old(self)@.menu.pattern,
                )
                &&& final(self)@.menu.cursor == rescored_cursor(
                    old(self)@.menu.cursor,
                    true,
                    final(self)@.menu.visible,
                )
            } else {
                final(self)@ == old(self)@
            },
    {
        match self.state {
            LifecycleState::Open => {
                self.menu.add_options(&items);
            },
            _ => {},
        }
    }

    /// Rescores the live candidates against the text between the anchor
    /// start and the current cursor, only reading the document. A cursor
    /// strictly before the anchor start means the user backspaced past the
    /// replace region: the candidates are discarded and `Dismiss` tells the
    /// caller to close the popup, which it does by delivering `Abort` — the
    /// event that restores the savepoint. The filter itself never applies or
    /// restores an edit.
    pub fn recompute_filter(&mut self, doc: &Vec<char>, cursor: usize) -> (r: FilterOutcome)
        requires
            old(self)@.wf(),
            cursor as int <= doc@.len(),
        ensures
            final(self)@.wf(),
            ({
                let st = step_recompute(old(self)@, doc@, cursor as int);
                &&& final(self)@ == st.post
                &&& (r is Dismiss <==> st.dismissed)
            }),
    {
        match self.state {
            LifecycleState::Open => {},
            _ => {
                return FilterOutcome::Dismiss;
            },
        }
        if cursor < self.start_offset {
            self.menu.clear();
            FilterOutcome::Dismiss
        } else {
            let fragment = copy_range(doc, self.start_offset, cursor);
            self.menu.score(fragment, true);
            FilterOutcome::Active
        }
    }

    /// Recomputes the filter; the popup's reaction to any document or cursor
    /// movement while it is open.
    pub fn update(&mut self, doc: &Vec<char>, cursor: usize) -> (r: FilterOutcome)
        requires
            old(self)@.wf(),
            cursor as int <= doc@.len(),
        ensures
            final(self)@.wf(),
            ({
                let st = step_recompute(old(self)@, doc@, cursor as int);
                &&& final(self)@ == st.post
                &&& (r is Dismiss <==> st.dismissed)
            }),
    {
        self.recompute_filter(doc, cursor)
    }

    /// Replaces a candidate in place by value equality: the
    /// identity-preserving swap a finished resolution performs. A store that
    /// no longer holds the candidate — the popup closed, or the candidate
    /// was superseded — stays untouched; this never errors.
    pub fn replace_item(&mut self, old_item: &CompletionItem, new_item: CompletionItem)
        requires
            old(self)@.wf(),
        ensures
            final(self)@.wf(),
            final(self)@.start_offset == old(self)@.start_offset,
            final(self)@.trigger_offset == old(self)@.trigger_offset,
            final(self)@.savepoint == old(self)@.savepoint,
            final(self)@.state == old(self)@.state,
            final(self)@.menu.visible == old(self)@.menu.visible,
            final(self)@.menu.cursor == old(self)@.menu.cursor,
            final(self)@.menu.pattern == old(self)@.menu.pattern,
            match crate::menu::find_first_eq(old(self)@.menu.options, old_item.deep_view(), 0) {
                Some(k) => final(self)@.menu.options == old(self)@.menu.options.update(
                    k,
                    new_item.deep_view(),
                ),
                None => final(self)@.menu.options == old(self)@.menu.options,
            },
    {
        self.menu.replace_option(old_item, new_item);
    }

    /// Whether a resolution request should be issued for the focused
    /// candidate: the popup is open, the focus rests on a server candidate
    /// that is still unresolved, the server is still registered, and it
    /// advertises resolve support. The request itself is the caller's to
    /// issue; its completion comes back through [`Self::replace_item`].
    pub fn ensure_item_resolved(&self, server_known: bool, resolve_supported: bool) -> (r: bool)
        requires
            self@.wf(),
        ensures
            r == ({
                &&& self@.state is Open
                &&& match self@.focused() {
                    Some(it) => is_unresolved_lsp(it),
                    None => false,
                }
                &&& server_known
                &&& resolve_supported
            }),
    {
        match self.state {
            LifecycleState::Open => {},
            _ => {
                return false;
            },
        }
        if !server_known || !resolve_supported {
            return false;
        }
        match self.menu.selection() {
            Some(it) => match it {
                CompletionItem::LSP { item, .. } => match &item.documentation {
                    None => true,
                    Some(_) => false,
                },
                CompletionItem::Path { .. } => false,
            },
            None => false,
        }
    }

    /// Handles one lifecycle event. Every transition of an open popup first
    /// restores the document to the savepoint, so previews never compound.
    /// `Update` then previews the focused candidate's edit; `Validate`
    /// commits it, applying additional edits after the primary edit or
    /// handing resolution off to the caller; `Abort` leaves the document at
    /// the savepoint and discards the candidates. Synthesis failure no-ops
    /// the step at the restored baseline. Events on a closed popup change
    /// nothing.
    pub fn on_event(
        &mut self,
        doc: &mut Vec<char>,
        event: PromptEvent,
        resolve_supported: bool,
    ) -> (r: Result<EventResponse, SynthesisFailed>)
        requires
            old(self)@.wf(),
        ensures
            final(self)@.wf(),
            match event {
                PromptEvent::Update => ({
                    let st = step_update(old(self)@, old(doc)@);
                    &&& final(self)@ == old(self)@
                    &&& final(doc)@ == st.doc
                    &&& (r is Ok <==> st.ok)
                    &&& match r {
                        Ok(resp) => resp.action.deep_view() == st.action && resp.follow_up
                            is Nothing,
                        Err(_) => true,
                    }
                }),
                PromptEvent::Validate => ({
                    let st = step_validate(old(self)@, old(doc)@, resolve_supported);
                    &&& final(self)@ == st.post
                    &&& final(doc)@ == st.doc
                    &&& (r is Ok <==> st.ok)
                    &&& match r {
                        Ok(resp) => resp.action.deep_view() == st.action
                            && resp.follow_up.deep_view() == st.follow_up,
                        Err(_) => true,
                    }
                }),
                PromptEvent::Abort => ({
                    let st = step_abort(old(self)@, old(doc)@);
                    &&& final(self)@ == st.0
                    &&& final(doc)@ == st.1
                    &&& match r {
                        Ok(resp) => resp.action is None && resp.follow_up is Nothing,
                        Err(_) => false,
                    }
                }),
            },
    {
        match self.state {
            LifecycleState::Open => {},
            _ => {
                return Ok(EventResponse { action: None, follow_up: FollowUp::Nothing });
            },
        }
        match event {
            PromptEvent::Abort => {
                *doc = clone_chars(&self.savepoint);
                self.menu.clear();
                self.state = LifecycleState::Aborted;
                Ok(EventResponse { action: None, follow_up: FollowUp::Nothing })
            },
            PromptEvent::Update => {
                *doc = clone_chars(&self.savepoint);
                let tx = match self.menu.selection() {
                    None => {
                        return Ok(EventResponse { action: None, follow_up: FollowUp::Nothing });
                    },
                    Some(item) => {
                        match item_to_transaction(doc, self.start_offset, self.trigger_offset, item) {
                            Ok(tx) => tx,
                            Err(e) => {
                                return Err(e);
                            },
                        }
                    },
                };
                let changes = completion_changes(&tx, self.trigger_offset);
                proof {
                    lemma_synth_valid(
                        self@.savepoint,
                        self@.start_offset,
                        self@.trigger_offset,
                        self@.focused().unwrap(),
                    );
                }
                match apply_to(doc, &tx) {
                    Some(out) => {
                        *doc = out;
                        Ok(
                            EventResponse {
                                action: Some(
                                    CompleteAction { trigger_offset: self.trigger_offset, changes },
                                ),
                                follow_up: FollowUp::Nothing,
                            },
                        )
                    },
                    None => {
                        proof {
                            assert(false);
                        }
                        Err(SynthesisFailed)
                    },
                }
            },
            PromptEvent::Validate => {
                *doc = clone_chars(&self.savepoint);
                let (tx, additional, follow_up) = match self.menu.selection() {
                    None => {
                        return Ok(EventResponse { action: None, follow_up: FollowUp::Nothing });
                    },
                    Some(item) => {
                        let tx = match item_to_transaction(
                            doc,
                            self.start_offset,
                            self.trigger_offset,
                            item,
                        ) {
                            Ok(tx) => tx,
                            Err(e) => {
                                return Err(e);
                            },
                        };
                        let (additional, follow_up) = match item {
                            CompletionItem::LSP { language_server_id, item: it, .. } => {
                                match &it.additional_text_edits {
                                    Some(es) if es.len() > 0 => (
                                        Some(clone_edits(es)),
                                        FollowUp::Nothing,
                                    ),
                                    _ => {
                                        let unresolved = match &it.documentation {
                                            None => true,
                                            Some(_) => false,
                                        };
                                        if resolve_supported && unresolved {
                                            (
                                                None,
                                                FollowUp::Resolve {
                                                    language_server_id: *language_server_id,
                                                    item: clone_lsp_item(it),
                                                },
                                            )
                                        } else {
                                            (None, FollowUp::Nothing)
                                        }
                                    },
                                }
                            },
                            CompletionItem::Path { .. } => (None, FollowUp::Nothing),
                        };
                        (tx, additional, follow_up)
                    },
                };
                let changes = completion_changes(&tx, self.trigger_offset);
                proof {
                    lemma_synth_valid(
                        self@.savepoint,
                        self@.start_offset,
                        self@.trigger_offset,
                        self@.focused().unwrap(),
                    );
                }
                match apply_to(doc, &tx) {
                    Some(out) => {
                        *doc = out;
                    },
                    None => {
                        proof {
                            assert(false);
                        }
                        return Err(SynthesisFailed);
                    },
                }
                match &additional {
                    Some(es) => {
                        let atx = edits_to_transaction(es);
                        if overlaps_any_primary(&tx.changes[0], &atx) {
                            *doc = clone_chars(&self.savepoint);
                            return Err(SynthesisFailed);
                        }
                        match apply_to(doc, &atx) {
                            Some(out2) => {
                                *doc = out2;
                            },
                            None => {
                                *doc = clone_chars(&self.savepoint);
                                return Err(SynthesisFailed);
                            },
                        }
                    },
                    None => {},
                }
                self.menu.clear();
                self.state = LifecycleState::Committed;
                Ok(
                    EventResponse {
                        action: Some(
                            CompleteAction { trigger_offset: self.trigger_offset, changes },
                        ),
                        follow_up,
                    },
                )
            },
        }
    }
}

} // verus!
