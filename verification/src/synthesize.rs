//! The edit synthesizer: a pure function from document snapshot, anchor and
//! focused candidate to the transaction that applies the candidate. It never
//! mutates the document.

use vstd::prelude::*;

use crate::candidate::{CompletionItem, CompletionItemV, ServerEdit, ServerEditV, TextEditV};
use crate::text::{
    copy_range, ends_with_slash, file_name, file_name_spec, has_trailing_slash, line_start_at,
    line_start_spec, path_token_start, path_token_start_spec, strip_prefix, strip_prefix_spec,
};
use crate::transaction::{changes_valid, Change, ChangeV, Transaction};

verus! {

broadcast use crate::text::lemma_chars_deep_view;

/// The synthesizer could not build an edit for the focused candidate: the
/// line before the cursor holds no path-like token, or the candidate carries
/// a malformed explicit edit.
#[derive(Debug, Clone, Copy, PartialEq, Eq, Structural)]
pub struct SynthesisFailed;

/// A change that inserts `t` at `pos` without deleting anything.
pub open spec fn insert_at(pos: int, t: Seq<char>) -> ChangeV {
    ChangeV { start: pos, end: pos, text: Some(t) }
}

/// The transaction for an explicit replace range: the range is used verbatim
/// when it is well-formed for the document, and is malformed otherwise.
pub open spec fn replace_change(doc: Seq<char>, e: TextEditV) -> Option<Seq<ChangeV>> {
    if 0 <= e.start && e.start <= e.end && e.end <= doc.len() {
        Some(seq![ChangeV { start: e.start, end: e.end, text: Some(e.new_text) }])
    } else {
        None
    }
}

/// The transaction that applies `item` to `doc` for the anchor
/// `(start, trigger)`, or `None` when synthesis fails.
///
/// A server candidate with an explicit edit uses its replace range verbatim
/// (of an insert-and-replace pair only the replace range is used). One with
/// no explicit edit takes its insert text, its label when it names none,
/// strips the already-typed fragment `doc[start..trigger]` from the front
/// when it stands there, and inserts the remainder at the trigger: an
/// insert-only edit. A path candidate scans the current line for the trailing
/// path-like token before the trigger, takes that token's final path
/// component as the already-typed prefix — with a separator appended when the
/// candidate's full path ends in one — and inserts the candidate's file name
/// with that prefix stripped.
pub open spec fn synth_spec(
    doc: Seq<char>,
    start: int,
    trigger: int,
    item: CompletionItemV,
) -> Option<Seq<ChangeV>>
    recommends
        0 <= start <= trigger <= doc.len(),
{
    match item {
        CompletionItemV::LSP { item: it, .. } => match it.text_edit {
            Some(ServerEditV::Replace(e)) => replace_change(doc, e),
            Some(ServerEditV::InsertAndReplace { replace, .. }) => replace_change(doc, replace),
            None => {
                let t = match it.insert_text {
                    Some(t) => t,
                    None => it.label,
                };
                Some(seq![insert_at(trigger, strip_prefix_spec(t, doc.subrange(start, trigger)))])
            },
        },
        CompletionItemV::Path { path, .. } => {
            let ls = line_start_spec(doc, trigger);
            match path_token_start_spec(doc, ls, trigger) {
                None => None,
                Some(i) => {
                    let token = doc.subrange(i, trigger);
                    let typed = if ends_with_slash(path) {
                        file_name_spec(token).push('/')
                    } else {
                        file_name_spec(token)
                    };
                    Some(
                        seq![
                            insert_at(trigger, strip_prefix_spec(file_name_spec(path), typed)),
                        ],
                    )
                },
            }
        },
    }
}

/// A synthesized transaction always holds exactly one change and is valid
/// for the document it was synthesized against.
pub proof fn lemma_synth_valid(doc: Seq<char>, start: int, trigger: int, item: CompletionItemV)
    requires
        0 <= start <= trigger <= doc.len(),
        synth_spec(doc, start, trigger, item) is Some,
    ensures
        synth_spec(doc, start, trigger, item).unwrap().len() == 1,
        changes_valid(synth_spec(doc, start, trigger, item).unwrap(), doc.len() as int),
{
    let cs = synth_spec(doc, start, trigger, item).unwrap();
    assert(cs.len() == 1);
    assert(0 <= cs[0].start <= cs[0].end <= doc.len());
}

/// Builds the transaction that applies `item` at the anchor
/// `(start_offset, trigger_offset)` against `doc`.
pub fn item_to_transaction(
    doc: &Vec<char>,
    start_offset: usize,
    trigger_offset: usize,
    item: &CompletionItem,
) -> (r: Result<Transaction, SynthesisFailed>)
    requires
        start_offset <= trigger_offset <= doc@.len(),
    ensures
        match r {
            Ok(tx) => synth_spec(
                doc@,
                start_offset as int,
                trigger_offset as int,
                item.deep_view(),
            ) == Some(tx@),
            Err(_) => synth_spec(
                doc@,
                start_offset as int,
                trigger_offset as int,
                item.deep_view(),
            ) is None,
        },
{
    match item {
        CompletionItem::LSP { item: it, .. } => match &it.text_edit {
            Some(edit) => {
                let e = match edit {
                    ServerEdit::Replace(e) => e,
                    ServerEdit::InsertAndReplace { replace, .. } => replace,
                };
                if e.start <= e.end && e.end <= doc.len() {
                    let text = crate::text::clone_chars(&e.new_text);
                    let change = Change { start: e.start, end: e.end, text: Some(text) };
                    let tx = Transaction { changes: vec![change] };
                    proof {
                        assert(tx@ =~= seq![
                            ChangeV { start: e.start as int, end: e.end as int, text: Some(e@.new_text) },
                        ]);
                    }
                    Ok(tx)
                } else {
                    Err(SynthesisFailed)
                }
            },
            None => {
                let t = match &it.insert_text {
                    Some(t) => t,
                    None => &it.label,
                };
                let prefix = copy_range(doc, start_offset, trigger_offset);
                let text = strip_prefix(t, &prefix);
                let change = Change {
                    start: trigger_offset,
                    end: trigger_offset,
                    text: Some(text),
                };
                let tx = Transaction { changes: vec![change] };
                proof {
                    assert(tx@ =~= seq![
                        insert_at(
                            trigger_offset as int,
                            strip_prefix_spec(
                                t.deep_view(),
                                doc@.subrange(start_offset as int, trigger_offset as int),
                            ),
                        ),
                    ]);
                }
                Ok(tx)
            },
        },
        CompletionItem::Path { path, .. } => {
            let ls = line_start_at(doc, trigger_offset);
            match path_token_start(doc, ls, trigger_offset) {
                None => Err(SynthesisFailed),
                Some(i) => {
                    let token = copy_range(doc, i, trigger_offset);
                    let mut typed = file_name(&token);
                    if has_trailing_slash(path) {
                        typed.push('/');
                    }
                    let head = file_name(path);
                    let text = strip_prefix(&head, &typed);
                    let change = Change {
                        start: trigger_offset,
                        end: trigger_offset,
                        text: Some(text),
                    };
                    let tx = Transaction { changes: vec![change] };
                    proof {
                        let pathv = path.deep_view();
                        let tokenv = doc@.subrange(i as int, trigger_offset as int);
                        let typedv = if ends_with_slash(pathv) {
                            file_name_spec(tokenv).push('/')
                        } else {
                            file_name_spec(tokenv)
                        };
                        assert(typed@ == typedv);
                        assert(tx@ =~= seq![
                            insert_at(
                                trigger_offset as int,
                                strip_prefix_spec(file_name_spec(pathv), typedv),
                            ),
                        ]);
                    }
                    Ok(tx)
                },
            }
        },
    }
}

/// True when `c` touches the trigger offset `t`.
pub open spec fn overlaps_trigger(c: ChangeV, t: int) -> bool {
    c.start <= t <= c.end
}

/// The changes of `cs` that touch the trigger offset `t`, in order.
pub open spec fn changes_overlapping(cs: Seq<ChangeV>, t: int) -> Seq<ChangeV>
    decreases cs.len(),
{
    if cs.len() == 0 {
        Seq::empty()
    } else {
        let rest = changes_overlapping(cs.drop_last(), t);
        if overlaps_trigger(cs.last(), t) {
            rest.push(cs.last())
        } else {
            rest
        }
    }
}

/// The changes of a synthesized transaction that overlap the trigger offset:
/// the "last completion" context handed to auto-pairing and indent
/// collaborators.
pub fn completion_changes(tx: &Transaction, trigger_offset: usize) -> (r: Vec<Change>)
    ensures
        r.deep_view() == changes_overlapping(tx@, trigger_offset as int),
{
    let mut r: Vec<Change> = Vec::new();
    let mut i: usize = 0;
    proof {
        assert(tx@.take(0) =~= Seq::<ChangeV>::empty());
        assert(r.deep_view() =~= changes_overlapping(tx@.take(0), trigger_offset as int));
    }
    while i < tx.changes.len()
        invariant
            i <= tx.changes@.len() == tx@.len(),
            r.deep_view() == changes_overlapping(tx@.take(i as int), trigger_offset as int),
        decreases tx.changes.len() - i,
    {
        let c = &tx.changes[i];
        let ghost before = r.deep_view();
        proof {
            assert(tx@.take(i as int + 1).drop_last() =~= tx@.take(i as int));
            assert(tx@.take(i as int + 1).last() == tx@[i as int]);
        }
        if c.start <= trigger_offset && trigger_offset <= c.end {
            r.push(crate::candidate::clone_change(c));
            proof {
                assert(r.deep_view() =~= before.push(tx@[i as int]));
            }
        }
        i += 1;
    }
    proof {
        assert(tx@.take(tx@.len() as int) =~= tx@);
    }
    r
}

} // verus!
