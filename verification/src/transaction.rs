//! Transactions: ordered sets of non-overlapping `(start, end, replacement)`
//! edits describing one atomic mutation of the document. A replacement of
//! `None` deletes the range without inserting anything.

use vstd::prelude::*;

verus! {

/// One edit of a transaction, in character offsets of the document it is
/// applied to.
pub struct Change {
    pub start: usize,
    pub end: usize,
    pub text: Option<Vec<char>>,
}

/// Mathematical value of a [`Change`].
pub ghost struct ChangeV {
    pub start: int,
    pub end: int,
    pub text: Option<Seq<char>>,
}

impl View for Change {
    type V = ChangeV;

    open spec fn view(&self) -> ChangeV {
        ChangeV { start: self.start as int, end: self.end as int, text: self.text.deep_view() }
    }
}

impl DeepView for Change {
    type V = ChangeV;

    open spec fn deep_view(&self) -> ChangeV {
        self.view()
    }
}

/// What a change inserts: its replacement text, or nothing for a deletion.
pub open spec fn change_ins(c: ChangeV) -> Seq<char> {
    match c.text {
        Some(t) => t,
        None => Seq::empty(),
    }
}

/// An atomic mutation of the document.
pub struct Transaction {
    pub changes: Vec<Change>,
}

impl View for Transaction {
    type V = Seq<ChangeV>;

    open spec fn view(&self) -> Seq<ChangeV> {
        self.changes.deep_view()
    }
}

/// Changes are valid for a document of length `len` when each spans a
/// well-formed range inside the document and they come sorted and pairwise
/// non-overlapping.
pub open spec fn changes_valid(cs: Seq<ChangeV>, len: int) -> bool {
    &&& forall|i: int|
        0 <= i < cs.len() ==> 0 <= (#[trigger] cs[i]).start <= cs[i].end <= len
    &&& forall|i: int| 0 <= i < cs.len() - 1 ==> (#[trigger] cs[i]).end <= cs[i + 1].start
}

/// The document that results from applying `cs` to the part of `text` from
/// `pos` on, keeping `text[..pos]` out of view. Each change replaces
/// `text[start..end]` with its insertion; the stretches between changes are
/// kept.
pub open spec fn apply_from(text: Seq<char>, cs: Seq<ChangeV>, pos: int) -> Seq<char>
    recommends
        0 <= pos <= text.len(),
    decreases cs.len(),
{
    if cs.len() == 0 {
        text.skip(pos)
    } else {
        text.subrange(pos, cs[0].start) + change_ins(cs[0]) + apply_from(text, cs.skip(1), cs[0].end)
    }
}

/// The document that results from applying the whole transaction `cs` to
/// `text`.
pub open spec fn apply_changes(text: Seq<char>, cs: Seq<ChangeV>) -> Seq<char> {
    apply_from(text, cs, 0)
}

/// Checks that `tx@` is valid for a document of length `len`.
pub fn changes_are_valid(tx: &Transaction, len: usize) -> (r: bool)
    ensures
        r == changes_valid(tx@, len as int),
{
    let n = tx.changes.len();
    proof {
        assert(tx@.len() == n);
    }
    let mut i: usize = 0;
    while i < n
        invariant
            i <= n == tx@.len(),
            tx@.len() == tx.changes@.len(),
            forall|k: int| 0 <= k < tx@.len() ==> tx@[k] == tx.changes@[k]@,
            forall|k: int| 0 <= k < i ==> 0 <= (#[trigger] tx@[k]).start <= tx@[k].end <= len as int,
            forall|k: int|
                0 <= k < i && k < tx@.len() - 1 ==> (#[trigger] tx@[k]).end <= tx@[k + 1].start,
        decreases n - i,
    {
        let c = &tx.changes[i];
        if !(c.start <= c.end && c.end <= len) {
            return false;
        }
        if i + 1 < n {
            if tx.changes[i + 1].start < c.end {
                return false;
            }
            proof {
                assert(tx@[i as int + 1].start == tx.changes@[i as int + 1].start as int);
            }
        }
        proof {
            assert(tx@[i as int].start == c.start as int);
            assert(tx@[i as int].end == c.end as int);
        }
        i += 1;
    }
    true
}

/// Appends `src[from..to]` to `out`.
pub fn append_range(out: &mut Vec<char>, src: &Vec<char>, from: usize, to: usize)
    requires
        from <= to <= src@.len(),
    ensures
        final(out)@ == old(out)@ + src@.subrange(from as int, to as int),
{
    let mut j = from;
    while j < to
        invariant
            from <= j <= to <= src@.len(),
            out@ =~= old(out)@ + src@.subrange(from as int, j as int),
        decreases to - j,
    {
        out.push(src[j]);
        proof {
            assert(src@.subrange(from as int, j as int + 1) =~= src@.subrange(
                from as int,
                j as int,
            ).push(src@[j as int]));
        }
        j += 1;
    }
    proof {
        assert(out@ =~= old(out)@ + src@.subrange(from as int, to as int));
    }
}

/// Applies `tx` to `text`, returning the new document, or `None` when the
/// transaction is not valid for `text`. On success the result is exactly
/// [`apply_changes`] of the inputs.
pub fn apply_to(text: &Vec<char>, tx: &Transaction) -> (r: Option<Vec<char>>)
    ensures
        match r {
            Some(out) => changes_valid(tx@, text@.len() as int) && out@ == apply_changes(
                text@,
                tx@,
            ),
            None => !changes_valid(tx@, text@.len() as int),
        },
{
    if !changes_are_valid(tx, text.len()) {
        return None;
    }
    let n = tx.changes.len();
    let mut out: Vec<char> = Vec::new();
    let mut pos: usize = 0;
    let mut i: usize = 0;
    proof {
        assert(tx@.len() == n);
        assert(tx@.skip(0) =~= tx@);
    }
    while i < n
        invariant
            i <= n == tx@.len(),
            tx@.len() == tx.changes@.len(),
            forall|k: int| 0 <= k < tx@.len() ==> tx@[k] == tx.changes@[k]@,
            changes_valid(tx@, text@.len() as int),
            pos <= text@.len(),
            i < n ==> pos as int <= tx@[i as int].start,
            apply_changes(text@, tx@) == out@ + apply_from(text@, tx@.skip(i as int), pos as int),
        decreases n - i,
    {
        let ghost rest = tx@.skip(i as int);
        let ghost out0 = out@;
        let ghost pos0 = pos as int;
        proof {
            assert(rest[0] == tx@[i as int]);
            assert(rest.skip(1) =~= tx@.skip(i as int + 1));
        }
        let c = &tx.changes[i];
        append_range(&mut out, text, pos, c.start);
        match &c.text {
            Some(t) => {
                append_range(&mut out, t, 0, t.len());
                proof {
                    assert(t@.subrange(0, t@.len() as int) =~= t@);
                }
            },
            None => {},
        }
        proof {
            assert(out@ =~= out0 + (text@.subrange(pos0, c@.start) + change_ins(tx@[i as int])));
        }
        pos = c.end;
        i += 1;
        proof {
            assert(apply_from(text@, rest, pos0) == text@.subrange(pos0, rest[0].start)
                + change_ins(rest[0]) + apply_from(text@, rest.skip(1), rest[0].end));
            assert(out0 + apply_from(text@, rest, pos0) =~= (out0 + (text@.subrange(
                pos0,
                c@.start,
            ) + change_ins(tx@[i as int - 1]))) + apply_from(
                text@,
                tx@.skip(i as int),
                pos as int,
            ));
            assert(i < n ==> tx@[i as int - 1].end <= tx@[i as int].start);
        }
    }
    append_range(&mut out, text, pos, text.len());
    proof {
        assert(tx@.skip(n as int) =~= Seq::<ChangeV>::empty());
        assert(apply_from(text@, tx@.skip(n as int), pos as int) == text@.skip(pos as int));
        assert(text@.subrange(pos as int, text@.len() as int) =~= text@.skip(pos as int));
    }
    Some(out)
}

} // verus!
