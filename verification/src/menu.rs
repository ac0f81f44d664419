//! The candidate store behind the popup: the backing list of candidates, the
//! currently visible (matching) indices, and the selection pointer. Candidate
//! objects are retained in the backing store; filtering only changes
//! visibility, so widening the typed fragment can re-admit candidates without
//! querying the provider again.

use vstd::prelude::*;

use crate::candidate::{clone_item, eq_item, CompletionItem, CompletionItemV, filter_key};
use crate::text::{is_subseq_of, subseq_match};

verus! {

broadcast use crate::text::lemma_chars_deep_view;

/// The indices of the candidates in `opts` whose filter key the fragment
/// `pat` matches, in increasing order. A candidate matches when `pat` is a
/// subsequence of its filter key; among matches the pre-scoring order is
/// kept, so ties leave the arrival order intact.
pub open spec fn matching_indices(opts: Seq<CompletionItemV>, pat: Seq<char>) -> Seq<int>
    decreases opts.len(),
{
    if opts.len() == 0 {
        Seq::empty()
    } else {
        let rest = matching_indices(opts.drop_last(), pat);
        if is_subseq_of(pat, filter_key(opts.last())) {
            rest.push(opts.len() - 1)
        } else {
            rest
        }
    }
}

/// The matching indices are exactly the in-range indices whose candidate the
/// fragment matches.
pub proof fn lemma_matching_indices(opts: Seq<CompletionItemV>, pat: Seq<char>)
    ensures
        forall|k: int|
            0 <= k < matching_indices(opts, pat).len() ==> {
                let j = #[trigger] matching_indices(opts, pat)[k];
                0 <= j < opts.len() && is_subseq_of(pat, filter_key(opts[j]))
            },
        forall|j: int|
            0 <= j < opts.len() && is_subseq_of(pat, filter_key(#[trigger] opts[j]))
                ==> matching_indices(opts, pat).contains(j),
    decreases opts.len(),
{
    if opts.len() > 0 {
        lemma_matching_indices(opts.drop_last(), pat);
        let rest = matching_indices(opts.drop_last(), pat);
        let m = matching_indices(opts, pat);
        assert forall|j: int|
            0 <= j < opts.len() && is_subseq_of(pat, filter_key(opts[j])) implies m.contains(
            j,
        ) by {
            if j < opts.len() - 1 {
                assert(opts.drop_last()[j] == opts[j]);
                assert(rest.contains(j));
                let k = choose|k: int| 0 <= k < rest.len() && rest[k] == j;
                assert(m[k] == j);
            } else {
                assert(opts.last() == opts[j]);
                assert(m.last() == j);
            }
        }
    }
}

/// The visible indices as mathematical integers.
pub open spec fn idx_view(v: Seq<usize>) -> Seq<int> {
    v.map_values(|u: usize| u as int)
}

/// The mathematical state of the candidate store.
pub ghost struct MenuV {
    pub options: Seq<CompletionItemV>,
    pub visible: Seq<int>,
    pub cursor: Option<int>,
    pub pattern: Seq<char>,
}

impl MenuV {
    /// Structural well-formedness: every visible index points into the
    /// backing store, and the selection pointer, when set, points at a
    /// visible candidate.
    pub open spec fn wf(self) -> bool {
        &&& forall|k: int|
            0 <= k < self.visible.len() ==> 0 <= #[trigger] self.visible[k] < self.options.len()
        &&& match self.cursor {
            Some(c) => self.visible.contains(c),
            None => true,
        }
    }

    /// The candidate the selection pointer rests on, if any.
    pub open spec fn selected(self) -> Option<CompletionItemV> {
        match self.cursor {
            Some(c) => if 0 <= c < self.options.len() {
                Some(self.options[c])
            } else {
                None
            },
            None => None,
        }
    }
}

/// The candidate store.
pub struct Menu {
    options: Vec<CompletionItem>,
    visible: Vec<usize>,
    cursor: Option<usize>,
    pattern: Vec<char>,
}

impl View for Menu {
    type V = MenuV;

    closed spec fn view(&self) -> MenuV {
        MenuV {
            options: self.options.deep_view(),
            visible: idx_view(self.visible@),
            cursor: match self.cursor {
                Some(c) => Some(c as int),
                None => None,
            },
            pattern: self.pattern@,
        }
    }
}

/// Computes the visible indices for `options` under the fragment `pattern`.
fn compute_visible(options: &Vec<CompletionItem>, pattern: &Vec<char>) -> (r: Vec<usize>)
    ensures
        idx_view(r@) == matching_indices(options.deep_view(), pattern@),
{
    let mut r: Vec<usize> = Vec::new();
    let mut i: usize = 0;
    proof {
        assert(options.deep_view().take(0) =~= Seq::<CompletionItemV>::empty());
        assert(idx_view(r@) =~= matching_indices(options.deep_view().take(0), pattern@));
    }
    while i < options.len()
        invariant
            i <= options@.len(),
            options.deep_view().len() == options@.len(),
            idx_view(r@) == matching_indices(options.deep_view().take(i as int), pattern@),
        decreases options.len() - i,
    {
        let ghost opts = options.deep_view();
        let ghost before = idx_view(r@);
        proof {
            assert(opts.take(i as int + 1).drop_last() =~= opts.take(i as int));
            assert(opts.take(i as int + 1).last() == opts[i as int]);
        }
        let key = (&options[i]).filter_text();
        if subseq_match(pattern, &key) {
            r.push(i);
            proof {
                assert(idx_view(r@) =~= before.push(i as int));
            }
        }
        i += 1;
    }
    proof {
        assert(options.deep_view().take(options@.len() as int) =~= options.deep_view());
    }
    r
}

/// Decides whether `x` occurs in `v`.
fn contains_index(v: &Vec<usize>, x: usize) -> (r: bool)
    ensures
        r == idx_view(v@).contains(x as int),
{
    let mut i: usize = 0;
    while i < v.len()
        invariant
            i <= v@.len() == idx_view(v@).len(),
            forall|k: int| 0 <= k < i ==> idx_view(v@)[k] != x as int,
        decreases v.len() - i,
    {
        if v[i] == x {
            proof {
                assert(idx_view(v@).contains(x as int)) by {
                    assert(0 <= (i as int) && (i as int) < idx_view(v@).len());
                    assert(idx_view(v@)[i as int] == x as int);
                }
            }
            return true;
        }
        i += 1;
    }
    proof {
        assert(!idx_view(v@).contains(x as int)) by {
            assert(forall|k: int| 0 <= k < idx_view(v@).len() ==> idx_view(v@)[k] != x as int);
        }
    }
    false
}

/// Where the selection pointer lands after a rescore: a preserved pointer
/// that still matches keeps its slot; otherwise the first visible candidate
/// is focused, or nothing when the visible list is empty.
pub open spec fn rescored_cursor(
    old_cursor: Option<int>,
    preserve: bool,
    vis: Seq<int>,
) -> Option<int> {
    if preserve && old_cursor is Some && vis.contains(old_cursor.unwrap()) {
        old_cursor
    } else if vis.len() > 0 {
        Some(vis[0])
    } else {
        None
    }
}

impl Menu {
    /// Creates a store over `options`, scored at once against `pattern`.
    pub fn new(options: Vec<CompletionItem>, pattern: Vec<char>) -> (r: Menu)
        ensures
            r@.wf(),
            r@.options == options.deep_view(),
            r@.pattern == pattern@,
            r@.visible == matching_indices(options.deep_view(), pattern@),
            r@.cursor == rescored_cursor(None, false, r@.visible),
    {
        let visible = compute_visible(&options, &pattern);
        let cursor = if visible.len() > 0 {
            Some(visible[0])
        } else {
            None
        };
        let r = Menu { options, visible, cursor, pattern };
        proof {
            lemma_matching_indices(r@.options, r@.pattern);
            if r@.visible.len() > 0 {
                assert(r@.visible.contains(r@.visible[0]));
            }
        }
        r
    }

    /// Rescores with a new fragment: recomputes visibility over the backing
    /// store and moves the selection per [`rescored_cursor`].
    pub fn score(&mut self, pattern: Vec<char>, preserve_focus: bool)
        ensures
            final(self)@.wf(),
            final(self)@.options == old(self)@.options,
            final(self)@.pattern == pattern@,
            final(self)@.visible == matching_indices(old(self)@.options, pattern@),
            final(self)@.cursor == rescored_cursor(
                old(self)@.cursor,
                preserve_focus,
                final(self)@.visible,
            ),
    {
        let visible = compute_visible(&self.options, &pattern);
        let cursor = match self.cursor {
            Some(c) if preserve_focus => {
                if contains_index(&visible, c) {
                    Some(c)
                } else if visible.len() > 0 {
                    Some(visible[0])
                } else {
                    None
                }
            },
            _ => {
                if visible.len() > 0 {
                    Some(visible[0])
                } else {
                    None
                }
            },
        };
        self.visible = visible;
        self.cursor = cursor;
        self.pattern = pattern;
        proof {
            lemma_matching_indices(self@.options, self@.pattern);
            if self@.visible.len() > 0 {
                assert(self@.visible.contains(self@.visible[0]));
            }
        }
    }

    /// Empties the store: every candidate is discarded and nothing is
    /// visible or selected. The fragment is kept.
    pub fn clear(&mut self)
        ensures
            final(self)@.wf(),
            final(self)@.options == Seq::<CompletionItemV>::empty(),
            final(self)@.visible == Seq::<int>::empty(),
            final(self)@.cursor is None,
            final(self)@.pattern == old(self)@.pattern,
    {
        self.options = Vec::new();
        self.visible = Vec::new();
        self.cursor = None;
        proof {
            assert(self@.options =~= Seq::<CompletionItemV>::empty());
            assert(self@.visible =~= Seq::<int>::empty());
        }
    }

    /// Appends candidates to the backing store, rescoring against the
    /// current fragment. An existing selection keeps its slot; with none,
    /// the first visible candidate is focused.
    pub fn add_options(&mut self, more: &Vec<CompletionItem>)
        requires
            old(self)@.wf(),
        ensures
            final(self)@.wf(),
            final(self)@.options == old(self)@.options + more.deep_view(),
            final(self)@.pattern == old(self)@.pattern,
            final(self)@.visible == matching_indices(final(self)@.options, old(self)@.pattern),
            final(self)@.cursor == rescored_cursor(
                old(self)@.cursor,
                true,
                final(self)@.visible,
            ),
    {
        let ghost old_opts = self.options.deep_view();
        let mut i: usize = 0;
        while i < more.len()
            invariant
                i <= more@.len(),
                more.deep_view().len() == more@.len(),
                self.options.deep_view() == old_opts + more.deep_view().take(i as int),
                self.visible == old(self).visible,
                self.cursor == old(self).cursor,
                self.pattern == old(self).pattern,
            decreases more.len() - i,
        {
            let ghost before = self.options.deep_view();
            self.options.push(clone_item(&more[i]));
            proof {
                assert(self.options.deep_view() =~= before.push(more.deep_view()[i as int]));
                assert(before.push(more.deep_view()[i as int]) =~= old_opts + more.deep_view().take(
                    i as int + 1,
                ));
            }
            i += 1;
        }
        proof {
            assert(more.deep_view().take(more@.len() as int) =~= more.deep_view());
        }
        let visible = compute_visible(&self.options, &self.pattern);
        let cursor = match self.cursor {
            Some(c) => {
                if contains_index(&visible, c) {
                    Some(c)
                } else if visible.len() > 0 {
                    Some(visible[0])
                } else {
                    None
                }
            },
            None => {
                if visible.len() > 0 {
                    Some(visible[0])
                } else {
                    None
                }
            },
        };
        self.visible = visible;
        self.cursor = cursor;
        proof {
            lemma_matching_indices(self@.options, self@.pattern);
            if self@.visible.len() > 0 {
                assert(self@.visible.contains(self@.visible[0]));
            }
        }
    }

    /// The candidate the selection rests on, if any.
    pub fn selection(&self) -> (r: Option<&CompletionItem>)
        requires
            self@.wf(),
        ensures
            match r {
                Some(it) => self@.selected() == Some(it.deep_view()),
                None => self@.selected() is None,
            },
    {
        match self.cursor {
            Some(c) => {
                proof {
                    assert(self@.visible.contains(c as int));
                    let k = choose|k: int|
                        0 <= k < self@.visible.len() && self@.visible[k] == c as int;
                    assert(0 <= (c as int) && (c as int) < self@.options.len());
                }
                Some(&self.options[c])
            },
            None => None,
        }
    }

    /// Whether nothing is visible under the current fragment.
    pub fn is_empty(&self) -> (r: bool)
        ensures
            r == (self@.visible.len() == 0),
    {
        self.visible.len() == 0
    }

    /// The number of visible candidates.
    pub fn visible_len(&self) -> (r: usize)
        ensures
            r == self@.visible.len(),
    {
        self.visible.len()
    }

    /// The `i`-th visible candidate, in focus order.
    pub fn visible_item(&self, i: usize) -> (r: &CompletionItem)
        requires
            self@.wf(),
            i < self@.visible.len(),
        ensures
            r.deep_view() == self@.options[self@.visible[i as int]],
    {
        proof {
            assert(self@.visible[i as int] == self.visible@[i as int] as int);
            assert(0 <= self@.visible[i as int] < self@.options.len());
            assert(self@.options.len() == self.options@.len());
        }
        let j = self.visible[i];
        &self.options[j]
    }

    /// Replaces the first candidate that equals `old_item` by value with
    /// `new_item`, in place; a store that holds no such candidate stays
    /// unchanged. Visibility and the selection pointer are untouched either
    /// way, so a selection that referenced the replaced slot remains valid.
    pub fn replace_option(&mut self, old_item: &CompletionItem, new_item: CompletionItem)
        requires
            old(self)@.wf(),
        ensures
            final(self)@.wf(),
            final(self)@.visible == old(self)@.visible,
            final(self)@.cursor == old(self)@.cursor,
            final(self)@.pattern == old(self)@.pattern,
            match find_first_eq(old(self)@.options, old_item.deep_view(), 0) {
                Some(k) => final(self)@.options == old(self)@.options.update(
                    k,
                    new_item.deep_view(),
                ),
                None => final(self)@.options == old(self)@.options,
            },
    {
        let ghost ov = old_item.deep_view();
        let mut i: usize = 0;
        while i < self.options.len()
            invariant
                i <= self.options@.len(),
                self.options.deep_view().len() == self.options@.len(),
                self@ == old(self)@,
                old(self)@.wf(),
                ov == old_item.deep_view(),
                find_first_eq(old(self)@.options, ov, 0) == find_first_eq(
                    old(self)@.options,
                    ov,
                    i as int,
                ),
            decreases self.options.len() - i,
        {
            let cur = &self.options[i];
            let hit = eq_item(cur, old_item);
            proof {
                assert(*cur == self.options@[i as int]);
                assert(hit == (cur.deep_view() == ov));
            }
            if hit {
                let ghost before = self.options.deep_view();
                proof {
                    assert(before[i as int] == self.options@[i as int].deep_view());
                    assert(before[i as int] == ov);
                    assert(find_first_eq(old(self)@.options, ov, i as int) == Some(i as int));
                }
                self.options.set(i, new_item);
                proof {
                    assert(self.options.deep_view() =~= before.update(
                        i as int,
                        new_item.deep_view(),
                    ));
                    assert(self@.visible == old(self)@.visible);
                    assert(self@.cursor == old(self)@.cursor);
                    assert(self@.options.len() == old(self)@.options.len());
                    assert(self@.wf());
                }
                return ;
            }
            proof {
                assert(old(self)@.options[i as int] == self.options@[i as int].deep_view());
            }
            i += 1;
        }
    }
}

/// The position of the first element of `s` from `i` on that equals `ov`.
pub open spec fn find_first_eq(s: Seq<CompletionItemV>, ov: CompletionItemV, i: int) -> Option<int>
    decreases s.len() - i when 0 <= i <= s.len()
{
    if i >= s.len() {
        None
    } else if s[i] == ov {
        Some(i)
    } else {
        find_first_eq(s, ov, i + 1)
    }
}

} // verus!
