//! Character-sequence primitives shared by the filter controller and the edit
//! synthesizer: subsequence matching, prefix stripping, line and path-token
//! scanning, and final path components.

use vstd::prelude::*;

verus! {

/// A character vector abstracts to the sequence of its characters; its deep
/// view says the same thing elementwise. This bridges the two forms.
pub broadcast proof fn lemma_chars_deep_view(v: Vec<char>)
    ensures
        #[trigger] v.deep_view() == v@,
{
    assert(v.deep_view() =~= v@);
}

/// True when `pat` occurs, in order but not necessarily contiguously, within
/// `key`. This is the match predicate the filter controller scores candidates
/// with: every character the user typed must appear, in order, in the
/// candidate's filter key.
pub open spec fn is_subseq_of(pat: Seq<char>, key: Seq<char>) -> bool
    decreases pat.len() + key.len(),
{
    if pat.len() == 0 {
        true
    } else if key.len() == 0 {
        false
    } else if pat[0] == key[0] {
        is_subseq_of(pat.skip(1), key.skip(1))
    } else {
        is_subseq_of(pat, key.skip(1))
    }
}

/// Greedy two-pointer check that `pat@` is a subsequence of `key@`.
pub fn subseq_match(pat: &Vec<char>, key: &Vec<char>) -> (r: bool)
    ensures
        r == is_subseq_of(pat@, key@),
{
    proof {
        assert(pat@.skip(0) =~= pat@);
        assert(key@.skip(0) =~= key@);
    }
    let mut i: usize = 0;
    let mut j: usize = 0;
    while i < pat.len() && j < key.len()
        invariant
            i <= pat.len(),
            j <= key.len(),
            is_subseq_of(pat@, key@) == is_subseq_of(pat@.skip(i as int), key@.skip(j as int)),
        decreases key.len() - j,
    {
        proof {
            assert(pat@.skip(i as int).skip(1) =~= pat@.skip(i as int + 1));
            assert(key@.skip(j as int).skip(1) =~= key@.skip(j as int + 1));
        }
        if pat[i] == key[j] {
            i += 1;
        }
        j += 1;
    }
    proof {
        if i == pat.len() {
            assert(pat@.skip(i as int).len() == 0);
        } else {
            assert(key@.skip(j as int).len() == 0);
            assert(pat@.skip(i as int).len() > 0);
        }
    }
    i == pat.len()
}

/// True when `pre` is a prefix of `s`.
pub open spec fn is_prefix_of(pre: Seq<char>, s: Seq<char>) -> bool {
    pre.len() <= s.len() && pre == s.subrange(0, pre.len() as int)
}

/// Checks whether `pre@` is a prefix of `s@`.
pub fn starts_with(s: &Vec<char>, pre: &Vec<char>) -> (r: bool)
    ensures
        r == is_prefix_of(pre@, s@),
{
    if pre.len() > s.len() {
        return false;
    }
    let mut i: usize = 0;
    while i < pre.len()
        invariant
            i <= pre.len() <= s.len(),
            forall|k: int| 0 <= k < i ==> pre@[k] == s@[k],
        decreases pre.len() - i,
    {
        if pre[i] != s[i] {
            assert(pre@ != s@.subrange(0, pre@.len() as int)) by {
                assert(s@.subrange(0, pre@.len() as int)[i as int] == s@[i as int]);
            }
            return false;
        }
        i += 1;
    }
    proof {
        assert(pre@ =~= s@.subrange(0, pre@.len() as int));
    }
    true
}

/// Copies `v[from..to]` into a fresh vector.
pub fn copy_range(v: &Vec<char>, from: usize, to: usize) -> (r: Vec<char>)
    requires
        from <= to <= v@.len(),
    ensures
        r@ == v@.subrange(from as int, to as int),
{
    let mut r: Vec<char> = Vec::new();
    let mut i: usize = from;
    while i < to
        invariant
            from <= i <= to <= v@.len(),
            r@ =~= v@.subrange(from as int, i as int),
        decreases to - i,
    {
        r.push(v[i]);
        proof {
            assert(v@.subrange(from as int, i as int + 1) =~= v@.subrange(
                from as int,
                i as int,
            ).push(v@[i as int]));
        }
        i += 1;
    }
    proof {
        assert(r@ =~= v@.subrange(from as int, to as int));
    }
    r
}

/// Copies a whole character vector.
pub fn clone_chars(v: &Vec<char>) -> (r: Vec<char>)
    ensures
        r@ == v@,
{
    let r = copy_range(v, 0, v.len());
    proof {
        assert(v@.subrange(0, v@.len() as int) =~= v@);
    }
    r
}

/// `text` with `pre` removed from its front when `pre` is a prefix of it,
/// `text` unchanged otherwise. Stripping happens once, never repeatedly.
pub open spec fn strip_prefix_spec(text: Seq<char>, pre: Seq<char>) -> Seq<char> {
    if is_prefix_of(pre, text) {
        text.skip(pre.len() as int)
    } else {
        text
    }
}

/// Removes `pre@` from the front of `text@` when it stands there.
pub fn strip_prefix(text: &Vec<char>, pre: &Vec<char>) -> (r: Vec<char>)
    ensures
        r@ == strip_prefix_spec(text@, pre@),
{
    if starts_with(text, pre) {
        let r = copy_range(text, pre.len(), text.len());
        proof {
            assert(text@.subrange(pre@.len() as int, text@.len() as int) =~= text@.skip(
                pre@.len() as int,
            ));
        }
        r
    } else {
        clone_chars(text)
    }
}

/// The start of the line that contains position `pos`: the offset just after
/// the last newline strictly before `pos`, or `0` when there is none.
pub open spec fn line_start_spec(doc: Seq<char>, pos: int) -> int
    recommends
        0 <= pos <= doc.len(),
    decreases pos,
{
    if pos <= 0 {
        0
    } else if doc[pos - 1] == '\n' {
        pos
    } else {
        line_start_spec(doc, pos - 1)
    }
}

/// Scans backward from `pos` to the start of its line.
pub fn line_start_at(doc: &Vec<char>, pos: usize) -> (r: usize)
    requires
        pos <= doc@.len(),
    ensures
        r == line_start_spec(doc@, pos as int),
        r <= pos,
{
    let mut p = pos;
    while p > 0 && doc[p - 1] != '\n'
        invariant
            p <= pos <= doc@.len(),
            line_start_spec(doc@, pos as int) == line_start_spec(doc@, p as int),
        decreases p,
    {
        p -= 1;
    }
    p
}

/// True when a path-like token can begin at offset `i` of `doc`, looking no
/// further than `hi`: the text there starts with `/`, `./` or `../`.
pub open spec fn path_token_at(doc: Seq<char>, i: int, hi: int) -> bool {
    ||| (i < hi && doc[i] == '/')
    ||| (i + 1 < hi && doc[i] == '.' && doc[i + 1] == '/')
    ||| (i + 2 < hi && doc[i] == '.' && doc[i + 1] == '.' && doc[i + 2] == '/')
}

/// The leftmost offset in `[lo, hi)` where a path-like token begins, if any.
/// The token itself then runs from that offset to `hi`.
pub open spec fn path_token_start_spec(doc: Seq<char>, lo: int, hi: int) -> Option<int>
    decreases hi - lo,
{
    if lo >= hi {
        None
    } else if path_token_at(doc, lo, hi) {
        Some(lo)
    } else {
        path_token_start_spec(doc, lo + 1, hi)
    }
}

/// Finds the leftmost start of a path-like token in `doc[lo..hi]`.
pub fn path_token_start(doc: &Vec<char>, lo: usize, hi: usize) -> (r: Option<usize>)
    requires
        lo <= hi <= doc@.len(),
    ensures
        match r {
            Some(i) => lo <= i < hi && path_token_start_spec(doc@, lo as int, hi as int) == Some(
                i as int,
            ),
            None => path_token_start_spec(doc@, lo as int, hi as int) is None,
        },
{
    let mut i = lo;
    while i < hi
        invariant
            lo <= i <= hi <= doc@.len(),
            path_token_start_spec(doc@, lo as int, hi as int) == path_token_start_spec(
                doc@,
                i as int,
                hi as int,
            ),
        decreases hi - i,
    {
        let slash_here = doc[i] == '/';
        let dot_slash = i + 1 < hi && doc[i] == '.' && doc[i + 1] == '/';
        let dot_dot_slash = hi - i > 2 && doc[i] == '.' && doc[i + 1] == '.' && doc[i + 2] == '/';
        if slash_here || dot_slash || dot_dot_slash {
            return Some(i);
        }
        i += 1;
    }
    None
}

/// The suffix of `p` after its last path separator (all of `p` when it holds
/// none).
pub open spec fn after_last_slash(p: Seq<char>) -> Seq<char>
    decreases p.len(),
{
    if p.len() == 0 {
        Seq::empty()
    } else if p.last() == '/' {
        Seq::empty()
    } else {
        after_last_slash(p.drop_last()).push(p.last())
    }
}

/// The final path component of `p`: trailing separators and trailing `.`
/// segments are ignored, and a path that ends in the parent marker `..` (or
/// holds no component at all) has none, yielding the empty sequence.
pub open spec fn file_name_spec(p: Seq<char>) -> Seq<char>
    decreases p.len(),
{
    if p.len() == 0 {
        Seq::empty()
    } else if p.last() == '/' {
        file_name_spec(p.drop_last())
    } else {
        let n = after_last_slash(p);
        if n == seq!['.'] {
            file_name_spec(p.drop_last())
        } else if n == seq!['.', '.'] {
            Seq::empty()
        } else {
            n
        }
    }
}

/// Computes the final path component of `p@`.
pub fn file_name(p: &Vec<char>) -> (r: Vec<char>)
    ensures
        r@ == file_name_spec(p@),
{
    let mut end = p.len();
    proof {
        assert(p@.take(p@.len() as int) =~= p@);
    }
    loop
        invariant
            end <= p@.len(),
            file_name_spec(p@) == file_name_spec(p@.take(end as int)),
        decreases end,
    {
        let ghost end0 = end;
        while end > 0 && p[end - 1] == '/'
            invariant
                end <= end0 <= p@.len(),
                file_name_spec(p@) == file_name_spec(p@.take(end as int)),
            decreases end,
        {
            proof {
                let cur = p@.take(end as int);
                assert(cur.last() == p@[end - 1]);
                assert(cur.drop_last() =~= p@.take(end as int - 1));
            }
            end -= 1;
        }
        if end == 0 {
            proof {
                assert(p@.take(0).len() == 0);
            }
            return Vec::new();
        }
        let mut start = end;
        proof {
            assert(after_last_slash(p@.take(end as int)) =~= after_last_slash(
                p@.take(end as int),
            ) + p@.subrange(end as int, end as int));
        }
        while start > 0 && p[start - 1] != '/'
            invariant
                start <= end <= p@.len(),
                after_last_slash(p@.take(end as int)) =~= after_last_slash(
                    p@.take(start as int),
                ) + p@.subrange(start as int, end as int),
            decreases start,
        {
            proof {
                let cur = p@.take(start as int);
                assert(cur.last() == p@[start - 1]);
                assert(cur.drop_last() =~= p@.take(start as int - 1));
                assert(after_last_slash(cur) == after_last_slash(cur.drop_last()).push(
                    p@[start - 1],
                ));
                assert(after_last_slash(p@.take(start as int - 1)) + p@.subrange(
                    start as int - 1,
                    end as int,
                ) =~= after_last_slash(p@.take(start as int)) + p@.subrange(
                    start as int,
                    end as int,
                ));
            }
            start -= 1;
        }
        proof {
            let cur = p@.take(start as int);
            if start == 0 {
                assert(cur.len() == 0);
                assert(after_last_slash(cur) =~= Seq::<char>::empty());
            } else {
                assert(cur.last() == p@[start - 1]);
                assert(after_last_slash(cur) =~= Seq::<char>::empty());
            }
            assert(after_last_slash(p@.take(end as int)) =~= p@.subrange(
                start as int,
                end as int,
            ));
        }
        let n = end - start;
        if n == 1 && p[start] == '.' {
            // A trailing `.` segment names the directory it stands in: drop
            // it and look further left.
            proof {
                let cur = p@.take(end as int);
                assert(cur.len() > 0 && cur.last() == p@[end - 1]);
                assert(after_last_slash(cur) =~= seq!['.']);
                assert(cur.drop_last() =~= p@.take(end as int - 1));
            }
            end -= 1;
        } else if n == 2 && p[start] == '.' && p[start + 1] == '.' {
            proof {
                let cur = p@.take(end as int);
                assert(cur.len() > 0 && cur.last() == p@[end - 1]);
                assert(after_last_slash(cur) =~= seq!['.', '.']);
            }
            return Vec::new();
        } else {
            let r = copy_range(p, start, end);
            proof {
                let cur = p@.take(end as int);
                let nm = after_last_slash(cur);
                assert(cur.len() > 0 && cur.last() == p@[end - 1]);
                assert(nm =~= p@.subrange(start as int, end as int));
                assert(nm != seq!['.'] && nm != seq!['.', '.']) by {
                    if nm == seq!['.'] {
                        assert(n == 1);
                        assert(p@.subrange(start as int, end as int)[0] == p@[start as int]);
                        assert(p@[start as int] == '.');
                    } else if nm == seq!['.', '.'] {
                        assert(n == 2);
                        assert(p@.subrange(start as int, end as int)[0] == p@[start as int]);
                        assert(p@.subrange(start as int, end as int)[1] == p@[start as int + 1]);
                        assert(p@[start as int] == '.');
                        assert(p@[start as int + 1] == '.');
                    }
                }
            }
            return r;
        }
    }
}

/// True when `p` ends with a path separator.
pub open spec fn ends_with_slash(p: Seq<char>) -> bool {
    p.len() > 0 && p.last() == '/'
}

/// Checks whether `p@` ends with a path separator.
pub fn has_trailing_slash(p: &Vec<char>) -> (r: bool)
    ensures
        r == ends_with_slash(p@),
{
    p.len() > 0 && p[p.len() - 1] == '/'
}

} // verus!

