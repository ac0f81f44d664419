//! Completion candidates: server-provided suggestions and filesystem-path
//! suggestions, together with the accessors the filter controller and the
//! synthesizer read, value equality, and deep copies.

use vstd::prelude::*;

use crate::text::{clone_chars, file_name, file_name_spec};
use crate::transaction::{Change, ChangeV};

verus! {

broadcast use crate::text::lemma_chars_deep_view;

/// What a filesystem-path candidate points at.
#[derive(Debug, Clone, Copy, PartialEq, Eq, Structural)]
pub enum PathType {
    Dir,
    File,
    Symlink,
    Unknown,
}

impl DeepView for PathType {
    type V = PathType;

    open spec fn deep_view(&self) -> PathType {
        *self
    }
}

/// The offset encoding a server's edit ranges arrived in. Translation into
/// native character offsets happens at the transport boundary; the edits a
/// candidate carries here are already native. The tag is kept so a resolved
/// candidate can be rebuilt for the same server.
#[derive(Debug, Clone, Copy, PartialEq, Eq, Structural)]
pub enum OffsetEncoding {
    Utf8,
    Utf16,
    Utf32,
}

impl DeepView for OffsetEncoding {
    type V = OffsetEncoding;

    open spec fn deep_view(&self) -> OffsetEncoding {
        *self
    }
}

/// One text edit of a server candidate: replace `[start, end)` with
/// `new_text`, in character offsets.
pub struct TextEdit {
    pub start: usize,
    pub end: usize,
    pub new_text: Vec<char>,
}

/// Mathematical value of a [`TextEdit`].
pub ghost struct TextEditV {
    pub start: int,
    pub end: int,
    pub new_text: Seq<char>,
}

impl View for TextEdit {
    type V = TextEditV;

    open spec fn view(&self) -> TextEditV {
        TextEditV {
            start: self.start as int,
            end: self.end as int,
            new_text: self.new_text.deep_view(),
        }
    }
}

impl DeepView for TextEdit {
    type V = TextEditV;

    open spec fn deep_view(&self) -> TextEditV {
        self.view()
    }
}

/// The explicit edit region a server candidate may carry: either one replace
/// range, or an insert range paired with a replace range.
pub enum ServerEdit {
    Replace(TextEdit),
    InsertAndReplace { insert: TextEdit, replace: TextEdit },
}

/// Mathematical value of a [`ServerEdit`].
pub ghost enum ServerEditV {
    Replace(TextEditV),
    InsertAndReplace { insert: TextEditV, replace: TextEditV },
}

impl DeepView for ServerEdit {
    type V = ServerEditV;

    open spec fn deep_view(&self) -> ServerEditV {
        match self {
            ServerEdit::Replace(e) => ServerEditV::Replace(e.deep_view()),
            ServerEdit::InsertAndReplace { insert, replace } => ServerEditV::InsertAndReplace {
                insert: insert.deep_view(),
                replace: replace.deep_view(),
            },
        }
    }
}

/// A server-provided completion candidate. `kind` is the protocol's numeric
/// category tag (shown beside the label by row rendering, which lives
/// outside this crate). `documentation` doubles as the resolution marker: a
/// candidate counts as resolved once documentation has been fetched for it.
pub struct LspItem {
    pub label: Vec<char>,
    pub kind: Option<u32>,
    pub filter_text: Option<Vec<char>>,
    pub sort_text: Option<Vec<char>>,
    pub insert_text: Option<Vec<char>>,
    pub text_edit: Option<ServerEdit>,
    pub additional_text_edits: Option<Vec<TextEdit>>,
    pub documentation: Option<Vec<char>>,
    pub detail: Option<Vec<char>>,
    pub preselect: Option<bool>,
}

/// Mathematical value of an [`LspItem`].
pub ghost struct LspItemV {
    pub label: Seq<char>,
    pub kind: Option<u32>,
    pub filter_text: Option<Seq<char>>,
    pub sort_text: Option<Seq<char>>,
    pub insert_text: Option<Seq<char>>,
    pub text_edit: Option<ServerEditV>,
    pub additional_text_edits: Option<Seq<TextEditV>>,
    pub documentation: Option<Seq<char>>,
    pub detail: Option<Seq<char>>,
    pub preselect: Option<bool>,
}

impl DeepView for LspItem {
    type V = LspItemV;

    open spec fn deep_view(&self) -> LspItemV {
        LspItemV {
            label: self.label.deep_view(),
            kind: self.kind,
            filter_text: self.filter_text.deep_view(),
            sort_text: self.sort_text.deep_view(),
            insert_text: self.insert_text.deep_view(),
            text_edit: self.text_edit.deep_view(),
            additional_text_edits: self.additional_text_edits.deep_view(),
            documentation: self.documentation.deep_view(),
            detail: self.detail.deep_view(),
            preselect: self.preselect,
        }
    }
}

/// One completion suggestion: server-sourced or path-sourced.
pub enum CompletionItem {
    LSP { language_server_id: usize, item: LspItem, offset_encoding: OffsetEncoding },
    Path { path: Vec<char>, permissions: u32, path_type: PathType },
}

/// Mathematical value of a [`CompletionItem`].
pub ghost enum CompletionItemV {
    LSP { language_server_id: int, item: LspItemV, offset_encoding: OffsetEncoding },
    Path { path: Seq<char>, permissions: u32, path_type: PathType },
}

impl DeepView for CompletionItem {
    type V = CompletionItemV;

    open spec fn deep_view(&self) -> CompletionItemV {
        match self {
            CompletionItem::LSP { language_server_id, item, offset_encoding } => {
                CompletionItemV::LSP {
                    language_server_id: *language_server_id as int,
                    item: item.deep_view(),
                    offset_encoding: *offset_encoding,
                }
            },
            CompletionItem::Path { path, permissions, path_type } => CompletionItemV::Path {
                path: path.deep_view(),
                permissions: *permissions,
                path_type: *path_type,
            },
        }
    }
}

/// The key the filter controller matches typed text against: a server
/// candidate's filter text, its label when it names none; the final path
/// component for a path candidate.
pub open spec fn filter_key(item: CompletionItemV) -> Seq<char> {
    match item {
        CompletionItemV::LSP { item: it, .. } => match it.filter_text {
            Some(t) => t,
            None => it.label,
        },
        CompletionItemV::Path { path, .. } => file_name_spec(path),
    }
}

/// The label shown for a candidate: a server candidate's label, the final
/// path component for a path candidate.
pub open spec fn label_key(item: CompletionItemV) -> Seq<char> {
    match item {
        CompletionItemV::LSP { item: it, .. } => it.label,
        CompletionItemV::Path { path, .. } => file_name_spec(path),
    }
}

/// Whether a candidate asks to be placed before non-preselected ones: only a
/// server candidate with its preselect flag set does.
pub open spec fn preselect_of(item: CompletionItemV) -> bool {
    match item {
        CompletionItemV::LSP { item: it, .. } => it.preselect == Some(true),
        CompletionItemV::Path { .. } => false,
    }
}

impl CompletionItem {
    /// The substring-matched filter key of this candidate.
    pub fn filter_text(&self) -> (r: Vec<char>)
        ensures
            r@ == filter_key(self.deep_view()),
    {
        match self {
            CompletionItem::LSP { item, .. } => match &item.filter_text {
                Some(t) => clone_chars(t),
                None => clone_chars(&item.label),
            },
            CompletionItem::Path { path, .. } => file_name(path),
        }
    }

    /// The key candidates are ordered by before scoring; it coincides with
    /// the filter key.
    pub fn sort_text(&self) -> (r: Vec<char>)
        ensures
            r@ == filter_key(self.deep_view()),
    {
        self.filter_text()
    }

    /// The display label of this candidate.
    pub fn label(&self) -> (r: Vec<char>)
        ensures
            r@ == label_key(self.deep_view()),
    {
        match self {
            CompletionItem::LSP { item, .. } => clone_chars(&item.label),
            CompletionItem::Path { path, .. } => file_name(path),
        }
    }

    /// Whether this candidate is preselected.
    pub fn preselect(&self) -> (r: bool)
        ensures
            r == preselect_of(self.deep_view()),
    {
        match self {
            CompletionItem::LSP { item, .. } => match &item.preselect {
                Some(b) => *b,
                None => false,
            },
            CompletionItem::Path { .. } => false,
        }
    }
}

/// Compares two character vectors by content.
pub fn eq_chars(a: &Vec<char>, b: &Vec<char>) -> (r: bool)
    ensures
        r == (a@ == b@),
{
    if a.len() != b.len() {
        return false;
    }
    let mut i: usize = 0;
    while i < a.len()
        invariant
            i <= a@.len() == b@.len(),
            forall|k: int| 0 <= k < i ==> a@[k] == b@[k],
        decreases a.len() - i,
    {
        if a[i] != b[i] {
            return false;
        }
        i += 1;
    }
    proof {
        assert(a@ =~= b@);
    }
    true
}

/// Compares two optional character vectors by content.
pub fn eq_opt_chars(a: &Option<Vec<char>>, b: &Option<Vec<char>>) -> (r: bool)
    ensures
        r == (a.deep_view() == b.deep_view()),
{
    match (a, b) {
        (Some(x), Some(y)) => eq_chars(x, y),
        (None, None) => true,
        _ => false,
    }
}

/// Compares two text edits by value.
pub fn eq_text_edit(a: &TextEdit, b: &TextEdit) -> (r: bool)
    ensures
        r == (a@ == b@),
{
    a.start == b.start && a.end == b.end && eq_chars(&a.new_text, &b.new_text)
}

/// Compares two edit lists by value.
pub fn eq_edits(a: &Vec<TextEdit>, b: &Vec<TextEdit>) -> (r: bool)
    ensures
        r == (a.deep_view() == b.deep_view()),
{
    if a.len() != b.len() {
        proof {
            assert(a.deep_view().len() != b.deep_view().len());
        }
        return false;
    }
    let mut i: usize = 0;
    while i < a.len()
        invariant
            i <= a@.len() == b@.len(),
            a.deep_view().len() == a@.len() && b.deep_view().len() == b@.len(),
            forall|k: int| 0 <= k < i ==> a@[k]@ == b@[k]@,
        decreases a.len() - i,
    {
        if !eq_text_edit(&a[i], &b[i]) {
            proof {
                assert(a.deep_view()[i as int] == a@[i as int]@);
                assert(b.deep_view()[i as int] == b@[i as int]@);
            }
            return false;
        }
        i += 1;
    }
    proof {
        assert(a.deep_view() =~= b.deep_view());
    }
    true
}

/// Compares two optional edit lists by value.
pub fn eq_opt_edits(a: &Option<Vec<TextEdit>>, b: &Option<Vec<TextEdit>>) -> (r: bool)
    ensures
        r == (a.deep_view() == b.deep_view()),
{
    match (a, b) {
        (Some(x), Some(y)) => eq_edits(x, y),
        (None, None) => true,
        _ => false,
    }
}

/// Compares two explicit edit regions by value.
pub fn eq_server_edit(a: &ServerEdit, b: &ServerEdit) -> (r: bool)
    ensures
        r == (a.deep_view() == b.deep_view()),
{
    match (a, b) {
        (ServerEdit::Replace(x), ServerEdit::Replace(y)) => eq_text_edit(x, y),
        (
            ServerEdit::InsertAndReplace { insert: ai, replace: ar },
            ServerEdit::InsertAndReplace { insert: bi, replace: br },
        ) => eq_text_edit(ai, bi) && eq_text_edit(ar, br),
        _ => false,
    }
}

/// Compares two optional edit regions by value.
pub fn eq_opt_server_edit(a: &Option<ServerEdit>, b: &Option<ServerEdit>) -> (r: bool)
    ensures
        r == (a.deep_view() == b.deep_view()),
{
    match (a, b) {
        (Some(x), Some(y)) => eq_server_edit(x, y),
        (None, None) => true,
        _ => false,
    }
}

/// Compares two optional numeric tags by value.
pub fn eq_opt_u32(a: &Option<u32>, b: &Option<u32>) -> (r: bool)
    ensures
        r == (*a == *b),
{
    match (a, b) {
        (Some(x), Some(y)) => *x == *y,
        (None, None) => true,
        _ => false,
    }
}

/// Compares two optional flags by value.
pub fn eq_opt_bool(a: &Option<bool>, b: &Option<bool>) -> (r: bool)
    ensures
        r == (*a == *b),
{
    match (a, b) {
        (Some(x), Some(y)) => *x == *y,
        (None, None) => true,
        _ => false,
    }
}

/// Compares two server candidates by value: label, identity and every field.
pub fn eq_lsp_item(a: &LspItem, b: &LspItem) -> (r: bool)
    ensures
        r == (a.deep_view() == b.deep_view()),
{
    eq_chars(&a.label, &b.label) && eq_opt_u32(&a.kind, &b.kind) && eq_opt_chars(
        &a.filter_text,
        &b.filter_text,
    ) && eq_opt_chars(
        &a.sort_text,
        &b.sort_text,
    ) && eq_opt_chars(&a.insert_text, &b.insert_text) && eq_opt_server_edit(
        &a.text_edit,
        &b.text_edit,
    ) && eq_opt_edits(&a.additional_text_edits, &b.additional_text_edits) && eq_opt_chars(
        &a.documentation,
        &b.documentation,
    ) && eq_opt_chars(&a.detail, &b.detail) && eq_opt_bool(&a.preselect, &b.preselect)
}

/// Compares two candidates by value. This is the equality the candidate store
/// uses for the identity-preserving swap after resolution.
pub fn eq_item(a: &CompletionItem, b: &CompletionItem) -> (r: bool)
    ensures
        r == (a.deep_view() == b.deep_view()),
{
    match (a, b) {
        (
            CompletionItem::LSP { language_server_id: ai, item: an, offset_encoding: ae },
            CompletionItem::LSP { language_server_id: bi, item: bn, offset_encoding: be },
        ) => *ai == *bi && eq_lsp_item(an, bn) && *ae == *be,
        (
            CompletionItem::Path { path: ap, permissions: am, path_type: at },
            CompletionItem::Path { path: bp, permissions: bm, path_type: bt },
        ) => eq_chars(ap, bp) && *am == *bm && *at == *bt,
        _ => false,
    }
}

/// Copies an optional character vector.
pub fn clone_opt_chars(v: &Option<Vec<char>>) -> (r: Option<Vec<char>>)
    ensures
        r.deep_view() == v.deep_view(),
{
    match v {
        Some(t) => Some(clone_chars(t)),
        None => None,
    }
}

/// Copies a text edit.
pub fn clone_text_edit(e: &TextEdit) -> (r: TextEdit)
    ensures
        r@ == e@,
{
    TextEdit { start: e.start, end: e.end, new_text: clone_chars(&e.new_text) }
}

/// Copies an edit list.
pub fn clone_edits(es: &Vec<TextEdit>) -> (r: Vec<TextEdit>)
    ensures
        r.deep_view() == es.deep_view(),
{
    let mut r: Vec<TextEdit> = Vec::new();
    let mut i: usize = 0;
    while i < es.len()
        invariant
            i <= es@.len(),
            r@.len() == i,
            forall|k: int| 0 <= k < i ==> r@[k]@ == es@[k]@,
        decreases es.len() - i,
    {
        r.push(clone_text_edit(&es[i]));
        i += 1;
    }
    proof {
        assert(r.deep_view() =~= es.deep_view());
    }
    r
}

/// Copies an optional edit list.
pub fn clone_opt_edits(es: &Option<Vec<TextEdit>>) -> (r: Option<Vec<TextEdit>>)
    ensures
        r.deep_view() == es.deep_view(),
{
    match es {
        Some(v) => Some(clone_edits(v)),
        None => None,
    }
}

/// Copies an explicit edit region.
pub fn clone_server_edit(e: &ServerEdit) -> (r: ServerEdit)
    ensures
        r.deep_view() == e.deep_view(),
{
    match e {
        ServerEdit::Replace(x) => ServerEdit::Replace(clone_text_edit(x)),
        ServerEdit::InsertAndReplace { insert, replace } => ServerEdit::InsertAndReplace {
            insert: clone_text_edit(insert),
            replace: clone_text_edit(replace),
        },
    }
}

/// Copies an optional edit region.
pub fn clone_opt_server_edit(e: &Option<ServerEdit>) -> (r: Option<ServerEdit>)
    ensures
        r.deep_view() == e.deep_view(),
{
    match e {
        Some(x) => Some(clone_server_edit(x)),
        None => None,
    }
}

/// Copies a server candidate.
pub fn clone_lsp_item(it: &LspItem) -> (r: LspItem)
    ensures
        r.deep_view() == it.deep_view(),
{
    LspItem {
        label: clone_chars(&it.label),
        kind: it.kind,
        filter_text: clone_opt_chars(&it.filter_text),
        sort_text: clone_opt_chars(&it.sort_text),
        insert_text: clone_opt_chars(&it.insert_text),
        text_edit: clone_opt_server_edit(&it.text_edit),
        additional_text_edits: clone_opt_edits(&it.additional_text_edits),
        documentation: clone_opt_chars(&it.documentation),
        detail: clone_opt_chars(&it.detail),
        preselect: match &it.preselect {
            Some(b) => Some(*b),
            None => None,
        },
    }
}

/// Copies a candidate.
pub fn clone_item(it: &CompletionItem) -> (r: CompletionItem)
    ensures
        r.deep_view() == it.deep_view(),
{
    match it {
        CompletionItem::LSP { language_server_id, item, offset_encoding } => CompletionItem::LSP {
            language_server_id: *language_server_id,
            item: clone_lsp_item(item),
            offset_encoding: *offset_encoding,
        },
        CompletionItem::Path { path, permissions, path_type } => CompletionItem::Path {
            path: clone_chars(path),
            permissions: *permissions,
            path_type: *path_type,
        },
    }
}

/// Copies one change of a transaction.
pub fn clone_change(c: &Change) -> (r: Change)
    ensures
        r@ == c@,
{
    Change { start: c.start, end: c.end, text: clone_opt_chars(&c.text) }
}

} // verus!
