use vstd::prelude::*;
use crate::error::{ErrorKind, RouterError};
use crate::history::{recorded, newest_first, CallHistory};
use crate::text::{
    chars_of, contains_seq, contains_text, split_blank, split_on_blank_lines, texts, trim_seq,
    trim_text,
};
use crate::tool::{
    descriptors_view, entries_view, opt_text, str_member, tool_block, tool_marker, SelectionQuery,
    ToolDescriptor, ToolEntry,
};

verus! {

/// What an extension contributes: its name and the blocks of its tools.
pub type CatalogView = Seq<(Seq<char>, Seq<char>)>;

/// No extension appears twice.
pub open spec fn keys_unique(c: CatalogView) -> bool {
    forall|i: int, j: int| 0 <= i < c.len() && 0 <= j < c.len() && i != j ==> c[i].0 != c[j].0
}

/// The catalog has text for `ext`.
pub open spec fn has_catalog(c: CatalogView, ext: Seq<char>) -> bool {
    exists|i: int| 0 <= i < c.len() && c[i].0 == ext
}

/// Where the text for `ext` stands.
pub open spec fn catalog_index(c: CatalogView, ext: Seq<char>) -> int {
    choose|i: int| 0 <= i < c.len() && c[i].0 == ext
}

/// The text for `ext`, empty when there is none.
pub open spec fn catalog_text(c: CatalogView, ext: Seq<char>) -> Seq<char> {
    if has_catalog(c, ext) {
        c[catalog_index(c, ext)].1
    } else {
        Seq::empty()
    }
}

/// `c` with the text for `ext` set to `text`; a new extension goes last.
pub open spec fn with_catalog(c: CatalogView, ext: Seq<char>, text: Seq<char>) -> CatalogView {
    if has_catalog(c, ext) {
        c.update(catalog_index(c, ext), (ext, text))
    } else {
        c.push((ext, text))
    }
}

/// `c` without the text for `ext`.
pub open spec fn without_catalog(c: CatalogView, ext: Seq<char>) -> CatalogView {
    if has_catalog(c, ext) {
        c.remove(catalog_index(c, ext))
    } else {
        c
    }
}

/// `text` with the block of tool `e` appended, unless its marker already occurs.
pub open spec fn add_tool(text: Seq<char>, e: (Seq<char>, Seq<char>, Seq<char>)) -> Seq<char> {
    if contains_seq(text, tool_marker(e.0)) {
        text
    } else if text.len() == 0 {
        tool_block(e.0, e.1, e.2)
    } else {
        text + "\n\n"@ + tool_block(e.0, e.1, e.2)
    }
}

/// `text` with each of `es` added in turn.
pub open spec fn add_tools(text: Seq<char>, es: Seq<(Seq<char>, Seq<char>, Seq<char>)>) -> Seq<
    char,
>
    decreases es.len(),
{
    if es.len() == 0 {
        text
    } else {
        add_tool(add_tools(text, es.drop_last()), es.last())
    }
}

/// The catalog after the tools `es` are indexed under `ext`.
pub open spec fn indexed(
    c: CatalogView,
    ext: Seq<char>,
    es: Seq<(Seq<char>, Seq<char>, Seq<char>)>,
) -> CatalogView {
    if es.len() == 0 {
        c
    } else {
        with_catalog(c, ext, add_tools(catalog_text(c, ext), es))
    }
}

/// The texts of every extension, in order, joined by a newline.
pub open spec fn joined(c: CatalogView) -> Seq<char>
    decreases c.len(),
{
    if c.len() == 0 {
        Seq::empty()
    } else if c.len() == 1 {
        c[0].1
    } else {
        joined(c.drop_last()) + "\n"@ + c.last().1
    }
}

/// The candidate text for a selection in scope `ext`: that extension's
/// text, or every extension's text where no extension is named.
pub open spec fn candidate_text(c: CatalogView, ext: Option<Seq<char>>) -> Seq<char> {
    match ext {
        Some(e) => catalog_text(c, e),
        None => joined(c),
    }
}

/// `s` begins with the marker `Tool:`.
pub open spec fn is_tool_item(s: Seq<char>) -> bool {
    5 <= s.len() && s.subrange(0, 5) == "Tool:"@
}

/// The trimmed pieces among `pieces` that begin with `Tool:`, in order.
pub open spec fn tool_items(pieces: Seq<Seq<char>>) -> Seq<Seq<char>>
    decreases pieces.len(),
{
    if pieces.len() == 0 {
        Seq::empty()
    } else if is_tool_item(trim_seq(pieces.last())) {
        tool_items(pieces.drop_last()).push(trim_seq(pieces.last()))
    } else {
        tool_items(pieces.drop_last())
    }
}

/// The selected tools in a model's answer: its blank-line separated pieces,
/// trimmed, that begin with `Tool:`.
pub open spec fn response_items(text: Seq<char>) -> Seq<Seq<char>> {
    tool_items(split_blank(text))
}

/// The part of `s` before its first `__`, or all of it.
pub open spec fn before_separator(s: Seq<char>) -> Seq<char>
    decreases s.len(),
{
    if s.len() < 2 {
        s
    } else if s[0] == '_' && s[1] == '_' {
        Seq::empty()
    } else {
        seq![s[0]] + before_separator(s.drop_first())
    }
}

/// `r` is what a selection over catalog `c` starts with, for a request whose
/// query is `query` and whose scope is `ext`: a missing query is refused, an
/// empty candidate text selects nothing, and otherwise the candidates and the
/// query go to the prompt.
pub open spec fn selection_start(
    c: CatalogView,
    query: Option<Seq<char>>,
    ext: Option<Seq<char>>,
    r: LlmAction,
) -> bool {
    let tools = candidate_text(c, ext);
    match r {
        LlmAction::Finish(Err(e)) => query is None && e.kind == ErrorKind::InvalidParams
            && e.message@ == "Missing 'query' parameter"@,
        LlmAction::Finish(Ok(v)) => query is Some && tools.len() == 0 && v@.len() == 0,
        LlmAction::Render { tools: t, query: q } => query is Some && tools.len() > 0 && t@ == tools
            && query == Some(q@),
        LlmAction::Complete { .. } => false,
    }
}

/// Every extension's text holds something.
pub open spec fn texts_nonempty(c: CatalogView) -> bool {
    forall|i: int| 0 <= i < c.len() ==> (#[trigger] c[i]).1.len() > 0
}

/// `r` is the step that follows `event`.
pub open spec fn selection_next(event: LlmEvent, r: LlmAction) -> bool {
    match event {
        LlmEvent::Rendered(Ok(p)) => match r {
            LlmAction::Complete { prompt } => prompt@ == p@,
            _ => false,
        },
        LlmEvent::Rendered(Err(e)) => match r {
            LlmAction::Finish(Err(x)) => x.kind == ErrorKind::InternalError && x.message@
                == "Failed to render prompt template: "@ + e@,
            _ => false,
        },
        LlmEvent::Completed(Ok(t)) => match r {
            LlmAction::Finish(Ok(v)) => texts(v@) == response_items(t@),
            _ => false,
        },
        LlmEvent::Completed(Err(e)) => match r {
            LlmAction::Finish(Err(x)) => x.kind == ErrorKind::InternalError && x.message@
                == "Failed to search tools: "@ + e@,
            _ => false,
        },
    }
}

/// The next thing that a selection asks of its caller.
pub enum LlmAction {
    /// Render the selection prompt from the candidate tools and the query.
    Render { tools: String, query: String },
    /// Send the rendered prompt to the model as the one user message.
    Complete { prompt: String },
    /// The selection is over.
    Finish(Result<Vec<String>, RouterError>),
}

/// What the caller reports back.
pub enum LlmEvent {
    /// The prompt, or why it could not be rendered.
    Rendered(Result<String, String>),
    /// The text of the model's answer, or why the call failed.
    Completed(Result<String, String>),
}

/// The blocks of one extension's tools.
pub struct ExtensionCatalog {
    pub extension_name: String,
    pub tools: String,
}

/// The views of a list of catalogs.
pub open spec fn catalogs_view(v: Seq<ExtensionCatalog>) -> CatalogView {
    v.map_values(|e: ExtensionCatalog| (e.extension_name@, e.tools@))
}

/// A selector that lets a language model choose from a per-extension catalog.
pub struct LLMToolSelector {
    catalogs: Vec<ExtensionCatalog>,
    history: CallHistory,
}

impl LLMToolSelector {
    /// The catalog: one text per extension.
    pub closed spec fn catalog(&self) -> CatalogView {
        catalogs_view(self.catalogs@)
    }

    /// The recorded tool calls, oldest first.
    pub closed spec fn calls(&self) -> Seq<Seq<char>> {
        self.history@
    }

    pub open spec fn wf(&self) -> bool {
        keys_unique(self.catalog()) && texts_nonempty(self.catalog()) && self.calls().len() <= 100
    }

    /// A selector with an empty catalog and an empty history.
    pub fn new() -> (r: LLMToolSelector)
        ensures
            r.wf(),
            r.catalog() == CatalogView::empty(),
            r.calls() == Seq::<Seq<char>>::empty(),
    {
        let r = LLMToolSelector { catalogs: Vec::new(), history: CallHistory::new() };
        assert(r.catalog() =~= CatalogView::empty());
        r
    }

    /// Where the catalog of `ext` stands, if anywhere.
    fn find(&self, ext: &str) -> (r: Option<usize>)
        requires
            self.wf(),
        ensures
            match r {
                Some(j) => j < self.catalog().len() && has_catalog(self.catalog(), ext@)
                    && catalog_index(self.catalog(), ext@) == j,
                None => !has_catalog(self.catalog(), ext@),
            },
    {
        let mut j: usize = 0;
        while j < self.catalogs.len()
            invariant
                self.wf(),
                j <= self.catalogs@.len(),
                forall|i: int| 0 <= i < j ==> self.catalog()[i].0 != ext@,
            decreases self.catalogs@.len() - j,
        {
            if self.catalogs[j].extension_name == String::from_str(ext) {
                let ghost c = self.catalog();
                assert(c[j as int].0 == ext@);
                assert(has_catalog(c, ext@));
                let ghost k = catalog_index(c, ext@);
                assert(c[k].0 == ext@ && k == j as int);
                return Some(j);
            }
            j = j + 1;
        }
        None
    }

    /// Adds the blocks of `entries` to the catalog of `extension_name`,
    /// skipping each tool whose marker already occurs there.
    pub fn index_entries(&mut self, entries: &Vec<ToolEntry>, extension_name: &str)
        requires
            old(self).wf(),
        ensures
            final(self).wf(),
            final(self).catalog() == indexed(
                old(self).catalog(),
                extension_name@,
                entries_view(entries@),
            ),
            final(self).calls() == old(self).calls(),
    {
        if entries.len() == 0 {
            return;
        }
        let found = self.find(extension_name);
        let mut text = match found {
            Some(j) => self.catalogs[j].tools.clone(),
            None => String::new(),
        };
        let ghost start = text@;
        let ghost es = entries_view(entries@);
        let mut i: usize = 0;
        while i < entries.len()
            invariant
                i <= entries@.len(),
                es == entries_view(entries@),
                text@ == add_tools(start, es.subrange(0, i as int)),
            decreases entries@.len() - i,
        {
            let e = &entries[i];
            let marker = e.marker();
            assert(es.subrange(0, i + 1).drop_last() =~= es.subrange(0, i as int));
            if !contains_text(text.as_str(), marker.as_str()) {
                if !text.as_str().is_empty() {
                    text.append("\n\n");
                }
                let block = e.block();
                text.append(block.as_str());
            }
            i = i + 1;
        }
        assert(es.subrange(0, es.len() as int) =~= es);
        proof {
            lemma_add_tools_nonempty(start, es);
        }
        let ghost c = self.catalog();
        let item = ExtensionCatalog { extension_name: String::from_str(extension_name), tools: text };
        match found {
            Some(j) => {
                self.catalogs.set(j, item);
            },
            None => {
                self.catalogs.push(item);
            },
        }
        assert(self.catalog() =~= with_catalog(c, extension_name@, add_tools(start, es)));
        assert(texts_nonempty(self.catalog()));
    }

    /// Indexes `tools` under `extension_name`: each tool's block is added to
    /// that extension's catalog unless its marker already occurs there.
    pub fn index_tools(&mut self, tools: &Vec<ToolDescriptor>, extension_name: &str)
        requires
            old(self).wf(),
        ensures
            final(self).wf(),
            final(self).calls() == old(self).calls(),
            final(self).catalog() == indexed(
                old(self).catalog(),
                extension_name@,
                descriptors_view(tools@),
            ),
    {
        let entries = ToolEntry::from_descriptors(tools);
        self.index_entries(&entries, extension_name);
    }
}

proof fn lemma_contains_extend(t: Seq<char>, u: Seq<char>, m: Seq<char>)
    requires
        contains_seq(t, m),
    ensures
        contains_seq(t + u, m),
{
    let i = choose|i: int|
        0 <= i && i + m.len() <= t.len() && #[trigger] t.subrange(i, i + m.len()) == m;
    assert((t + u).subrange(i, i + m.len()) =~= t.subrange(i, i + m.len()));
}

proof fn lemma_add_tool_keeps(t: Seq<char>, e: (Seq<char>, Seq<char>, Seq<char>), m: Seq<char>)
    requires
        contains_seq(t, m),
    ensures
        contains_seq(add_tool(t, e), m),
{
    if !contains_seq(t, tool_marker(e.0)) {
        let b = tool_block(e.0, e.1, e.2);
        if t.len() == 0 {
            assert(m.len() == 0);
            assert(b.subrange(0int, 0int + m.len()) =~= m);
            assert(add_tool(t, e) == b);
        } else {
            lemma_contains_extend(t, "\n\n"@ + b, m);
            assert(t + "\n\n"@ + b =~= t + ("\n\n"@ + b));
        }
    }
}

proof fn lemma_add_tool_has_marker(t: Seq<char>, e: (Seq<char>, Seq<char>, Seq<char>))
    ensures
        contains_seq(add_tool(t, e), tool_marker(e.0)),
{
    let m = tool_marker(e.0);
    let b = tool_block(e.0, e.1, e.2);
    if !contains_seq(t, m) {
        if t.len() == 0 {
            assert(add_tool(t, e) == b);
            assert(b.subrange(0int, 0int + m.len()) =~= m);
        } else {
            let s = t + "\n\n"@ + b;
            assert(add_tool(t, e) == s);
            let i = s.len() - b.len();
            assert(s.subrange(i, i + m.len()) =~= m);
        }
    }
}

proof fn lemma_add_tools_keeps(t: Seq<char>, es: Seq<(Seq<char>, Seq<char>, Seq<char>)>, m: Seq<char>)
    requires
        contains_seq(t, m),
    ensures
        contains_seq(add_tools(t, es), m),
    decreases es.len(),
{
    if es.len() > 0 {
        lemma_add_tools_keeps(t, es.drop_last(), m);
        lemma_add_tool_keeps(add_tools(t, es.drop_last()), es.last(), m);
    }
}

proof fn lemma_add_tools_has_markers(t: Seq<char>, es: Seq<(Seq<char>, Seq<char>, Seq<char>)>)
    ensures
        forall|i: int|
            0 <= i < es.len() ==> contains_seq(add_tools(t, es), #[trigger] tool_marker(es[i].0)),
    decreases es.len(),
{
    if es.len() > 0 {
        let prev = es.drop_last();
        lemma_add_tools_has_markers(t, prev);
        let u = add_tools(t, prev);
        lemma_add_tool_has_marker(u, es.last());
        assert forall|i: int| 0 <= i < es.len() implies contains_seq(
            add_tools(t, es),
            #[trigger] tool_marker(es[i].0),
        ) by {
            if i < prev.len() {
                assert(prev[i] == es[i]);
                lemma_add_tool_keeps(u, es.last(), tool_marker(es[i].0));
            }
        }
    }
}

proof fn lemma_add_tools_present(t: Seq<char>, es: Seq<(Seq<char>, Seq<char>, Seq<char>)>)
    requires
        forall|i: int| 0 <= i < es.len() ==> contains_seq(t, #[trigger] tool_marker(es[i].0)),
    ensures
        add_tools(t, es) == t,
    decreases es.len(),
{
    if es.len() > 0 {
        let prev = es.drop_last();
        assert forall|i: int| 0 <= i < prev.len() implies contains_seq(
            t,
            #[trigger] tool_marker(prev[i].0),
        ) by {
            assert(prev[i] == es[i]);
        }
        lemma_add_tools_present(t, prev);
        assert(contains_seq(t, tool_marker(es[es.len() - 1].0)));
    }
}

proof fn lemma_with_catalog(c: CatalogView, ext: Seq<char>, text: Seq<char>)
    requires
        keys_unique(c),
    ensures
        keys_unique(with_catalog(c, ext, text)),
        has_catalog(with_catalog(c, ext, text), ext),
        catalog_text(with_catalog(c, ext, text), ext) == text,
        forall|other: Seq<char>|
            other != ext ==> catalog_text(with_catalog(c, ext, text), other) == catalog_text(
                c,
                other,
            ),
{
    let d = with_catalog(c, ext, text);
    let j = if has_catalog(c, ext) {
        catalog_index(c, ext)
    } else {
        c.len() as int
    };
    assert(d[j].0 == ext);
    assert(has_catalog(d, ext));
    let k = catalog_index(d, ext);
    assert(k == j);
    assert forall|other: Seq<char>| other != ext implies catalog_text(d, other) == catalog_text(
        c,
        other,
    ) by {
        if has_catalog(c, other) {
            let i = catalog_index(c, other);
            assert(d[i].0 == other);
            assert(has_catalog(d, other));
        } else if has_catalog(d, other) {
            let i = catalog_index(d, other);
            assert(c[i].0 == other);
        }
    }
}

proof fn lemma_add_tools_nonempty(t: Seq<char>, es: Seq<(Seq<char>, Seq<char>, Seq<char>)>)
    requires
        es.len() > 0,
    ensures
        add_tools(t, es).len() > 0,
{
    lemma_add_tools_has_markers(t, es);
    let m = tool_marker(es[0].0);
    assert(contains_seq(add_tools(t, es), m));
    reveal_strlit("Tool: ");
    assert(m.len() >= 6);
}

/// Indexing a list of tools a second time under the same extension leaves
/// the catalog as the first time left it. The second list need only carry
/// the same names in the same order: its schema texts play no part.
pub proof fn lemma_llm_indexing_idempotent(
    c: CatalogView,
    ext: Seq<char>,
    first: Seq<(Seq<char>, Seq<char>, Seq<char>)>,
    second: Seq<(Seq<char>, Seq<char>, Seq<char>)>,
)
    requires
        keys_unique(c),
        first.len() == second.len(),
        forall|i: int| 0 <= i < first.len() ==> (#[trigger] first[i]).0 == second[i].0,
    ensures
        indexed(indexed(c, ext, first), ext, second) == indexed(c, ext, first),
{
    if first.len() > 0 {
        let t1 = add_tools(catalog_text(c, ext), first);
        let c1 = with_catalog(c, ext, t1);
        lemma_with_catalog(c, ext, t1);
        lemma_add_tools_has_markers(catalog_text(c, ext), first);
        assert forall|i: int| 0 <= i < second.len() implies contains_seq(
            t1,
            #[trigger] tool_marker(second[i].0),
        ) by {
            assert(first[i].0 == second[i].0);
            assert(contains_seq(t1, tool_marker(first[i].0)));
        }
        lemma_add_tools_present(t1, second);
        let k = catalog_index(c1, ext);
        assert(c1[k] == (ext, t1));
        assert(with_catalog(c1, ext, t1) =~= c1);
    }
}

/// Indexing under one extension changes nothing that a selection scoped
/// to another extension sees.
pub proof fn lemma_extension_scoping(
    c: CatalogView,
    a: Seq<char>,
    b: Seq<char>,
    es: Seq<(Seq<char>, Seq<char>, Seq<char>)>,
)
    requires
        keys_unique(c),
        a != b,
    ensures
        keys_unique(indexed(c, b, es)),
        candidate_text(indexed(c, b, es), Some(a)) == candidate_text(c, Some(a)),
{
    if es.len() > 0 {
        lemma_with_catalog(c, b, add_tools(catalog_text(c, b), es));
    }
}

/// A selection scoped to extension `a` after tools `ea` were indexed under
/// `a` and tools `eb` under another extension `b`, from an empty catalog,
/// sees exactly the blocks of `ea`.
pub proof fn lemma_scoped_candidates(
    a: Seq<char>,
    b: Seq<char>,
    ea: Seq<(Seq<char>, Seq<char>, Seq<char>)>,
    eb: Seq<(Seq<char>, Seq<char>, Seq<char>)>,
)
    requires
        a != b,
    ensures
        candidate_text(indexed(indexed(CatalogView::empty(), a, ea), b, eb), Some(a)) == add_tools(
            Seq::empty(),
            ea,
        ),
        candidate_text(indexed(indexed(CatalogView::empty(), b, eb), a, ea), Some(a)) == add_tools(
            Seq::empty(),
            ea,
        ),
{
    let e = CatalogView::empty();
    assert(!has_catalog(e, a));
    assert(catalog_text(e, a) == Seq::<char>::empty());
    if ea.len() > 0 {
        lemma_with_catalog(e, a, add_tools(Seq::empty(), ea));
    }
    lemma_extension_scoping(indexed(e, a, ea), a, b, eb);
    lemma_extension_scoping(e, a, b, eb);
    let c2 = indexed(e, b, eb);
    assert(catalog_text(c2, a) == Seq::<char>::empty());
    if ea.len() > 0 {
        lemma_with_catalog(c2, a, add_tools(Seq::empty(), ea));
    }
}

/// The part of `tool_name` before its first `__`, or all of it.
pub fn extension_of(tool_name: &str) -> (r: String)
    ensures
        r@ == before_separator(tool_name@),
{
    let cs = chars_of(tool_name);
    let n: usize = cs.len();
    let mut i: usize = 0;
    proof {
        assert(tool_name@.subrange(0, 0) + tool_name@.subrange(0, n as int) =~= tool_name@);
    }
    while i < n
        invariant
            cs@ == tool_name@,
            n == cs@.len(),
            i <= n,
            before_separator(tool_name@) == tool_name@.subrange(0, i as int) + before_separator(
                tool_name@.subrange(i as int, n as int),
            ),
        decreases n - i,
    {
        let ghost rest = tool_name@.subrange(i as int, n as int);
        if n - i >= 2 && cs[i] == '_' && cs[i + 1] == '_' {
            assert(before_separator(rest) == Seq::<char>::empty());
            assert(tool_name@.subrange(0, i as int) + Seq::<char>::empty() =~= tool_name@.subrange(
                0,
                i as int,
            ));
            return String::from_str(tool_name.substring_char(0, i));
        }
        if n - i < 2 {
            assert(before_separator(rest) == rest);
            assert(tool_name@.subrange(0, i as int) + rest =~= tool_name@);
            return String::from_str(tool_name);
        }
        assert(rest.drop_first() =~= tool_name@.subrange(i + 1, n as int));
        assert(before_separator(rest) == seq![rest[0]] + before_separator(rest.drop_first()));
        assert(tool_name@.subrange(0, i as int) + (seq![rest[0]] + before_separator(
            rest.drop_first(),
        )) =~= tool_name@.subrange(0, i + 1) + before_separator(rest.drop_first()));
        i = i + 1;
    }
    assert(tool_name@.subrange(i as int, n as int) =~= Seq::<char>::empty());
    assert(tool_name@.subrange(0, i as int) =~= tool_name@);
    String::from_str(tool_name)
}

/// Whether `s` begins with `Tool:`.
fn is_tool_text(s: &str) -> (r: bool)
    ensures
        r == is_tool_item(s@),
{
    let cs = chars_of(s);
    let m = chars_of("Tool:");
    proof {
        reveal_strlit("Tool:");
    }
    assert(m@.len() == 5);
    if cs.len() < 5 {
        return false;
    }
    let mut i: usize = 0;
    while i < 5
        invariant
            cs@ == s@,
            m@ == "Tool:"@,
            m@.len() == 5,
            5 <= cs@.len(),
            i <= 5,
            forall|j: int| 0 <= j < i ==> cs@[j] == m@[j],
        decreases 5 - i,
    {
        if cs[i] != m[i] {
            assert(s@.subrange(0, 5)[i as int] != "Tool:"@[i as int]);
            return false;
        }
        i = i + 1;
    }
    assert(s@.subrange(0, 5) =~= "Tool:"@);
    true
}

/// The tool blocks that a model's answer selects: its blank-line separated
/// pieces, trimmed, that begin with `Tool:`, in the order they come.
pub fn parse_selection(text: &str) -> (r: Vec<String>)
    ensures
        texts(r@) == response_items(text@),
{
    let pieces = split_on_blank_lines(text);
    let ghost ps = texts(pieces@);
    let mut r: Vec<String> = Vec::new();
    let mut i: usize = 0;
    while i < pieces.len()
        invariant
            i <= pieces@.len(),
            ps == texts(pieces@),
            ps == split_blank(text@),
            texts(r@) == tool_items(ps.subrange(0, i as int)),
        decreases pieces@.len() - i,
    {
        let t = trim_text(pieces[i].as_str());
        assert(ps.subrange(0, i + 1).drop_last() =~= ps.subrange(0, i as int));
        assert(ps.subrange(0, i + 1).last() == pieces@[i as int]@);
        if is_tool_text(t.as_str()) {
            let ghost before = texts(r@);
            r.push(t);
            assert(texts(r@) =~= before.push(trim_seq(pieces@[i as int]@)));
        }
        i = i + 1;
    }
    assert(ps.subrange(0, ps.len() as int) =~= ps);
    r
}

impl LLMToolSelector {
    /// The candidate text for a selection in scope `ext`.
    fn candidates(&self, ext: &Option<String>) -> (r: String)
        requires
            self.wf(),
        ensures
            r@ == candidate_text(self.catalog(), opt_text(*ext)),
    {
        match ext {
            Some(e) => match self.find(e.as_str()) {
                Some(j) => self.catalogs[j].tools.clone(),
                None => String::new(),
            },
            None => {
                let ghost c = self.catalog();
                let mut text = String::new();
                let mut i: usize = 0;
                while i < self.catalogs.len()
                    invariant
                        c == self.catalog(),
                        i <= c.len(),
                        text@ == joined(c.subrange(0, i as int)),
                    decreases c.len() - i,
                {
                    assert(c.subrange(0, i + 1).drop_last() =~= c.subrange(0, i as int));
                    if i > 0 {
                        text.append("\n");
                    }
                    text.append(self.catalogs[i].tools.as_str());
                    proof {
                        if i == 0 {
                            assert(text@ =~= c.subrange(0, 1)[0].1);
                        }
                    }
                    i = i + 1;
                }
                assert(c.subrange(0, c.len() as int) =~= c);
                text
            },
        }
    }

    /// The first step of a selection for request `q`.
    pub fn select_query(&self, q: &SelectionQuery) -> (r: LlmAction)
        requires
            self.wf(),
        ensures
            selection_start(self.catalog(), opt_text(q.query), opt_text(q.extension_name), r),
    {
        match &q.query {
            None => LlmAction::Finish(
                Err(RouterError::new(ErrorKind::InvalidParams, "Missing 'query' parameter")),
            ),
            Some(query) => {
                let tools = self.candidates(&q.extension_name);
                if tools.as_str().is_empty() {
                    LlmAction::Finish(Ok(Vec::new()))
                } else {
                    LlmAction::Render { tools, query: query.clone() }
                }
            },
        }
    }

    /// The first step of a selection for the JSON request `params`, which
    /// holds `query` and, optionally, `extension_name`.
    pub fn select_tools(&self, params: &serde_json::Value) -> (r: LlmAction)
        requires
            self.wf(),
        ensures
            selection_start(
                self.catalog(),
                str_member(*params, "query"@),
                str_member(*params, "extension_name"@),
                r,
            ),
    {
        let q = SelectionQuery::from_params(params);
        self.select_query(&q)
    }

    /// The step that follows `event` in a selection.
    pub fn on_event(event: LlmEvent) -> (r: LlmAction)
        ensures
            selection_next(event, r),
    {
        match event {
            LlmEvent::Rendered(Ok(prompt)) => LlmAction::Complete { prompt },
            LlmEvent::Rendered(Err(e)) => LlmAction::Finish(
                Err(
                    RouterError::with_detail(
                        ErrorKind::InternalError,
                        "Failed to render prompt template: ",
                        e.as_str(),
                    ),
                ),
            ),
            LlmEvent::Completed(Ok(text)) => LlmAction::Finish(Ok(parse_selection(text.as_str()))),
            LlmEvent::Completed(Err(e)) => LlmAction::Finish(
                Err(
                    RouterError::with_detail(
                        ErrorKind::InternalError,
                        "Failed to search tools: ",
                        e.as_str(),
                    ),
                ),
            ),
        }
    }

    /// Removes the whole catalog of the extension that `tool_name` names
    /// before its first `__`.
    pub fn remove_tool(&mut self, tool_name: &str) -> (r: Result<(), RouterError>)
        requires
            old(self).wf(),
        ensures
            r is Ok,
            final(self).wf(),
            final(self).catalog() == without_catalog(
                old(self).catalog(),
                before_separator(tool_name@),
            ),
            final(self).calls() == old(self).calls(),
    {
        let ext = extension_of(tool_name);
        let ghost c = self.catalog();
        match self.find(ext.as_str()) {
            Some(j) => {
                self.catalogs.remove(j);
                assert(self.catalog() =~= c.remove(j as int));
            },
            None => {},
        }
        Ok(())
    }

    /// Records a call of `tool_name` in the history.
    pub fn record_tool_call(&mut self, tool_name: &str) -> (r: Result<(), RouterError>)
        requires
            old(self).wf(),
        ensures
            r is Ok,
            final(self).wf(),
            final(self).calls() == recorded(old(self).calls(), tool_name@),
            final(self).catalog() == old(self).catalog(),
    {
        self.history.record(tool_name);
        Ok(())
    }

    /// At most `limit` recorded calls, the most recent first.
    pub fn get_recent_tool_calls(&self, limit: usize) -> (r: Result<Vec<String>, RouterError>)
        ensures
            r is Ok,
            texts(r->Ok_0@) == newest_first(self.calls(), limit as nat),
    {
        Ok(self.history.recent(limit))
    }
}

} // verus!
