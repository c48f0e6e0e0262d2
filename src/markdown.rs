//! The Markdown engine: it collects the tokens under each open node, and when
//! a function definition closes it renders the documentation of that function.
use vstd::prelude::*;
use crate::extract::{
    extract_function_doc, extract_spec, views, FunctionDoc, FunctionDocView, TokenEntry, TokenView,
};
use crate::syntax::{names_view, push_tree_text, tree_text, SyntaxTree};
use crate::template_engine::{Event, TemplateEngine};
use crate::text::{terminated_lines, text_eq, trim_newlines, trim_newlines_spec};

verus! {

/// An open node: its kind, its label, and how many tokens had been collected
/// when it was entered.
pub struct NodeEntry {
    pub kind: String,
    pub description: String,
    pub start: usize,
}

/// The text of a `NodeEntry`.
pub struct NodeView {
    pub kind: Seq<char>,
    pub description: Seq<char>,
    pub start: nat,
}

impl View for NodeEntry {
    type V = NodeView;

    open spec fn view(&self) -> NodeView {
        NodeView { kind: self.kind@, description: self.description@, start: self.start as nat }
    }
}

/// The state of a Markdown engine: the tokens collected, the stack of open
/// nodes, the output, and whether a node was ever closed that was not open.
pub struct MarkdownState {
    pub tokens: Seq<TokenView>,
    pub nodes: Seq<NodeView>,
    pub payload: Seq<char>,
    pub unbalanced: bool,
}

/// The kinds that the engine passes over: line breaks, white space, the end
/// of the file, the whole-file node and the nodes that hold trivia (the
/// comments in them are still collected).
pub open spec fn md_ignored() -> Seq<Seq<char>> {
    seq!["TokenNewline"@, "SyntaxFile"@, "TokenWhitespace"@, "TokenEndOfFile"@, "Trivia"@]
}

/// A new engine's state: nothing collected, nothing open, no output.
pub open spec fn md_initial() -> MarkdownState {
    MarkdownState {
        tokens: Seq::empty(),
        nodes: Seq::empty(),
        payload: Seq::empty(),
        unbalanced: false,
    }
}

/// A titled section of a block, its body in a fenced code block.
pub open spec fn section(title: Seq<char>, body: Seq<char>) -> Seq<char> {
    "\n#### "@ + title + "\n```\n"@ + body + "```\n"@
}

/// The comment lines of a block, set apart by blank lines.
pub open spec fn comments_part(d: FunctionDocView) -> Seq<char> {
    if d.leading_comments.len() == 0 {
        Seq::empty()
    } else {
        "\n"@ + d.leading_comments + "\n"@
    }
}

/// The parameters section, one parameter on each line.
pub open spec fn params_part(d: FunctionDocView) -> Seq<char> {
    if d.parameters.len() == 0 {
        Seq::empty()
    } else {
        section("Parameters:"@, terminated_lines(d.parameters))
    }
}

/// The return type section.
pub open spec fn return_part(d: FunctionDocView) -> Seq<char> {
    if d.return_type.len() == 0 {
        Seq::empty()
    } else {
        section("Returns:"@, d.return_type + "\n"@)
    }
}

/// The source code section.
pub open spec fn code_part(code: Seq<char>) -> Seq<char> {
    if code.len() == 0 {
        Seq::empty()
    } else {
        section("Source code"@, code + "\n"@)
    }
}

/// The Markdown block of one function; each section is left out when it is empty.
pub open spec fn render_spec(d: FunctionDocView, code: Seq<char>) -> Seq<char> {
    "\n## Function `"@ + d.name + "`\n"@ + comments_part(d) + params_part(d) + return_part(d)
        + code_part(code) + "\n-----------------------------\n"@
}

/// The text under which a token is collected: a line break shows as a dot.
pub open spec fn shown_text(kind: Seq<char>, text: Seq<char>) -> Seq<char> {
    if kind == "TokenNewline"@ {
        "."@
    } else {
        text
    }
}

/// What one call does to the engine's state.
pub open spec fn md_step(st: MarkdownState, e: Event) -> MarkdownState {
    match e {
        Event::Token { description, text, node } => {
            let kind = node.spec_kind();
            if md_ignored().contains(kind) {
                st
            } else {
                MarkdownState {
                    tokens: st.tokens.push(
                        TokenView { kind, description, text: shown_text(kind, text) },
                    ),
                    ..st
                }
            }
        },
        Event::NodeStart { description, node } => {
            let kind = node.spec_kind();
            if md_ignored().contains(kind) {
                st
            } else {
                MarkdownState {
                    nodes: st.nodes.push(NodeView { kind, description, start: st.tokens.len() }),
                    ..st
                }
            }
        },
        Event::NodeEnd { description, node } => {
            let kind = node.spec_kind();
            if md_ignored().contains(kind) {
                st
            } else if st.nodes.len() == 0 {
                MarkdownState { unbalanced: true, ..st }
            } else {
                let top = st.nodes.last();
                let payload = if kind == "FunctionWithBody"@ {
                    st.payload + render_spec(
                        extract_spec(st.tokens.subrange(top.start as int, st.tokens.len() as int)),
                        trim_newlines_spec(tree_text(node)),
                    )
                } else {
                    st.payload
                };
                MarkdownState { nodes: st.nodes.drop_last(), payload, ..st }
            }
        },
    }
}

/// The state of an engine that started empty and received the calls `log`.
pub open spec fn md_run(log: Seq<Event>) -> MarkdownState
    decreases log.len(),
{
    if log.len() == 0 {
        md_initial()
    } else {
        md_step(md_run(log.drop_last()), log.last())
    }
}

/// The Markdown output for the calls `log`.
pub open spec fn markdown_of(log: Seq<Event>) -> Seq<char> {
    md_run(log).payload
}

fn push_section(out: &mut String, title: &str, body: &str)
    ensures
        final(out)@ == old(out)@ + section(title@, body@),
{
    out.append("\n#### ");
    out.append(title);
    out.append("\n```\n");
    out.append(body);
    out.append("```\n");
    assert(final(out)@ =~= old(out)@ + section(title@, body@));
}

fn lines_text(lines: &Vec<String>) -> (r: String)
    ensures
        r@ == terminated_lines(names_view(lines@)),
{
    let mut out = String::new();
    let mut i: usize = 0;
    while i < lines.len()
        invariant
            i <= lines@.len(),
            out@ == terminated_lines(names_view(lines@).subrange(0, i as int)),
        decreases lines@.len() - i,
    {
        out.append(lines[i].as_str());
        out.append("\n");
        proof {
            let ps = names_view(lines@).subrange(0, i + 1);
            assert(ps.drop_last() =~= names_view(lines@).subrange(0, i as int));
        }
        i = i + 1;
    }
    assert(names_view(lines@).subrange(0, i as int) =~= names_view(lines@));
    out
}

/// Renders the documentation of one function as a Markdown block.
pub fn render_function_doc(doc: &FunctionDoc, code: &str) -> (r: String)
    ensures
        r@ == render_spec(doc@, code@),
{
    let mut out = String::from_str("\n## Function `");
    out.append(doc.name.as_str());
    out.append("`\n");
    let ghost head = out@;
    if doc.leading_comments.unicode_len() != 0 {
        out.append("\n");
        out.append(doc.leading_comments.as_str());
        out.append("\n");
    }
    let ghost with_comments = out@;
    assert(with_comments =~= head + comments_part(doc@));
    if doc.parameters.len() != 0 {
        let body = lines_text(&doc.parameters);
        push_section(&mut out, "Parameters:", body.as_str());
    }
    let ghost with_params = out@;
    if doc.return_type.unicode_len() != 0 {
        let mut body = doc.return_type.clone();
        body.append("\n");
        push_section(&mut out, "Returns:", body.as_str());
    }
    let ghost with_return = out@;
    if code.unicode_len() != 0 {
        let mut body = String::from_str(code);
        body.append("\n");
        push_section(&mut out, "Source code", body.as_str());
    }
    let ghost with_code = out@;
    out.append("\n-----------------------------\n");
    proof {
        let d = doc@;
        assert(with_params == with_comments + params_part(d));
        assert(with_return == with_params + return_part(d));
        assert(with_code == with_return + code_part(code@));
        assert(head =~= "\n## Function `"@ + d.name + "`\n"@);
        assert(out@ =~= render_spec(d, code@));
    }
    out
}

/// The Markdown engine: it keeps the tokens that it is shown, a stack of the
/// nodes that are open, and the Markdown made so far.
pub struct MarkdownEngine {
    nodes: Vec<NodeEntry>,
    tokens: Vec<TokenEntry>,
    ignored_nodes: Vec<String>,
    payload: String,
    unbalanced: bool,
    calls: Ghost<Seq<Event>>,
}

impl View for MarkdownEngine {
    type V = MarkdownState;

    closed spec fn view(&self) -> MarkdownState {
        MarkdownState {
            tokens: views(self.tokens@),
            nodes: self.nodes@.map_values(|n: NodeEntry| n@),
            payload: self.payload@,
            unbalanced: self.unbalanced,
        }
    }
}

impl MarkdownEngine {
    /// The engine's shape: the kinds it passes over, and open nodes that start
    /// within the tokens collected.
    pub closed spec fn wf(&self) -> bool {
        &&& names_view(self.ignored_nodes@) == md_ignored()
        &&& forall|j: int| 0 <= j < self.nodes@.len() ==> self.nodes@[j].start <= self.tokens@.len()
    }

    /// A new engine: nothing collected, nothing open, no output.
    pub fn new() -> (r: Self)
        ensures
            r.wf(),
            r.inv(),
            r.log() == Seq::<Event>::empty(),
            r@ == md_initial(),
    {
        let mut ignored_nodes: Vec<String> = Vec::new();
        ignored_nodes.push(String::from_str("TokenNewline"));
        ignored_nodes.push(String::from_str("SyntaxFile"));
        ignored_nodes.push(String::from_str("TokenWhitespace"));
        ignored_nodes.push(String::from_str("TokenEndOfFile"));
        ignored_nodes.push(String::from_str("Trivia"));
        let r = MarkdownEngine {
            nodes: Vec::new(),
            tokens: Vec::new(),
            ignored_nodes,
            payload: String::new(),
            unbalanced: false,
            calls: Ghost(Seq::empty()),
        };
        assert(names_view(r.ignored_nodes@) =~= md_ignored());
        assert(r@ =~= md_initial()) by {
            assert(views(r.tokens@) =~= Seq::<TokenView>::empty());
            assert(r.nodes@.map_values(|n: NodeEntry| n@) =~= Seq::<NodeView>::empty());
        }
        r
    }

    fn is_ignored(&self, kind: &String) -> (r: bool)
        requires
            self.wf(),
        ensures
            r == md_ignored().contains(kind@),
    {
        let mut i: usize = 0;
        while i < self.ignored_nodes.len()
            invariant
                self.wf(),
                i <= self.ignored_nodes@.len(),
                forall|j: int| 0 <= j < i ==> md_ignored()[j] != kind@,
            decreases self.ignored_nodes@.len() - i,
        {
            if self.ignored_nodes[i] == *kind {
                assert(md_ignored()[i as int] == kind@);
                return true;
            }
            i = i + 1;
        }
        false
    }

    /// Renders the function whose tokens start at `node_tup.start` and appends
    /// its block to the output; the node's source text is the code shown.
    pub fn process_function_doc(&mut self, node_tup: NodeEntry, node: &SyntaxTree)
        requires
            old(self).wf(),
            node_tup.start <= old(self)@.tokens.len(),
        ensures
            final(self).wf(),
            final(self).log() == old(self).log(),
            final(self)@ == (MarkdownState {
                payload: old(self)@.payload + render_spec(
                    extract_spec(
                        old(self)@.tokens.subrange(
                            node_tup.start as int,
                            old(self)@.tokens.len() as int,
                        ),
                    ),
                    trim_newlines_spec(tree_text(*node)),
                ),
                ..old(self)@
            }),
    {
        let n = self.tokens.len();
        let slice = &self.tokens.as_slice()[node_tup.start..n];
        let doc = extract_function_doc(slice);
        assert(views(slice@) =~= views(self.tokens@).subrange(node_tup.start as int, n as int));
        let mut code = String::new();
        push_tree_text(node, &mut code);
        let code = trim_newlines(code.as_str());
        let block = render_function_doc(&doc, code.as_str());
        self.payload.append(block.as_str());
    }

    /// The tokens collected so far, each with its kind, label and shown text.
    pub fn tokens(&self) -> (r: &Vec<TokenEntry>)
        ensures
            views(r@) == self@.tokens,
    {
        &self.tokens
    }

    /// Whether every node that was closed had been opened.
    pub fn is_balanced(&self) -> (r: bool)
        ensures
            r == !self@.unbalanced,
    {
        !self.unbalanced
    }

    /// One line that names a token's kind, its label and its text.
    pub fn render_syntax_doc(&self, kind: &str, desc: &str, text: &str, _parent_kind: &str) -> (r:
        String)
        ensures
            r@ == kind@ + " "@ + desc@ + " "@ + text@ + "\n"@,
    {
        let mut out = String::from_str(kind);
        out.append(" ");
        out.append(desc);
        out.append(" ");
        out.append(text);
        out.append("\n");
        out
    }
}

/// The engine's state and output are those that its calls give from an empty start.
pub proof fn lemma_markdown_state(e: &MarkdownEngine)
    requires
        e.inv(),
    ensures
        e@ == md_run(e.log()),
        e.result() == markdown_of(e.log()),
{
}

impl TemplateEngine for MarkdownEngine {
    closed spec fn log(&self) -> Seq<Event> {
        self.calls@
    }

    closed spec fn inv(&self) -> bool {
        self.wf() && self@ == md_run(self.calls@)
    }

    closed spec fn result(&self) -> Seq<char> {
        self.payload@
    }

    fn token(&mut self, description: &str, text: &str, node: &SyntaxTree) {
        let ghost e = Event::Token { description: description@, text: text@, node: *node };
        let ghost log0 = self.calls@;
        self.calls = Ghost(self.calls@.push(e));
        assert(self.calls@.drop_last() =~= log0);
        let kind = node.kind();
        if self.is_ignored(kind) {
            return ;
        }
        let shown = if text_eq(kind.as_str(), "TokenNewline") {
            "."
        } else {
            text
        };
        let ghost before = self.tokens@;
        self.tokens.push(
            TokenEntry {
                kind: kind.clone(),
                description: String::from_str(description),
                text: String::from_str(shown),
            },
        );
        assert(views(self.tokens@) =~= views(before).push(self.tokens@.last()@));
    }

    fn node_start(&mut self, description: &str, node: &SyntaxTree) {
        let ghost e = Event::NodeStart { description: description@, node: *node };
        let ghost log0 = self.calls@;
        self.calls = Ghost(self.calls@.push(e));
        assert(self.calls@.drop_last() =~= log0);
        let kind = node.kind();
        if self.is_ignored(kind) {
            return ;
        }
        let ghost before = self.nodes@;
        self.nodes.push(
            NodeEntry {
                kind: kind.clone(),
                description: String::from_str(description),
                start: self.tokens.len(),
            },
        );
        assert(self.nodes@.map_values(|n: NodeEntry| n@) =~= before.map_values(
            |n: NodeEntry| n@,
        ).push(self.nodes@.last()@));
    }

    fn node_end(&mut self, description: &str, node: &SyntaxTree) {
        let ghost e = Event::NodeEnd { description: description@, node: *node };
        let ghost log0 = self.calls@;
        self.calls = Ghost(self.calls@.push(e));
        assert(self.calls@.drop_last() =~= log0);
        let kind = node.kind();
        if self.is_ignored(kind) {
            return ;
        }
        let ghost before = self.nodes@;
        match self.nodes.pop() {
            None => {
                self.unbalanced = true;
            },
            Some(node_tup) => {
                assert(self.nodes@.map_values(|n: NodeEntry| n@) =~= before.map_values(
                    |n: NodeEntry| n@,
                ).drop_last());
                assert(node_tup.start <= self.tokens@.len()) by {
                    assert(before[before.len() - 1] == node_tup);
                }
                if text_eq(kind.as_str(), "FunctionWithBody") {
                    self.process_function_doc(node_tup, node);
                }
            },
        }
    }

    fn get_result(&self) -> (r: String) {
        self.payload.clone()
    }
}

} // verus!
