//! The concrete syntax tree that the walker reads, and the grammar's table of
//! node shapes that tells it how to enumerate a node's children.
use cairo_lang_syntax_codegen::cairo_spec::get_spec;
use cairo_lang_syntax_codegen::spec::NodeKind;
use vstd::prelude::*;

verus! {

/// A node of a concrete syntax tree. `kind` is the grammar's name of the
/// node's category (such as `FunctionWithBody` or `TokenComma`).
pub enum SyntaxTree {
    /// A leaf, with the literal text that it covers.
    Token { kind: String, text: String },
    /// An internal node, with its children in source order.
    Node { kind: String, children: Vec<SyntaxTree> },
}

impl SyntaxTree {
    /// The name of the node's kind, as text.
    pub open spec fn spec_kind(&self) -> Seq<char> {
        match self {
            SyntaxTree::Token { kind, .. } => kind@,
            SyntaxTree::Node { kind, .. } => kind@,
        }
    }

    /// The grammar's name of this node's category.
    pub fn kind(&self) -> (r: &String)
        ensures
            r@ == self.spec_kind(),
    {
        match self {
            SyntaxTree::Token { kind, .. } => kind,
            SyntaxTree::Node { kind, .. } => kind,
        }
    }
}

/// The full source text under a node: its token texts, concatenated in order.
pub open spec fn tree_text(t: SyntaxTree) -> Seq<char>
    decreases t, 1nat, 0nat,
{
    match t {
        SyntaxTree::Token { text, .. } => text@,
        SyntaxTree::Node { children, .. } => children_text(t, children@.len()),
    }
}

/// The source text of the first `i` children of `t`.
pub open spec fn children_text(t: SyntaxTree, i: nat) -> Seq<char>
    decreases t, 0nat, i,
{
    match t {
        SyntaxTree::Token { .. } => Seq::empty(),
        SyntaxTree::Node { children, .. } => {
            if i == 0 || i > children@.len() {
                Seq::empty()
            } else {
                children_text(t, (i - 1) as nat) + tree_text(children@[i - 1])
            }
        },
    }
}

/// Appends the full source text under `t` to `out`.
pub fn push_tree_text(t: &SyntaxTree, out: &mut String)
    ensures
        final(out)@ == old(out)@ + tree_text(*t),
    decreases t,
{
    match t {
        SyntaxTree::Token { text, .. } => {
            out.append(text.as_str());
        },
        SyntaxTree::Node { children, .. } => {
            let n = children.len();
            let mut i: usize = 0;
            while i < n
                invariant
                    n == children@.len(),
                    i <= n,
                    t matches SyntaxTree::Node { children: cs, .. } && cs == children,
                    out@ == old(out)@ + children_text(*t, i as nat),
                decreases n - i,
            {
                push_tree_text(&children[i], out);
                assert(out@ =~= old(out)@ + children_text(*t, (i + 1) as nat));
                i = i + 1;
            }
        },
    }
}

/// How the grammar lays out the children of a node of one kind.
pub enum NodeShape {
    /// A fixed sequence of children, one for each named member.
    Struct { members: Vec<String> },
    /// A terminal: leading trivia, the token, trailing trivia, each a named member.
    Terminal { members: Vec<String> },
    /// Any number of children of one kind.
    List,
    /// Items and separators in turn: item, separator, item, ...
    SeparatedList,
    /// A choice between kinds; such a kind never labels a node of the tree.
    Enum,
    /// A token kind; such a kind never labels an internal node.
    Token,
}

/// One entry of the grammar's table: a kind's name and its shape.
pub struct NodeSpec {
    pub name: String,
    pub shape: NodeShape,
}

/// The names of a sequence of members, as text.
pub open spec fn names_view(v: Seq<String>) -> Seq<Seq<char>> {
    v.map_values(|m: String| m@)
}

/// The position of the first entry of `specs`, at `i` or after, named `kind`.
pub open spec fn find_from(specs: Seq<NodeSpec>, kind: Seq<char>, i: nat) -> Option<nat>
    decreases specs.len() - i,
{
    if i >= specs.len() {
        None
    } else if specs[i as int].name@ == kind {
        Some(i)
    } else {
        find_from(specs, kind, i + 1)
    }
}

/// The shape that the table gives to `kind`: that of its first entry of that name.
pub open spec fn shape_of(specs: Seq<NodeSpec>, kind: Seq<char>) -> Option<NodeShape> {
    match find_from(specs, kind, 0) {
        Some(j) => Some(specs[j as int].shape),
        None => None,
    }
}

/// Finds the table entry for `kind`: the index of the first entry of that name.
pub fn find_node_spec(specs: &Vec<NodeSpec>, kind: &String) -> (r: Option<usize>)
    ensures
        r matches Some(j) ==> j < specs@.len() && find_from(specs@, kind@, 0) == Some(j as nat),
        r is None <==> find_from(specs@, kind@, 0) is None,
{
    let mut i: usize = 0;
    while i < specs.len()
        invariant
            i <= specs@.len(),
            find_from(specs@, kind@, 0) == find_from(specs@, kind@, i as nat),
        decreases specs@.len() - i,
    {
        if specs[i].name == *kind {
            return Some(i);
        }
        i = i + 1;
    }
    None
}

/// The table of node shapes of the Cairo grammar of major version `major`, as
/// `cairo_lang_syntax_codegen::cairo_spec::get_spec` builds it.
pub uninterp spec fn cairo_grammar(major: nat) -> Seq<NodeSpec>;

/// The major version of the Cairo language whose grammar the library reads.
pub const CAIRO_MAJOR: u64 = 2;

/// The grammar of the Cairo language, as a table of node shapes.
///
/// Relies on cairo_lang_syntax_codegen::cairo_spec::get_spec (of the Cairo 2
/// compiler) for the table, which it builds the same every time; each entry
/// is converted field for field, members kept by name.
#[verifier::external_body]
pub(crate) fn cairo_node_specs() -> (r: Vec<NodeSpec>)
    ensures
        r@ == cairo_grammar(CAIRO_MAJOR as nat),
{
    get_spec().into_iter().map(|n| NodeSpec {
        name: n.name,
        shape: match n.kind {
            NodeKind::Struct { members } => NodeShape::Struct { members: members.into_iter().map(|m| m.name).collect() },
            NodeKind::Terminal { members, .. } => NodeShape::Terminal { members: members.into_iter().map(|m| m.name).collect() },
            NodeKind::List { .. } => NodeShape::List,
            NodeKind::SeparatedList { .. } => NodeShape::SeparatedList,
            NodeKind::Enum { .. } => NodeShape::Enum,
            NodeKind::Token { .. } => NodeShape::Token,
        },
    }).collect()
}

} // verus!
