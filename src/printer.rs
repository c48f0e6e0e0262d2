//! The tree walker: a depth-first traversal that enumerates each node's
//! children by the grammar's table of shapes and reports what it visits to a
//! template engine.
use vstd::prelude::*;
use crate::syntax::{
    cairo_grammar, cairo_node_specs, find_node_spec, CAIRO_MAJOR, names_view, shape_of, NodeShape, NodeSpec, SyntaxTree,
};
use crate::template_engine::{Event, TemplateEngine};
use crate::text::{decimal, text_eq, usize_to_decimal};

verus! {

/// Why a walk stopped: the tree and the table of shapes disagree.
#[derive(Debug, PartialEq, Eq)]
pub enum WalkError {
    /// The table has no entry for this kind.
    MissingShape { kind: String },
    /// A node of this kind has a different number of children than its members.
    ChildCountMismatch { kind: String },
    /// This kind's shape cannot have children (an enum or a token kind).
    UnexpectedShape { kind: String },
}

/// The settings of a walk.
pub struct WalkConfig {
    /// The grammar's table of shapes.
    pub specs: Seq<NodeSpec>,
    /// When false, a terminal node is replaced by its token.
    pub print_trivia: bool,
    /// The kind whose nodes start the part of the tree that is reported.
    pub top_level_kind: Option<Seq<char>>,
    /// Kinds whose nodes are reported without their descendants.
    pub ignored_kinds: Seq<Seq<char>>,
}

/// The label that a child at position `i` gets under a node of shape `sh`.
pub open spec fn child_label(sh: NodeShape, i: nat) -> Seq<char> {
    match sh {
        NodeShape::Struct { members } => members@[i as int]@,
        NodeShape::Terminal { members } => members@[i as int]@,
        NodeShape::List => "child #"@ + decimal(i),
        NodeShape::SeparatedList => if i % 2 == 0 {
            "item #"@ + decimal(i / 2)
        } else {
            "separator #"@ + decimal(i / 2)
        },
        _ => Seq::empty(),
    }
}

/// Whether `t`, entered with `under`, is a terminal that the walk replaces by
/// its token. An ignored terminal inside the boundary is not replaced: the
/// walk stops at it.
pub open spec fn collapses(cfg: WalkConfig, t: SyntaxTree, under: bool) -> bool {
    match t {
        SyntaxTree::Token { .. } => false,
        SyntaxTree::Node { kind, children } => {
            &&& !cfg.print_trivia
            &&& children@.len() > 1
            &&& shape_of(cfg.specs, kind@) matches Some(NodeShape::Terminal { .. })
            &&& !(reported(cfg, kind@, under) && cfg.ignored_kinds.contains(kind@))
        },
    }
}

/// Whether a node of kind `kind`, entered with `under`, is reported.
pub open spec fn reported(cfg: WalkConfig, kind: Seq<char>, under: bool) -> bool {
    under || cfg.top_level_kind == Some(kind)
}

/// The calls that a walk of `t` makes, labelled `label`, entered inside the
/// top-level boundary or not; or the first disagreement with the table.
pub open spec fn walk(cfg: WalkConfig, t: SyntaxTree, label: Seq<char>, under: bool) -> Result<
    Seq<Event>,
    WalkError,
>
    decreases t, 1nat, 0nat,
{
    match t {
        SyntaxTree::Token { text, .. } => Ok(
            if under {
                seq![Event::Token { description: label, text: text@, node: t }]
            } else {
                Seq::empty()
            },
        ),
        SyntaxTree::Node { kind, children } => {
            let under2 = reported(cfg, kind@, under);
            if collapses(cfg, t, under) {
                walk(cfg, children@[1], label, under2)
            } else {
                let inner = if (under2 && cfg.ignored_kinds.contains(kind@)) || children@.len()
                    == 0 {
                    Ok(Seq::empty())
                } else {
                    match shape_of(cfg.specs, kind@) {
                        None => Err(WalkError::MissingShape { kind }),
                        Some(sh) => match sh {
                            NodeShape::Struct { members } => if members@.len() != children@.len() {
                                Err(WalkError::ChildCountMismatch { kind })
                            } else {
                                walk_children(cfg, t, under2, children@.len())
                            },
                            NodeShape::Terminal { members } => if members@.len()
                                != children@.len() {
                                Err(WalkError::ChildCountMismatch { kind })
                            } else {
                                walk_children(cfg, t, under2, children@.len())
                            },
                            NodeShape::List => walk_children(cfg, t, under2, children@.len()),
                            NodeShape::SeparatedList => walk_children(
                                cfg,
                                t,
                                under2,
                                children@.len(),
                            ),
                            _ => Err(WalkError::UnexpectedShape { kind }),
                        },
                    }
                };
                match inner {
                    Ok(evs) => Ok(
                        if under2 {
                            seq![Event::NodeStart { description: label, node: t }] + evs + seq![
                                Event::NodeEnd { description: label, node: t },
                            ]
                        } else {
                            evs
                        },
                    ),
                    Err(e) => Err(e),
                }
            }
        },
    }
}

/// The calls that the walks of the first `i` children of `t` make, each child
/// labelled by its position under the shape of `t`.
pub open spec fn walk_children(cfg: WalkConfig, t: SyntaxTree, under: bool, i: nat) -> Result<
    Seq<Event>,
    WalkError,
>
    decreases t, 0nat, i,
{
    match t {
        SyntaxTree::Token { .. } => Ok(Seq::empty()),
        SyntaxTree::Node { kind, children } => {
            if i == 0 || i > children@.len() {
                Ok(Seq::empty())
            } else {
                match walk_children(cfg, t, under, (i - 1) as nat) {
                    Err(e) => Err(e),
                    Ok(prev) => match walk(
                        cfg,
                        children@[i - 1],
                        child_label(shape_of(cfg.specs, kind@).unwrap(), (i - 1) as nat),
                        under,
                    ) {
                        Err(e) => Err(e),
                        Ok(evs) => Ok(prev + evs),
                    },
                }
            }
        },
    }
}

/// The branch drawn before an entry: the last child closes its parent's branch.
pub open spec fn branch(is_last: bool) -> Seq<char> {
    if is_last {
        "└── "@
    } else {
        "├── "@
    }
}

/// The indentation under an entry: a bar continues the parent's branch where
/// more siblings follow.
pub open spec fn child_indent(indent: Seq<char>, is_last: bool) -> Seq<char> {
    indent + if is_last {
        "    "@
    } else {
        "│   "@
    }
}

/// Kinds that stand for an expression or statement the parser had to supply.
pub open spec fn is_missing_kind(kind: Seq<char>) -> bool {
    kind == "ExprMissing"@ || kind == "StatementMissing"@
}

/// Tokens whose text the dump shows as a dot.
pub open spec fn is_blank_token(kind: Seq<char>) -> bool {
    kind == "TokenWhitespace"@ || kind == "TokenNewline"@ || kind == "TokenEndOfFile"@
}

/// The dump's line for a token.
pub open spec fn token_line(
    label: Seq<char>,
    kind: Seq<char>,
    text: Seq<char>,
    indent: Seq<char>,
    is_last: bool,
) -> Seq<char> {
    indent + branch(is_last) + (if kind == "TokenMissing"@ {
        label + ": Missing"@
    } else {
        label + " (kind: "@ + kind + ")"@ + if is_blank_token(kind) {
            "."@
        } else {
            ": '"@ + text + "'"@
        }
    }) + "\n"@
}

/// What follows a node's entry: `<ignored>` for an ignored kind, `[]` for a
/// node without children.
pub open spec fn node_suffix(ignored: bool, n: nat) -> Seq<char> {
    if ignored {
        " <ignored>"@
    } else if n == 0 {
        " []"@
    } else {
        Seq::empty()
    }
}

/// The dump's line for an internal node; a node that starts the top-level
/// boundary is drawn as the dump's root.
pub open spec fn node_line(
    ignored: bool,
    label: Seq<char>,
    kind: Seq<char>,
    n: nat,
    indent: Seq<char>,
    is_last: bool,
    starts_top: bool,
) -> Seq<char> {
    if starts_top {
        "└── Top level kind: "@ + kind + node_suffix(ignored, n) + "\n"@
    } else {
        indent + branch(is_last) + label + (if is_missing_kind(kind) {
            ": Missing"@
        } else {
            " (kind: "@ + kind + ")"@
        }) + node_suffix(ignored, n) + "\n"@
    }
}

/// The tree dump of `t`: one line for each node and token inside the
/// top-level boundary, indented by depth, each child under its parent.
pub open spec fn dump(
    cfg: WalkConfig,
    t: SyntaxTree,
    label: Seq<char>,
    indent: Seq<char>,
    is_last: bool,
    under: bool,
) -> Seq<char>
    decreases t, 1nat, 0nat,
{
    match t {
        SyntaxTree::Token { kind, text } => if under {
            token_line(label, kind@, text@, indent, is_last)
        } else {
            Seq::empty()
        },
        SyntaxTree::Node { kind, children } => {
            let starts_top = !under && cfg.top_level_kind == Some(kind@);
            let under2 = under || starts_top;
            let indent2 = if starts_top {
                Seq::empty()
            } else {
                indent
            };
            if collapses(cfg, t, under) {
                dump(cfg, children@[1], label, indent2, is_last, under2)
            } else {
                let line = if under2 {
                    node_line(
                        cfg.ignored_kinds.contains(kind@),
                        label,
                        kind@,
                        children@.len(),
                        indent2,
                        is_last,
                        starts_top,
                    )
                } else {
                    Seq::empty()
                };
                if (under2 && cfg.ignored_kinds.contains(kind@)) || children@.len() == 0 {
                    line
                } else {
                    line + dump_children(
                        cfg,
                        t,
                        child_indent(indent2, is_last || starts_top),
                        under2,
                        children@.len(),
                    )
                }
            }
        },
    }
}

/// The dumps of the first `i` children of `t`; only the last child of all is
/// drawn as the last.
pub open spec fn dump_children(
    cfg: WalkConfig,
    t: SyntaxTree,
    indent: Seq<char>,
    under: bool,
    i: nat,
) -> Seq<char>
    decreases t, 0nat, i,
{
    match t {
        SyntaxTree::Token { .. } => Seq::empty(),
        SyntaxTree::Node { kind, children } => {
            if i == 0 || i > children@.len() {
                Seq::empty()
            } else {
                dump_children(cfg, t, indent, under, (i - 1) as nat) + dump(
                    cfg,
                    children@[i - 1],
                    child_label(shape_of(cfg.specs, kind@).unwrap(), (i - 1) as nat),
                    indent,
                    i == children@.len(),
                    under,
                )
            }
        },
    }
}

/// Once the walk of the children has stopped, it stays stopped with the same error.
proof fn lemma_walk_children_err(cfg: WalkConfig, t: SyntaxTree, under: bool, i: nat, m: nat)
    requires
        t matches SyntaxTree::Node { children, .. } && 1 <= i <= m <= children@.len(),
        walk_children(cfg, t, under, i) is Err,
    ensures
        walk_children(cfg, t, under, m) == walk_children(cfg, t, under, i),
    decreases m - i,
{
    if m > i {
        lemma_walk_children_err(cfg, t, under, i, (m - 1) as nat);
    }
}

/// The walk of a node that neither collapses nor stops at its own kind: its
/// children's walks, between its own start and end when it is reported.
pub proof fn lemma_walk_node(cfg: WalkConfig, t: SyntaxTree, label: Seq<char>, under: bool, sh: NodeShape)
    requires
        t is Node,
        !collapses(cfg, t, under),
        !((reported(cfg, t.spec_kind(), under) && cfg.ignored_kinds.contains(t.spec_kind()))
            || t->children@.len() == 0),
        shape_of(cfg.specs, t.spec_kind()) == Some(sh),
        sh is List || sh is SeparatedList || (sh matches NodeShape::Struct { members }
            && members@.len() == t->children@.len()) || (sh matches NodeShape::Terminal { members }
            && members@.len() == t->children@.len()),
    ensures
        walk(cfg, t, label, under) == match walk_children(
            cfg,
            t,
            reported(cfg, t.spec_kind(), under),
            t->children@.len(),
        ) {
            Ok(evs) => Ok(
                if reported(cfg, t.spec_kind(), under) {
                    seq![Event::NodeStart { description: label, node: t }] + evs + seq![
                        Event::NodeEnd { description: label, node: t },
                    ]
                } else {
                    evs
                },
            ),
            Err(e) => Err(e),
        },
{
}

proof fn lemma_prefix_trans(a: Seq<Event>, b: Seq<Event>, c: Seq<Event>)
    requires
        a.is_prefix_of(b),
        b.is_prefix_of(c),
    ensures
        a.is_prefix_of(c),
{
    assert forall|i: int| 0 <= i < a.len() implies a[i] == c[i] by {
        assert(a[i] == b.subrange(0, a.len() as int)[i]);
        assert(b[i] == c.subrange(0, b.len() as int)[i]);
    }
    assert(a =~= c.subrange(0, a.len() as int));
}

/// What holds after a walk: the engine received exactly the walk's calls, or
/// the walk stopped with the error that the tree gives, the engine having
/// received some calls and lost none.
pub open spec fn walked<T: TemplateEngine>(
    spec_result: Result<Seq<Event>, WalkError>,
    before: T,
    after: T,
    r: Result<(), WalkError>,
) -> bool {
    &&& after.inv()
    &&& match spec_result {
        Ok(evs) => r is Ok && after.log() == before.log() + evs,
        Err(e) => r == Err::<(), WalkError>(e) && before.log().is_prefix_of(after.log()),
    }
}

/// The label of the child at position `i` under a node of shape `sh`.
fn make_child_label(sh: &NodeShape, i: usize) -> (r: String)
    requires
        sh matches NodeShape::Struct { members } ==> i < members@.len(),
        sh matches NodeShape::Terminal { members } ==> i < members@.len(),
    ensures
        r@ == child_label(*sh, i as nat),
{
    match sh {
        NodeShape::Struct { members } => members[i].clone(),
        NodeShape::Terminal { members } => members[i].clone(),
        NodeShape::List => {
            let mut r = String::from_str("child #");
            r.append(usize_to_decimal(i).as_str());
            r
        },
        NodeShape::SeparatedList => {
            let mut r = if i % 2 == 0 {
                String::from_str("item #")
            } else {
                String::from_str("separator #")
            };
            r.append(usize_to_decimal(i / 2).as_str());
            r
        },
        _ => String::new(),
    }
}

/// Appends the dump's line for a token.
fn push_token_line(out: &mut String, label: &str, kind: &str, text: &str, indent: &str, is_last: bool)
    ensures
        final(out)@ == old(out)@ + token_line(label@, kind@, text@, indent@, is_last),
{
    out.append(indent);
    out.append(if is_last {
        "└── "
    } else {
        "├── "
    });
    out.append(label);
    if text_eq(kind, "TokenMissing") {
        out.append(": Missing");
    } else {
        out.append(" (kind: ");
        out.append(kind);
        out.append(")");
        if text_eq(kind, "TokenWhitespace") || text_eq(kind, "TokenNewline") || text_eq(
            kind,
            "TokenEndOfFile",
        ) {
            out.append(".");
        } else {
            out.append(": '");
            out.append(text);
            out.append("'");
        }
    }
    out.append("\n");
    assert(final(out)@ =~= old(out)@ + token_line(label@, kind@, text@, indent@, is_last));
}

/// Whether `kind` stands for an expression or statement the parser had to supply.
pub fn is_missing_kind_name(kind: &str) -> (r: bool)
    ensures
        r == is_missing_kind(kind@),
{
    text_eq(kind, "ExprMissing") || text_eq(kind, "StatementMissing")
}

/// Appends the dump's line for an internal node.
fn push_node_line(
    out: &mut String,
    ignored: bool,
    label: &str,
    kind: &str,
    n: usize,
    indent: &str,
    is_last: bool,
    starts_top: bool,
)
    ensures
        final(out)@ == old(out)@ + node_line(ignored, label@, kind@, n as nat, indent@, is_last, starts_top),
{
    let suffix = if ignored {
        " <ignored>"
    } else if n == 0 {
        " []"
    } else {
        ""
    };
    assert(suffix@ == node_suffix(ignored, n as nat)) by {
        if !ignored && n != 0 {
            reveal_strlit("");
        }
    }
    if starts_top {
        out.append("└── Top level kind: ");
        out.append(kind);
    } else {
        out.append(indent);
        out.append(if is_last {
            "└── "
        } else {
            "├── "
        });
        out.append(label);
        if is_missing_kind_name(kind) {
            out.append(": Missing");
        } else {
            out.append(" (kind: ");
            out.append(kind);
            out.append(")");
        }
    }
    out.append(suffix);
    out.append("\n");
    assert(final(out)@ =~= old(out)@ + node_line(ignored, label@, kind@, n as nat, indent@, is_last, starts_top));
}

/// Walks a syntax tree and reports it to a template engine.
pub struct Printer<T: TemplateEngine> {
    template_engine: T,
    spec: Vec<NodeSpec>,
    print_trivia: bool,
    top_level_kind: Option<String>,
    ignored_kinds: Vec<String>,
    result: String,
}

impl<T: TemplateEngine> Printer<T> {
    /// The walk's settings.
    pub closed spec fn config(&self) -> WalkConfig {
        WalkConfig {
            specs: self.spec@,
            print_trivia: self.print_trivia,
            top_level_kind: match self.top_level_kind {
                Some(k) => Some(k@),
                None => None,
            },
            ignored_kinds: names_view(self.ignored_kinds@),
        }
    }

    /// The engine that the walk reports to.
    pub closed spec fn engine(&self) -> T {
        self.template_engine
    }

    /// The tree dump written so far.
    pub closed spec fn tree_dump(&self) -> Seq<char> {
        self.result@
    }

    /// A printer over the Cairo grammar: trivia kept, the whole tree reported,
    /// no kind ignored.
    pub fn new(template_engine: T) -> (r: Self)
        ensures
            r.engine() == template_engine,
            r.config() == default_config(cairo_grammar(CAIRO_MAJOR as nat)),
            r.tree_dump() == Seq::<char>::empty(),
    {
        Self::with_spec(template_engine, cairo_node_specs())
    }

    /// A printer over the grammar `spec`: trivia kept, the whole tree reported,
    /// no kind ignored.
    pub fn with_spec(template_engine: T, spec: Vec<NodeSpec>) -> (r: Self)
        ensures
            r.engine() == template_engine,
            r.config() == (WalkConfig {
                specs: spec@,
                print_trivia: true,
                top_level_kind: None,
                ignored_kinds: Seq::empty(),
            }),
            r.tree_dump() == Seq::<char>::empty(),
    {
        let r = Printer {
            template_engine,
            spec,
            print_trivia: true,
            top_level_kind: None,
            ignored_kinds: Vec::new(),
            result: String::new(),
        };
        assert(names_view(r.ignored_kinds@) =~= Seq::<Seq<char>>::empty());
        r
    }

    /// Reports only the nodes of kind `kind` and what lies under them; `None`
    /// reports the whole tree.
    pub fn set_top_level_kind(&mut self, kind: Option<String>)
        ensures
            final(self).engine() == old(self).engine(),
            final(self).tree_dump() == old(self).tree_dump(),
            final(self).config() == (WalkConfig {
                top_level_kind: match kind {
                    Some(k) => Some(k@),
                    None => None,
                },
                ..old(self).config()
            }),
    {
        self.top_level_kind = kind;
    }

    /// Nodes of these kinds are reported without their descendants.
    pub fn set_ignored_kinds(&mut self, kinds: Vec<String>)
        ensures
            final(self).engine() == old(self).engine(),
            final(self).tree_dump() == old(self).tree_dump(),
            final(self).config() == (WalkConfig {
                ignored_kinds: names_view(kinds@),
                ..old(self).config()
            }),
    {
        self.ignored_kinds = kinds;
    }

    /// When `print_trivia` is false, each terminal is replaced by its token.
    pub fn set_print_trivia(&mut self, print_trivia: bool)
        ensures
            final(self).engine() == old(self).engine(),
            final(self).tree_dump() == old(self).tree_dump(),
            final(self).config() == (WalkConfig { print_trivia, ..old(self).config() }),
    {
        self.print_trivia = print_trivia;
    }

    /// The tree dump: one line for each node and token reported, drawn as a tree.
    pub fn get_tree(&self) -> (r: &String)
        ensures
            r@ == self.tree_dump(),
    {
        &self.result
    }

    /// The engine that the walk reports to.
    pub fn template_engine(&self) -> (r: &T)
        ensures
            *r == self.engine(),
    {
        &self.template_engine
    }

    /// Gives back the engine.
    pub fn into_engine(self) -> (r: T)
        ensures
            r == self.engine(),
    {
        self.template_engine
    }

    fn is_ignored(&self, kind: &String) -> (r: bool)
        ensures
            r == self.config().ignored_kinds.contains(kind@),
    {
        let mut i: usize = 0;
        while i < self.ignored_kinds.len()
            invariant
                i <= self.ignored_kinds@.len(),
                forall|j: int| 0 <= j < i ==> self.config().ignored_kinds[j] != kind@,
            decreases self.ignored_kinds@.len() - i,
        {
            if self.ignored_kinds[i] == *kind {
                assert(self.config().ignored_kinds[i as int] == kind@);
                return true;
            }
            i = i + 1;
        }
        false
    }

    fn is_top_level(&self, kind: &String) -> (r: bool)
        ensures
            r == (self.config().top_level_kind == Some(kind@)),
    {
        match &self.top_level_kind {
            Some(k) => *k == *kind,
            None => false,
        }
    }

    /// Walks `syntax_node` and its descendants, reporting them to the engine
    /// and drawing them in the tree dump. `indent` and `is_last` place the
    /// node in the dump; `under_top_level`: whether the walk is already
    /// inside the top-level boundary.
    pub fn print_tree(
        &mut self,
        field_description: &str,
        syntax_node: &SyntaxTree,
        indent: &str,
        is_last: bool,
        under_top_level: bool,
    ) -> (r: Result<(), WalkError>)
        requires
            old(self).engine().inv(),
        ensures
            final(self).config() == old(self).config(),
            walked(
                walk(old(self).config(), *syntax_node, field_description@, under_top_level),
                old(self).engine(),
                final(self).engine(),
                r,
            ),
            r is Ok ==> final(self).tree_dump() == old(self).tree_dump() + dump(
                old(self).config(),
                *syntax_node,
                field_description@,
                indent@,
                is_last,
                under_top_level,
            ),
        decreases syntax_node, 1nat,
    {
        match syntax_node {
            SyntaxTree::Token { kind, text } => {
                if under_top_level {
                    self.template_engine.token(field_description, text.as_str(), syntax_node);
                    push_token_line(
                        &mut self.result,
                        field_description,
                        kind.as_str(),
                        text.as_str(),
                        indent,
                        is_last,
                    );
                    assert(self.engine().log() =~= old(self).engine().log() + walk(
                        self.config(),
                        *syntax_node,
                        field_description@,
                        under_top_level,
                    ).unwrap());
                } else {
                    assert(self.engine().log() =~= old(self).engine().log() + Seq::empty());
                    assert(self.tree_dump() =~= old(self).tree_dump() + Seq::empty());
                }
                Ok(())
            },
            SyntaxTree::Node { .. } => {
                self.print_internal_node(
                    field_description,
                    syntax_node,
                    indent,
                    is_last,
                    under_top_level,
                )
            },
        }
    }

    /// Walks an internal node: a terminal that collapses to its token, or the
    /// node with its children enumerated by its shape.
    fn print_internal_node(
        &mut self,
        field_description: &str,
        syntax_node: &SyntaxTree,
        indent: &str,
        is_last: bool,
        under_top_level: bool,
    ) -> (r: Result<(), WalkError>)
        requires
            old(self).engine().inv(),
            syntax_node is Node,
        ensures
            final(self).config() == old(self).config(),
            walked(
                walk(old(self).config(), *syntax_node, field_description@, under_top_level),
                old(self).engine(),
                final(self).engine(),
                r,
            ),
            r is Ok ==> final(self).tree_dump() == old(self).tree_dump() + dump(
                old(self).config(),
                *syntax_node,
                field_description@,
                indent@,
                is_last,
                under_top_level,
            ),
        decreases syntax_node, 0nat,
    {
        let ghost cfg = self.config();
        let (kind, children) = match syntax_node {
            SyntaxTree::Node { kind, children } => (kind, children),
            SyntaxTree::Token { .. } => {
                proof {
                    assert(false);
                }
                return Ok(());
            },
        };
        let current_is_top_level = !under_top_level && self.is_top_level(kind);
        // Inside the boundary from here on; the boundary node is the dump's root.
        let under = under_top_level || current_is_top_level;
        let indent2: &str = if current_is_top_level {
            ""
        } else {
            indent
        };
        assert(indent2@ == if current_is_top_level {
            Seq::<char>::empty()
        } else {
            indent@
        }) by {
            reveal_strlit("");
        }
        let found = find_node_spec(&self.spec, kind);
        let ignored = self.is_ignored(kind);
        if !self.print_trivia && children.len() > 1 && !(under && ignored) {
            if let Some(j) = found {
                if let NodeShape::Terminal { .. } = &self.spec[j].shape {
                    return self.print_tree(field_description, &children[1], indent2, is_last, under);
                }
            }
        }
        let num_children = children.len();
        if under {
            self.template_engine.node_start(field_description, syntax_node);
        }
        if under {
            push_node_line(
                &mut self.result,
                ignored,
                field_description,
                kind.as_str(),
                num_children,
                indent2,
                is_last,
                current_is_top_level,
            );
        }
        let ghost log_start = self.engine().log();
        let ghost dump_start = self.tree_dump();
        let ghost start_events = if under {
            seq![Event::NodeStart { description: field_description@, node: *syntax_node }]
        } else {
            Seq::empty()
        };
        let ghost line = if under {
            node_line(
                ignored,
                field_description@,
                kind@,
                num_children as nat,
                indent2@,
                is_last,
                current_is_top_level,
            )
        } else {
            Seq::empty()
        };
        assert(log_start =~= old(self).engine().log() + start_events);
        assert(dump_start =~= old(self).tree_dump() + line);
        let ghost mut inner: Seq<Event> = Seq::empty();
        let ghost mut inner_dump: Seq<char> = Seq::empty();
        if !((under && ignored) || num_children == 0) {
            let j = match found {
                Some(j) => j,
                None => {
                    return Err(WalkError::MissingShape { kind: kind.clone() });
                },
            };
            let count_ok = match &self.spec[j].shape {
                NodeShape::Struct { members } => members.len() == num_children,
                NodeShape::Terminal { members } => members.len() == num_children,
                NodeShape::List => true,
                NodeShape::SeparatedList => true,
                _ => {
                    return Err(WalkError::UnexpectedShape { kind: kind.clone() });
                },
            };
            if !count_ok {
                return Err(WalkError::ChildCountMismatch { kind: kind.clone() });
            }
            let mut indent3 = String::from_str(indent2);
            indent3.append(
                if is_last || current_is_top_level {
                    "    "
                } else {
                    "│   "
                },
            );
            let mut i: usize = 0;
            while i < num_children
                invariant
                    self.engine().inv(),
                    self.config() == cfg,
                    cfg == old(self).config(),
                    i <= num_children,
                    num_children == children@.len(),
                    syntax_node matches SyntaxTree::Node { children: cs, kind: k } && cs == *children
                        && k@ == kind@,
                    j < cfg.specs.len(),
                    shape_of(cfg.specs, kind@) == Some(cfg.specs[j as int].shape),
                    ({
                        let sh = cfg.specs[j as int].shape;
                        sh is List || sh is SeparatedList || (sh matches NodeShape::Struct { members }
                            && members@.len() == num_children) || (sh matches NodeShape::Terminal {
                            members,
                        } && members@.len() == num_children)
                    }),
                    walk_children(cfg, *syntax_node, under, i as nat) is Ok,
                    old(self).engine().log().is_prefix_of(log_start),
                    !collapses(cfg, *syntax_node, under_top_level),
                    under == reported(cfg, kind@, under_top_level),
                    !((under && cfg.ignored_kinds.contains(kind@)) || num_children == 0),
                    self.engine().log() == log_start + walk_children(
                        cfg,
                        *syntax_node,
                        under,
                        i as nat,
                    ).unwrap(),
                    self.tree_dump() == dump_start + dump_children(
                        cfg,
                        *syntax_node,
                        indent3@,
                        under,
                        i as nat,
                    ),
                decreases num_children - i,
            {
                let label = make_child_label(&self.spec[j].shape, i);
                let ghost log_before = self.engine().log();
                let res = self.print_tree(
                    label.as_str(),
                    &children[i],
                    indent3.as_str(),
                    i + 1 == num_children,
                    under,
                );
                match res {
                    Err(e) => {
                        proof {
                            lemma_walk_children_err(
                                cfg,
                                *syntax_node,
                                under,
                                (i + 1) as nat,
                                num_children as nat,
                            );
                            lemma_walk_node(
                                cfg,
                                *syntax_node,
                                field_description@,
                                under_top_level,
                                cfg.specs[j as int].shape,
                            );
                            assert(log_start.is_prefix_of(log_before)) by {
                                assert(log_start =~= log_before.subrange(0, log_start.len() as int));
                            }
                            lemma_prefix_trans(log_start, log_before, self.engine().log());
                            lemma_prefix_trans(old(self).engine().log(), log_start, self.engine().log());
                        }
                        return Err(e);
                    },
                    Ok(()) => {},
                }
                assert(self.engine().log() =~= log_start + walk_children(
                    cfg,
                    *syntax_node,
                    under,
                    (i + 1) as nat,
                ).unwrap());
                assert(self.tree_dump() =~= dump_start + dump_children(
                    cfg,
                    *syntax_node,
                    indent3@,
                    under,
                    (i + 1) as nat,
                ));
                i = i + 1;
            }
            proof {
                lemma_walk_node(
                    cfg,
                    *syntax_node,
                    field_description@,
                    under_top_level,
                    cfg.specs[j as int].shape,
                );
                inner = walk_children(cfg, *syntax_node, under, num_children as nat).unwrap();
                inner_dump = dump_children(cfg, *syntax_node, indent3@, under, num_children as nat);
                assert(indent3@ == child_indent(indent2@, is_last || current_is_top_level));
            }
        }
        let ghost log_inner = self.engine().log();
        assert(log_inner == log_start + inner);
        if under {
            self.template_engine.node_end(field_description, syntax_node);
        }
        proof {
            let end_events = if under {
                seq![Event::NodeEnd { description: field_description@, node: *syntax_node }]
            } else {
                Seq::empty()
            };
            assert(self.engine().log() =~= old(self).engine().log() + (start_events + inner
                + end_events));
            assert(walk(cfg, *syntax_node, field_description@, under_top_level) == Ok::<
                Seq<Event>,
                WalkError,
            >(
                if under {
                    start_events + inner + end_events
                } else {
                    inner
                },
            ));
            assert(self.tree_dump() =~= old(self).tree_dump() + (line + inner_dump));
        }
        Ok(())
    }
}

/// The settings of `run_printer` over the grammar `specs`.
pub open spec fn default_config(specs: Seq<NodeSpec>) -> WalkConfig {
    WalkConfig { specs, print_trivia: true, top_level_kind: None, ignored_kinds: Seq::empty() }
}

/// What `run_printer` gives for the tree `root`: the engine's output after the
/// walk's calls, or the walk's error.
pub open spec fn printed<T: TemplateEngine>(
    specs: Seq<NodeSpec>,
    root: SyntaxTree,
    engine: T,
    r: Result<String, WalkError>,
) -> bool {
    match walk(default_config(specs), root, "root"@, true) {
        Ok(evs) => r matches Ok(s) && exists|e: T|
            #![trigger e.log()]
            e.inv() && e.log() == engine.log() + evs && s@ == e.result(),
        Err(err) => r == Err::<String, WalkError>(err),
    }
}

/// Walks `root` over the grammar `spec` and returns what the engine made.
pub fn run_printer_with_spec<T: TemplateEngine>(
    spec: Vec<NodeSpec>,
    root: &SyntaxTree,
    template_engine: T,
) -> (r: Result<String, WalkError>)
    requires
        template_engine.inv(),
    ensures
        printed(spec@, *root, template_engine, r),
{
    let ghost specs = spec@;
    let mut printer = Printer::with_spec(template_engine, spec);
    match printer.print_tree("root", root, "", true, true) {
        Ok(()) => {
            let s = printer.template_engine.get_result();
            proof {
                let e = printer.engine();
                assert(e.log() == template_engine.log() + walk(
                    default_config(specs),
                    *root,
                    "root"@,
                    true,
                ).unwrap());
            }
            Ok(s)
        },
        Err(e) => Err(e),
    }
}

/// Walks `root` over the Cairo grammar and returns what the engine made.
pub fn run_printer<T: TemplateEngine>(root: &SyntaxTree, template_engine: T) -> (r: Result<
    String,
    WalkError,
>)
    requires
        template_engine.inv(),
    ensures
        printed(cairo_grammar(CAIRO_MAJOR as nat), *root, template_engine, r),
{
    let spec = cairo_node_specs();
    run_printer_with_spec(spec, root, template_engine)
}

} // verus!
