//! What the walker, the extractor and the Markdown engine guarantee, stated
//! over the specifications of their functions and proved.
use vstd::prelude::*;
use crate::extract::{extract_spec, TokenView};
use crate::markdown::{
    lemma_markdown_state, markdown_of, md_initial, md_run, md_step, MarkdownEngine, MarkdownState,
};
use crate::printer::{
    child_indent, child_label, collapses, default_config, dump, dump_children, lemma_walk_node,
    node_line, printed, reported, walk, walk_children, WalkConfig, WalkError,
};
use crate::syntax::{names_view, shape_of, NodeShape, NodeSpec, SyntaxTree};
use crate::template_engine::{Event, TemplateEngine};

verus! {

/// A node whose kind is ignored, reached inside the top-level boundary, is
/// reported by its start and its end alone: nothing under it is reported.
pub proof fn lemma_ignored_node_hides_descendants(
    cfg: WalkConfig,
    t: SyntaxTree,
    label: Seq<char>,
    under: bool,
)
    requires
        t is Node,
        reported(cfg, t.spec_kind(), under),
        cfg.ignored_kinds.contains(t.spec_kind()),
    ensures
        walk(cfg, t, label, under) == Ok::<Seq<Event>, WalkError>(
            seq![
                Event::NodeStart { description: label, node: t },
                Event::NodeEnd { description: label, node: t },
            ],
        ),
{
    assert(seq![Event::NodeStart { description: label, node: t }] + Seq::<Event>::empty() + seq![
        Event::NodeEnd { description: label, node: t },
    ] =~= seq![
        Event::NodeStart { description: label, node: t },
        Event::NodeEnd { description: label, node: t },
    ]);
}

/// The extractor is a function of its tokens: equal token sequences give
/// equal documentation.
pub proof fn lemma_extract_deterministic(a: Seq<TokenView>, b: Seq<TokenView>)
    requires
        a == b,
    ensures
        extract_spec(a) == extract_spec(b),
{
}

/// Rendering a tree with a new Markdown engine gives an output that depends
/// on that tree (and the grammar) alone: whatever was rendered before with
/// another engine leaves no trace in it.
pub proof fn lemma_fresh_engine_output(
    specs: Seq<NodeSpec>,
    a: SyntaxTree,
    engine: MarkdownEngine,
    r: Result<String, WalkError>,
)
    requires
        engine.inv(),
        engine.log() == Seq::<Event>::empty(),
        printed(specs, a, engine, r),
        walk(default_config(specs), a, "root"@, true) is Ok,
    ensures
        r matches Ok(s) && s@ == markdown_of(walk(default_config(specs), a, "root"@, true).unwrap()),
{
    let evs = walk(default_config(specs), a, "root"@, true).unwrap();
    let e = choose|e: MarkdownEngine|
        #![trigger e.log()]
        e.inv() && e.log() == engine.log() + evs && r.unwrap()@ == e.result();
    lemma_markdown_state(&e);
    assert(engine.log() + evs =~= evs);
}


/// The walks of `children` in order, the child at position `i` labelled
/// `labels[i]`, up to the first error.
pub open spec fn walks_in_order(
    cfg: WalkConfig,
    children: Seq<SyntaxTree>,
    labels: Seq<Seq<char>>,
    under: bool,
) -> Result<Seq<Event>, WalkError>
    decreases children.len(),
{
    if children.len() == 0 {
        Ok(Seq::empty())
    } else {
        match walks_in_order(cfg, children.drop_last(), labels, under) {
            Err(e) => Err(e),
            Ok(prev) => match walk(cfg, children.last(), labels[children.len() - 1], under) {
                Err(e) => Err(e),
                Ok(evs) => Ok(prev + evs),
            },
        }
    }
}

/// The member names of a struct or terminal shape.
pub open spec fn member_names(sh: NodeShape) -> Seq<Seq<char>> {
    match sh {
        NodeShape::Struct { members } => names_view(members@),
        NodeShape::Terminal { members } => names_view(members@),
        _ => Seq::empty(),
    }
}

proof fn lemma_children_in_order(cfg: WalkConfig, t: SyntaxTree, under: bool, sh: NodeShape, i: nat)
    requires
        t is Node,
        shape_of(cfg.specs, t.spec_kind()) == Some(sh),
        sh is Struct || sh is Terminal,
        member_names(sh).len() == t->children@.len(),
        i <= t->children@.len(),
    ensures
        walk_children(cfg, t, under, i) == walks_in_order(
            cfg,
            t->children@.take(i as int),
            member_names(sh),
            under,
        ),
    decreases i,
{
    if i > 0 {
        lemma_children_in_order(cfg, t, under, sh, (i - 1) as nat);
        let cs = t->children@.take(i as int);
        assert(cs.drop_last() =~= t->children@.take(i - 1));
        assert(child_label(sh, (i - 1) as nat) == member_names(sh)[i - 1]);
    }
}

/// A node of a struct or terminal shape whose children agree with its
/// members is walked as its start, then each child labelled with its
/// member's name in the declared order, the last child with the last name,
/// then its end (start and end only where the node is reported).
pub proof fn lemma_struct_members_in_order(
    cfg: WalkConfig,
    t: SyntaxTree,
    label: Seq<char>,
    under: bool,
    sh: NodeShape,
)
    requires
        t is Node,
        !collapses(cfg, t, under),
        t->children@.len() > 0,
        !(reported(cfg, t.spec_kind(), under) && cfg.ignored_kinds.contains(t.spec_kind())),
        shape_of(cfg.specs, t.spec_kind()) == Some(sh),
        sh is Struct || sh is Terminal,
        member_names(sh).len() == t->children@.len(),
    ensures
        walk(cfg, t, label, under) == match walks_in_order(
            cfg,
            t->children@,
            member_names(sh),
            reported(cfg, t.spec_kind(), under),
        ) {
            Ok(evs) => Ok(
                if reported(cfg, t.spec_kind(), under) {
                    seq![Event::NodeStart { description: label, node: t }] + evs + seq![
                        Event::NodeEnd { description: label, node: t },
                    ]
                } else {
                    evs
                },
            ),
            Err(e) => Err(e),
        },
{
    let n = t->children@.len();
    lemma_walk_node(cfg, t, label, under, sh);
    lemma_children_in_order(cfg, t, reported(cfg, t.spec_kind(), under), sh, n);
    assert(t->children@.take(n as int) =~= t->children@);
}

/// The dumps of the children of `t` in order, the child at position `i`
/// labelled `labels[i]`, the last child and only it drawn as the last.
pub open spec fn dumps_in_order(
    cfg: WalkConfig,
    t: SyntaxTree,
    labels: Seq<Seq<char>>,
    indent: Seq<char>,
    under: bool,
) -> Seq<char> {
    let n = t->children@.len();
    Seq::new(
        n,
        |i: int| dump(cfg, t->children@[i], labels[i], indent, i == n - 1, under),
    ).flatten()
}

proof fn lemma_dumps_in_order(
    cfg: WalkConfig,
    t: SyntaxTree,
    indent: Seq<char>,
    under: bool,
    sh: NodeShape,
    i: nat,
)
    requires
        t is Node,
        shape_of(cfg.specs, t.spec_kind()) == Some(sh),
        sh is Struct || sh is Terminal,
        member_names(sh).len() == t->children@.len(),
        i <= t->children@.len(),
    ensures
        dump_children(cfg, t, indent, under, i) == Seq::new(
            i,
            |k: int|
                dump(
                    cfg,
                    t->children@[k],
                    member_names(sh)[k],
                    indent,
                    k == t->children@.len() - 1,
                    under,
                ),
        ).flatten(),
    decreases i,
{
    let n = t->children@.len();
    let f = |k: int| dump(cfg, t->children@[k], member_names(sh)[k], indent, k == n - 1, under);
    if i == 0 {
        assert(Seq::new(0, f) =~= Seq::<Seq<char>>::empty());
    } else {
        lemma_dumps_in_order(cfg, t, indent, under, sh, (i - 1) as nat);
        let prev = Seq::new((i - 1) as nat, f);
        assert(Seq::new(i, f) =~= prev.push(f(i - 1)));
        prev.lemma_flatten_push(f(i - 1));
        assert(child_label(sh, (i - 1) as nat) == member_names(sh)[i - 1]);
    }
}

/// A node of a struct or terminal shape whose children agree with its
/// members is drawn in the tree dump as its own line, then each child
/// labelled with its member's name in the declared order; the last child,
/// and only it, is drawn as the last sibling.
pub proof fn lemma_struct_members_dump(
    cfg: WalkConfig,
    t: SyntaxTree,
    label: Seq<char>,
    indent: Seq<char>,
    is_last: bool,
    under: bool,
    sh: NodeShape,
)
    requires
        t is Node,
        !collapses(cfg, t, under),
        t->children@.len() > 0,
        !(reported(cfg, t.spec_kind(), under) && cfg.ignored_kinds.contains(t.spec_kind())),
        shape_of(cfg.specs, t.spec_kind()) == Some(sh),
        sh is Struct || sh is Terminal,
        member_names(sh).len() == t->children@.len(),
    ensures
        ({
            let starts_top = !under && cfg.top_level_kind == Some(t.spec_kind());
            let indent2 = if starts_top {
                Seq::empty()
            } else {
                indent
            };
            dump(cfg, t, label, indent, is_last, under) == (if reported(cfg, t.spec_kind(), under) {
                node_line(
                    cfg.ignored_kinds.contains(t.spec_kind()),
                    label,
                    t.spec_kind(),
                    t->children@.len(),
                    indent2,
                    is_last,
                    starts_top,
                )
            } else {
                Seq::empty()
            }) + dumps_in_order(
                cfg,
                t,
                member_names(sh),
                child_indent(indent2, is_last || starts_top),
                reported(cfg, t.spec_kind(), under),
            )
        }),
{
    let starts_top = !under && cfg.top_level_kind == Some(t.spec_kind());
    let indent2 = if starts_top {
        Seq::empty()
    } else {
        indent
    };
    lemma_dumps_in_order(
        cfg,
        t,
        child_indent(indent2, is_last || starts_top),
        reported(cfg, t.spec_kind(), under),
        sh,
        t->children@.len(),
    );
}

/// `a` embeds into `b` by the increasing positions `f`.
pub open spec fn embeds(f: Seq<int>, a: Seq<Event>, b: Seq<Event>) -> bool {
    &&& f.len() == a.len()
    &&& forall|i: int| 0 <= i < a.len() ==> 0 <= #[trigger] f[i] < b.len() && a[i] == b[f[i]]
    &&& forall|i: int, j: int| 0 <= i < j < a.len() ==> #[trigger] f[i] < #[trigger] f[j]
}

/// `a` is `b` with some calls left out, the others in the same order.
pub open spec fn is_subsequence(a: Seq<Event>, b: Seq<Event>) -> bool {
    exists|f: Seq<int>| #[trigger] embeds(f, a, b)
}

proof fn lemma_subsequence_refl(a: Seq<Event>)
    ensures
        is_subsequence(a, a),
{
    let f = Seq::new(a.len(), |i: int| i);
    assert(embeds(f, a, a));
}

proof fn lemma_subsequence_empty(b: Seq<Event>)
    ensures
        is_subsequence(Seq::empty(), b),
{
    assert(embeds(Seq::empty(), Seq::empty(), b));
}

proof fn lemma_subsequence_concat(a1: Seq<Event>, b1: Seq<Event>, a2: Seq<Event>, b2: Seq<Event>)
    requires
        is_subsequence(a1, b1),
        is_subsequence(a2, b2),
    ensures
        is_subsequence(a1 + a2, b1 + b2),
{
    let f1 = choose|f: Seq<int>| #[trigger] embeds(f, a1, b1);
    let f2 = choose|f: Seq<int>| #[trigger] embeds(f, a2, b2);
    let f = f1 + Seq::new(f2.len(), |i: int| f2[i] + b1.len());
    let a = a1 + a2;
    let b = b1 + b2;
    assert forall|i: int| 0 <= i < a.len() implies 0 <= #[trigger] f[i] < b.len() && a[i] == b[f[i]] by {
        if i >= a1.len() {
            assert(f[i] == f2[i - a1.len()] + b1.len());
        }
    }
    assert forall|i: int, j: int| 0 <= i < j < a.len() implies #[trigger] f[i] < #[trigger] f[j] by {
        if i < a1.len() && j >= a1.len() {
            assert(f[j] == f2[j - a1.len()] + b1.len());
        } else if i >= a1.len() {
            assert(f[i] == f2[i - a1.len()] + b1.len());
            assert(f[j] == f2[j - a1.len()] + b1.len());
        }
    }
    assert(embeds(f, a, b));
}

proof fn lemma_subsequence_within(a: Seq<Event>, b: Seq<Event>, pre: Seq<Event>, post: Seq<Event>)
    requires
        is_subsequence(a, b),
    ensures
        is_subsequence(a, pre + b + post),
{
    let g = choose|f: Seq<int>| #[trigger] embeds(f, a, b);
    let f = Seq::new(g.len(), |i: int| g[i] + pre.len());
    let c = pre + b + post;
    assert forall|i: int| 0 <= i < a.len() implies 0 <= #[trigger] f[i] < c.len() && a[i] == c[f[i]] by {
        assert(c[g[i] + pre.len()] == b[g[i]]);
    }
    assert forall|i: int, j: int| 0 <= i < j < a.len() implies #[trigger] f[i] < #[trigger] f[j] by {
        assert(g[i] < g[j]);
    }
    assert(embeds(f, a, c));
}

proof fn lemma_embeds_positions(f: Seq<int>, a: Seq<Event>, b: Seq<Event>, i: int)
    requires
        embeds(f, a, b),
        0 <= i < a.len(),
    ensures
        f[i] >= i,
    decreases i,
{
    if i > 0 {
        lemma_embeds_positions(f, a, b, i - 1);
        assert(f[i - 1] < f[i]);
    }
}

proof fn lemma_subsequence_len(a: Seq<Event>, b: Seq<Event>)
    requires
        is_subsequence(a, b),
    ensures
        a.len() <= b.len(),
{
    let f = choose|f: Seq<int>| #[trigger] embeds(f, a, b);
    if a.len() > 0 {
        lemma_embeds_positions(f, a, b, a.len() - 1);
    }
}

/// The settings `cfg` with the top-level boundary at the kind `k`.
pub open spec fn with_top(cfg: WalkConfig, k: Seq<char>) -> WalkConfig {
    WalkConfig { top_level_kind: Some(k), ..cfg }
}

/// The settings `cfg` without a top-level boundary.
pub open spec fn without_top(cfg: WalkConfig) -> WalkConfig {
    WalkConfig { top_level_kind: None, ..cfg }
}

proof fn lemma_top_irrelevant(c1: WalkConfig, c2: WalkConfig, t: SyntaxTree, label: Seq<char>)
    requires
        c1.specs == c2.specs,
        c1.print_trivia == c2.print_trivia,
        c1.ignored_kinds == c2.ignored_kinds,
    ensures
        walk(c1, t, label, true) == walk(c2, t, label, true),
    decreases t, 1nat, 0nat,
{
    if let SyntaxTree::Node { kind, children } = t {
        if collapses(c1, t, true) {
            lemma_top_irrelevant(c1, c2, children@[1], label);
        } else {
            lemma_top_irrelevant_children(c1, c2, t, children@.len());
        }
    }
}

proof fn lemma_top_irrelevant_children(c1: WalkConfig, c2: WalkConfig, t: SyntaxTree, i: nat)
    requires
        c1.specs == c2.specs,
        c1.print_trivia == c2.print_trivia,
        c1.ignored_kinds == c2.ignored_kinds,
    ensures
        walk_children(c1, t, true, i) == walk_children(c2, t, true, i),
    decreases t, 0nat, i,
{
    if let SyntaxTree::Node { kind, children } = t {
        if i > 0 && i <= children@.len() {
            lemma_top_irrelevant_children(c1, c2, t, (i - 1) as nat);
            lemma_top_irrelevant(
                c1,
                c2,
                children@[i - 1],
                child_label(shape_of(c1.specs, kind@).unwrap(), (i - 1) as nat),
            );
        }
    }
}

/// Where the part of `t` outside the boundary nodes of kind `k` holds an
/// ignored node with children, walking that node outside the boundary
/// reports nothing: no boundary node lies under it.
pub open spec fn outside_ok(cfg: WalkConfig, k: Seq<char>, t: SyntaxTree, label: Seq<char>) -> bool
    decreases t, 1nat, 0nat,
{
    match t {
        SyntaxTree::Token { .. } => true,
        SyntaxTree::Node { kind, children } => {
            if kind@ == k {
                true
            } else if cfg.ignored_kinds.contains(kind@) && children@.len() > 0 {
                walk(with_top(cfg, k), t, label, false) == Ok::<Seq<Event>, WalkError>(
                    Seq::empty(),
                )
            } else if collapses(cfg, t, false) {
                outside_ok(cfg, k, children@[1], label)
            } else {
                children_outside_ok(cfg, k, t, children@.len())
            }
        },
    }
}

/// `outside_ok` for each of the first `i` children of `t`, each with its label.
pub open spec fn children_outside_ok(cfg: WalkConfig, k: Seq<char>, t: SyntaxTree, i: nat) -> bool
    decreases t, 0nat, i,
{
    match t {
        SyntaxTree::Token { .. } => true,
        SyntaxTree::Node { kind, children } => {
            if i == 0 || i > children@.len() {
                true
            } else {
                children_outside_ok(cfg, k, t, (i - 1) as nat) && outside_ok(
                    cfg,
                    k,
                    children@[i - 1],
                    child_label(shape_of(cfg.specs, kind@).unwrap(), (i - 1) as nat),
                )
            }
        },
    }
}

proof fn lemma_boundary(cfg: WalkConfig, k: Seq<char>, t: SyntaxTree, label: Seq<char>)
    requires
        outside_ok(cfg, k, t, label),
        walk(without_top(cfg), t, label, true) is Ok,
    ensures
        walk(with_top(cfg, k), t, label, false) is Ok,
        is_subsequence(
            walk(with_top(cfg, k), t, label, false).unwrap(),
            walk(without_top(cfg), t, label, true).unwrap(),
        ),
    decreases t, 1nat, 0nat,
{
    let ck = with_top(cfg, k);
    let cn = without_top(cfg);
    match t {
        SyntaxTree::Token { .. } => {
            lemma_subsequence_empty(walk(cn, t, label, true).unwrap());
        },
        SyntaxTree::Node { kind, children } => {
            if kind@ == k {
                assert(walk(ck, t, label, false) == walk(ck, t, label, true));
                lemma_top_irrelevant(ck, cn, t, label);
                lemma_subsequence_refl(walk(cn, t, label, true).unwrap());
            } else if cfg.ignored_kinds.contains(kind@) && children@.len() > 0 {
                lemma_subsequence_empty(walk(cn, t, label, true).unwrap());
            } else if collapses(cfg, t, false) {
                assert(collapses(ck, t, false) && collapses(cn, t, true));
                lemma_boundary(cfg, k, children@[1], label);
            } else if children@.len() == 0 {
                lemma_subsequence_empty(walk(cn, t, label, true).unwrap());
            } else {
                let sh = shape_of(cfg.specs, kind@).unwrap();
                let n = children@.len();
                lemma_boundary_children(cfg, k, t, n);
                let ek = walk_children(ck, t, false, n).unwrap();
                let en = walk_children(cn, t, true, n).unwrap();
                assert(walk(ck, t, label, false) == Ok::<Seq<Event>, WalkError>(ek));
                lemma_subsequence_within(
                    ek,
                    en,
                    seq![Event::NodeStart { description: label, node: t }],
                    seq![Event::NodeEnd { description: label, node: t }],
                );
            }
        },
    }
}

proof fn lemma_boundary_children(cfg: WalkConfig, k: Seq<char>, t: SyntaxTree, i: nat)
    requires
        t is Node,
        t.spec_kind() != k,
        i <= t->children@.len(),
        children_outside_ok(cfg, k, t, i),
        walk_children(without_top(cfg), t, true, i) is Ok,
    ensures
        walk_children(with_top(cfg, k), t, false, i) is Ok,
        is_subsequence(
            walk_children(with_top(cfg, k), t, false, i).unwrap(),
            walk_children(without_top(cfg), t, true, i).unwrap(),
        ),
    decreases t, 0nat, i,
{
    let ck = with_top(cfg, k);
    let cn = without_top(cfg);
    if let SyntaxTree::Node { kind, children } = t {
        if i == 0 {
            lemma_subsequence_refl(Seq::empty());
        } else {
            lemma_boundary_children(cfg, k, t, (i - 1) as nat);
            let lab = child_label(shape_of(cfg.specs, kind@).unwrap(), (i - 1) as nat);
            lemma_boundary(cfg, k, children@[i - 1], lab);
            lemma_subsequence_concat(
                walk_children(ck, t, false, (i - 1) as nat).unwrap(),
                walk_children(cn, t, true, (i - 1) as nat).unwrap(),
                walk(ck, children@[i - 1], lab, false).unwrap(),
                walk(cn, children@[i - 1], lab, true).unwrap(),
            );
        }
    }
}

/// Setting a top-level boundary at the kind `k` keeps, of the calls that a
/// walk of the whole tree makes, those for the nodes inside the boundary, in
/// the same order, and adds none: there are at most as many. This holds
/// wherever an ignored node outside the boundary has no boundary node under it.
pub proof fn lemma_boundary_keeps_order(
    cfg: WalkConfig,
    k: Seq<char>,
    t: SyntaxTree,
    label: Seq<char>,
)
    requires
        outside_ok(cfg, k, t, label),
        walk(without_top(cfg), t, label, true) is Ok,
    ensures
        walk(with_top(cfg, k), t, label, false) is Ok,
        is_subsequence(
            walk(with_top(cfg, k), t, label, false).unwrap(),
            walk(without_top(cfg), t, label, true).unwrap(),
        ),
        walk(with_top(cfg, k), t, label, false).unwrap().len() <= walk(
            without_top(cfg),
            t,
            label,
            true,
        ).unwrap().len(),
{
    lemma_boundary(cfg, k, t, label);
    lemma_subsequence_len(
        walk(with_top(cfg, k), t, label, false).unwrap(),
        walk(without_top(cfg), t, label, true).unwrap(),
    );
}


/// The engine state after the calls `evs`, starting from `st`.
pub open spec fn md_apply(st: MarkdownState, evs: Seq<Event>) -> MarkdownState
    decreases evs.len(),
{
    if evs.len() == 0 {
        st
    } else {
        md_step(md_apply(st, evs.drop_last()), evs.last())
    }
}

proof fn lemma_md_apply_concat(st: MarkdownState, a: Seq<Event>, b: Seq<Event>)
    ensures
        md_apply(st, a + b) == md_apply(md_apply(st, a), b),
    decreases b.len(),
{
    if b.len() == 0 {
        assert(a + b =~= a);
    } else {
        lemma_md_apply_concat(st, a, b.drop_last());
        assert((a + b).drop_last() =~= a + b.drop_last());
        assert((a + b).last() == b.last());
    }
}

proof fn lemma_md_run_apply(log: Seq<Event>)
    ensures
        md_run(log) == md_apply(md_initial(), log),
    decreases log.len(),
{
    if log.len() > 0 {
        lemma_md_run_apply(log.drop_last());
    }
}

proof fn lemma_md_apply_one(st: MarkdownState, e: Event)
    ensures
        md_apply(st, seq![e]) == md_step(st, e),
{
    assert(seq![e].drop_last() =~= Seq::<Event>::empty());
    assert(md_apply(st, Seq::<Event>::empty()) == st);
}

/// The engine's open nodes and its flag, after the calls of a walk, are what
/// they were before.
proof fn lemma_walk_balanced(
    cfg: WalkConfig,
    t: SyntaxTree,
    label: Seq<char>,
    under: bool,
    st: MarkdownState,
)
    requires
        walk(cfg, t, label, under) is Ok,
    ensures
        md_apply(st, walk(cfg, t, label, under).unwrap()).nodes == st.nodes,
        md_apply(st, walk(cfg, t, label, under).unwrap()).unbalanced == st.unbalanced,
    decreases t, 1nat, 0nat,
{
    let evs = walk(cfg, t, label, under).unwrap();
    match t {
        SyntaxTree::Token { .. } => {
            if under {
                lemma_md_apply_one(st, evs[0]);
                assert(evs =~= seq![evs[0]]);
            } else {
                assert(evs =~= Seq::<Event>::empty());
            }
        },
        SyntaxTree::Node { kind, children } => {
            let u2 = reported(cfg, kind@, under);
            if collapses(cfg, t, under) {
                lemma_walk_balanced(cfg, children@[1], label, u2, st);
            } else {
                let stops = (u2 && cfg.ignored_kinds.contains(kind@)) || children@.len() == 0;
                let inner = if stops {
                    Seq::<Event>::empty()
                } else {
                    walk_children(cfg, t, u2, children@.len()).unwrap()
                };
                if !stops {
                    let sh = shape_of(cfg.specs, kind@).unwrap();
                    lemma_walk_node(cfg, t, label, under, sh);
                }
                let s_ev = Event::NodeStart { description: label, node: t };
                let e_ev = Event::NodeEnd { description: label, node: t };
                if u2 {
                    assert(evs == seq![s_ev] + inner + seq![e_ev]);
                    lemma_md_apply_concat(st, seq![s_ev] + inner, seq![e_ev]);
                    lemma_md_apply_concat(st, seq![s_ev], inner);
                    lemma_md_apply_one(st, s_ev);
                    let st1 = md_step(st, s_ev);
                    if stops {
                        assert(md_apply(st1, inner) == st1);
                    } else {
                        lemma_children_balanced(cfg, t, u2, children@.len(), st1);
                    }
                    lemma_md_apply_one(md_apply(st1, inner), e_ev);
                } else {
                    assert(evs == inner);
                    if stops {
                        assert(md_apply(st, inner) == st);
                    } else {
                        lemma_children_balanced(cfg, t, u2, children@.len(), st);
                    }
                }
            }
        },
    }
}

proof fn lemma_children_balanced(cfg: WalkConfig, t: SyntaxTree, under: bool, i: nat, st: MarkdownState)
    requires
        walk_children(cfg, t, under, i) is Ok,
    ensures
        md_apply(st, walk_children(cfg, t, under, i).unwrap()).nodes == st.nodes,
        md_apply(st, walk_children(cfg, t, under, i).unwrap()).unbalanced == st.unbalanced,
    decreases t, 0nat, i,
{
    if let SyntaxTree::Node { kind, children } = t {
        if i > 0 && i <= children@.len() {
            let prev = walk_children(cfg, t, under, (i - 1) as nat).unwrap();
            let lab = child_label(shape_of(cfg.specs, kind@).unwrap(), (i - 1) as nat);
            let evs = walk(cfg, children@[i - 1], lab, under).unwrap();
            lemma_children_balanced(cfg, t, under, (i - 1) as nat, st);
            lemma_walk_balanced(cfg, children@[i - 1], lab, under, md_apply(st, prev));
            lemma_md_apply_concat(st, prev, evs);
        } else {
            assert(walk_children(cfg, t, under, i).unwrap() =~= Seq::<Event>::empty());
        }
    }
}

/// The calls of a walk are nested as the tree is: a Markdown engine that
/// receives them ends with the nodes that were open before, and never meets
/// the end of a node that it has not seen start.
pub proof fn lemma_walk_keeps_engine_balanced(
    cfg: WalkConfig,
    t: SyntaxTree,
    label: Seq<char>,
    under: bool,
    log: Seq<Event>,
)
    requires
        walk(cfg, t, label, under) is Ok,
    ensures
        md_run(log + walk(cfg, t, label, under).unwrap()).nodes == md_run(log).nodes,
        md_run(log + walk(cfg, t, label, under).unwrap()).unbalanced == md_run(log).unbalanced,
{
    let evs = walk(cfg, t, label, under).unwrap();
    lemma_md_run_apply(log);
    lemma_md_run_apply(log + evs);
    lemma_md_apply_concat(md_initial(), log, evs);
    lemma_walk_balanced(cfg, t, label, under, md_apply(md_initial(), log));
}

} // verus!
