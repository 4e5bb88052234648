//! The library's global laws, stated and proved over the specification-level
//! grammar and reducer that every executable parser is already proved to
//! agree with.

use vstd::prelude::*;
use crate::attributes::{spec_match_attributes, spec_match_global, spec_match_globals,
    spec_split_attributes};
use crate::component::{spec_parse_component, spec_split_globals};
use crate::grammar::{spec_match_text_piece, spec_parse_closing_tag, spec_parse_expression_group,
    spec_parse_html, spec_parse_node, spec_parse_nodes, spec_parse_opening_tag,
    spec_parse_regular, spec_parse_self_closing, spec_parse_text, OpeningTagView};
use crate::ir::{AttrEntryView, ComponentIRView, GlobalHandlerView, HandlerView, DomRefView,
    LifecycleHandlerView, NodeView, ParsedNodeView, WindowHandlerView};
use crate::matchers::{spec_match_identifier, spec_match_punctuation};
use crate::reduce::{spec_annotate_handler, spec_annotate_handlers, spec_annotate_ref,
    spec_annotate_refs, spec_merge_from, spec_reduce_to_node};
use crate::tokens::{Adjacency, ErrorView, SpecStep, TokenView};

verus! {

broadcast use vstd::seq::group_seq_axioms;

/// `h` is some sibling's handler record with that sibling's index appended to
/// its reversed path, the siblings being `ns` counted from `i0`.
pub open spec fn handler_originates(ns: Seq<ParsedNodeView>, i0: int, h: HandlerView) -> bool {
    exists|s: int, m: int|
        0 <= s < ns.len() && 0 <= m < ns[s].handlers.len() && h == spec_annotate_handler(
            #[trigger] ns[s].handlers[m],
            (i0 + s) as usize,
        )
}

/// `r` is some sibling's DOM-reference record with that sibling's index
/// appended to its reversed path.
pub open spec fn ref_originates(ns: Seq<ParsedNodeView>, i0: int, r: DomRefView) -> bool {
    exists|s: int, m: int|
        0 <= s < ns.len() && 0 <= m < ns[s].dom_refs.len() && r == spec_annotate_ref(
            #[trigger] ns[s].dom_refs[m],
            (i0 + s) as usize,
        )
}

/// Folding a sibling list starting at index `i0`, every handler and every DOM
/// reference in the combined output is some source sibling's record with that
/// sibling's own index appended to its reversed path — so every record under
/// sibling `s` has a reversed path ending with `i0 + s`, and no record is
/// invented or annotated with a foreign index.
pub proof fn lemma_sibling_paths(ns: Seq<ParsedNodeView>, i0: int)
    requires
        0 <= i0,
        i0 + ns.len() <= usize::MAX,
    ensures
        forall|k: int|
            0 <= k < spec_merge_from(ns, i0).1.len() ==> handler_originates(
                ns,
                i0,
                #[trigger] spec_merge_from(ns, i0).1[k],
            ),
        forall|k: int|
            0 <= k < spec_merge_from(ns, i0).2.len() ==> ref_originates(
                ns,
                i0,
                #[trigger] spec_merge_from(ns, i0).2[k],
            ),
    decreases ns.len(),
{
    if ns.len() > 0 {
        let tail = ns.subrange(1, ns.len() as int);
        lemma_sibling_paths(tail, i0 + 1);
        let head_handlers = spec_annotate_handlers(ns[0].handlers, i0 as usize);
        let head_refs = spec_annotate_refs(ns[0].dom_refs, i0 as usize);
        let merged = spec_merge_from(ns, i0);
        let tail_merged = spec_merge_from(tail, i0 + 1);
        assert forall|k: int| 0 <= k < merged.1.len() implies handler_originates(
            ns,
            i0,
            #[trigger] merged.1[k],
        ) by {
            if k < head_handlers.len() {
                assert(merged.1[k] == spec_annotate_handler(ns[0].handlers[k], (i0 + 0) as usize));
            } else {
                let k2 = k - head_handlers.len();
                assert(merged.1[k] == tail_merged.1[k2]);
                assert(handler_originates(tail, i0 + 1, tail_merged.1[k2]));
                let (s2, m2): (int, int) = choose|s2: int, m2: int|
                    0 <= s2 < tail.len() && 0 <= m2 < tail[s2].handlers.len() && tail_merged.1[k2]
                        == spec_annotate_handler(
                        #[trigger] tail[s2].handlers[m2],
                        (i0 + 1 + s2) as usize,
                    );
                assert(tail[s2] == ns[s2 + 1]);
                assert(merged.1[k] == spec_annotate_handler(
                    ns[s2 + 1].handlers[m2],
                    (i0 + (s2 + 1)) as usize,
                ));
            }
        }
        assert forall|k: int| 0 <= k < merged.2.len() implies ref_originates(
            ns,
            i0,
            #[trigger] merged.2[k],
        ) by {
            if k < head_refs.len() {
                assert(merged.2[k] == spec_annotate_ref(ns[0].dom_refs[k], (i0 + 0) as usize));
            } else {
                let k2 = k - head_refs.len();
                assert(merged.2[k] == tail_merged.2[k2]);
                assert(ref_originates(tail, i0 + 1, tail_merged.2[k2]));
                let (s2, m2): (int, int) = choose|s2: int, m2: int|
                    0 <= s2 < tail.len() && 0 <= m2 < tail[s2].dom_refs.len() && tail_merged.2[k2]
                        == spec_annotate_ref(
                        #[trigger] tail[s2].dom_refs[m2],
                        (i0 + 1 + s2) as usize,
                    );
                assert(tail[s2] == ns[s2 + 1]);
                assert(merged.2[k] == spec_annotate_ref(
                    ns[s2 + 1].dom_refs[m2],
                    (i0 + (s2 + 1)) as usize,
                ));
            }
        }
    }
}

/// An annotated record's reversed path is nonempty, ends with exactly the
/// sibling index appended, and keeps the record's previous path in front of
/// it — the index appended last identifies the sibling.
pub proof fn lemma_annotated_path_ends_with_sibling_index(orig: HandlerView, i: usize)
    ensures
        spec_annotate_handler(orig, i).reversed_path.len() > 0,
        spec_annotate_handler(orig, i).reversed_path.last() == i,
        spec_annotate_handler(orig, i).reversed_path.drop_last() == orig.reversed_path,
{
    assert(spec_annotate_handler(orig, i).reversed_path.drop_last() =~= orig.reversed_path);
}

/// Two nonempty reversed paths that end in different sibling indices address
/// disjoint subtrees: after reversal, neither root-to-node address is a
/// prefix of the other, since the two addresses already part ways at the
/// root-level index.
pub proof fn lemma_distinct_siblings_share_no_prefix(p1: Seq<usize>, p2: Seq<usize>)
    requires
        p1.len() > 0,
        p2.len() > 0,
        p1.last() != p2.last(),
    ensures
        !p1.reverse().is_prefix_of(p2.reverse()),
        !p2.reverse().is_prefix_of(p1.reverse()),
{
    assert(p1.reverse()[0] == p1.last());
    assert(p2.reverse()[0] == p2.last());
    if p1.reverse().is_prefix_of(p2.reverse()) {
        assert(p1.reverse()[0] == p2.reverse().subrange(0, p1.len() as int)[0]);
    }
    if p2.reverse().is_prefix_of(p1.reverse()) {
        assert(p2.reverse()[0] == p1.reverse().subrange(0, p2.len() as int)[0]);
    }
}

/// A tree built of html nodes alone, with no attributes anywhere: the shapes
/// over which the structure round-trip law is stated.
pub open spec fn plain_html_tree(n: NodeView) -> bool
    decreases n,
{
    match n {
        NodeView::Html { name, attributes, children } => attributes.len() == 0
            && plain_html_trees(children),
        _ => false,
    }
}

/// Every tree of the sequence is a plain html tree.
pub open spec fn plain_html_trees(ns: Seq<NodeView>) -> bool
    decreases ns,
{
    if ns.len() == 0 {
        true
    } else {
        plain_html_tree(ns[0]) && plain_html_trees(ns.subrange(1, ns.len() as int))
    }
}

/// The token sequence that writes a plain html tree down: a childless node as
/// a self-closing tag, a node with children as an opening tag, its children's
/// tokens in order, and the matching closing tag.
pub open spec fn tree_tokens(n: NodeView) -> Seq<TokenView>
    decreases n,
{
    match n {
        NodeView::Html { name, attributes, children } => {
            if children.len() == 0 {
                seq![
                    TokenView::Punctuation('<', Adjacency::Alone),
                    TokenView::Identifier(name),
                    TokenView::Punctuation('/', Adjacency::Joint),
                    TokenView::Punctuation('>', Adjacency::Alone),
                ]
            } else {
                seq![
                    TokenView::Punctuation('<', Adjacency::Alone),
                    TokenView::Identifier(name),
                    TokenView::Punctuation('>', Adjacency::Alone),
                ] + trees_tokens(children) + seq![
                    TokenView::Punctuation('<', Adjacency::Joint),
                    TokenView::Punctuation('/', Adjacency::Alone),
                    TokenView::Identifier(name),
                    TokenView::Punctuation('>', Adjacency::Alone),
                ]
            }
        },
        _ => Seq::empty(),
    }
}

/// The token sequences of a sibling list, concatenated in source order.
pub open spec fn trees_tokens(ns: Seq<NodeView>) -> Seq<TokenView>
    decreases ns,
{
    if ns.len() == 0 {
        Seq::empty()
    } else {
        tree_tokens(ns[0]) + trees_tokens(ns.subrange(1, ns.len() as int))
    }
}

/// The parse result a plain html tree must come back as: the tree itself,
/// with no handlers and no references.
pub open spec fn parsed_of_tree(n: NodeView) -> ParsedNodeView {
    ParsedNodeView { rendered: n, handlers: Seq::empty(), dom_refs: Seq::empty() }
}

/// The parse results of a whole sibling list.
pub open spec fn parsed_of_trees(ns: Seq<NodeView>) -> Seq<ParsedNodeView> {
    ns.map_values(|n: NodeView| parsed_of_tree(n))
}

/// No node can start at the end of the input or at the `<` of a closing tag:
/// the node alternation fails with a recoverable mismatch there, which is what
/// lets a child list stop exactly at its parent's closing tag.
proof fn lemma_stopper_no_node(v: Seq<TokenView>)
    requires
        v.len() == 0 || v[0] == TokenView::Punctuation('<', Adjacency::Joint),
    ensures
        spec_parse_node(v) == SpecStep::<ParsedNodeView>::Failed(ErrorView::LocalMismatch),
{
    if v.len() > 0 {
        assert(seq!['<'][0] == '<');
        assert(seq!['<'].contains('<'));
    }
    assert(spec_parse_self_closing(v) == SpecStep::<ParsedNodeView>::Failed(
        ErrorView::LocalMismatch,
    ));
    assert(spec_parse_opening_tag(v) == SpecStep::<OpeningTagView>::Failed(
        ErrorView::LocalMismatch,
    ));
    assert(spec_parse_regular(v) == SpecStep::<ParsedNodeView>::Failed(ErrorView::LocalMismatch));
    assert(spec_parse_html(v) == SpecStep::<ParsedNodeView>::Failed(ErrorView::LocalMismatch));
    assert(spec_match_text_piece(v) == SpecStep::<Seq<char>>::Failed(ErrorView::LocalMismatch));
    assert(spec_parse_text(v) == SpecStep::<ParsedNodeView>::Failed(ErrorView::LocalMismatch));
    assert(spec_parse_expression_group(v) == SpecStep::<ParsedNodeView>::Failed(
        ErrorView::LocalMismatch,
    ));
}

/// A plain html tree's token sequence is nonempty and starts with the `<` of
/// an opening or self-closing tag.
proof fn lemma_tree_tokens_shape(t: NodeView)
    requires
        plain_html_tree(t),
    ensures
        tree_tokens(t).len() >= 4,
        tree_tokens(t)[0] == TokenView::Punctuation('<', Adjacency::Alone),
{
}

/// Folding siblings that carry no handlers and no references yields exactly
/// their rendered trees, in order, and no records.
proof fn lemma_merge_plain(ns: Seq<NodeView>, i0: int)
    ensures
        spec_merge_from(parsed_of_trees(ns), i0).0 == ns,
        spec_merge_from(parsed_of_trees(ns), i0).1 == Seq::<HandlerView>::empty(),
        spec_merge_from(parsed_of_trees(ns), i0).2 == Seq::<DomRefView>::empty(),
    decreases ns.len(),
{
    let ps = parsed_of_trees(ns);
    if ns.len() == 0 {
        assert(ps.len() == 0);
    } else {
        let tail = ns.subrange(1, ns.len() as int);
        lemma_merge_plain(tail, i0 + 1);
        assert(ps.subrange(1, ps.len() as int) =~= parsed_of_trees(tail));
        assert(spec_annotate_handlers(ps[0].handlers, i0 as usize) =~= Seq::<
            HandlerView,
        >::empty());
        assert(spec_annotate_refs(ps[0].dom_refs, i0 as usize) =~= Seq::<DomRefView>::empty());
        assert(spec_merge_from(ps, i0).0 =~= ns);
        assert(spec_merge_from(ps, i0).1 =~= Seq::<HandlerView>::empty());
        assert(spec_merge_from(ps, i0).2 =~= Seq::<DomRefView>::empty());
    }
}

/// The structure round-trip law for one node: writing any plain html tree
/// down and parsing one node from the result yields exactly that tree back —
/// same sibling order and same nesting depth — with nothing consumed beyond
/// it, whatever follows.
pub proof fn theorem_parse_node_round_trip(t: NodeView, rest: Seq<TokenView>)
    requires
        plain_html_tree(t),
    ensures
        spec_parse_node(tree_tokens(t) + rest) == SpecStep::<ParsedNodeView>::Matched(
            parsed_of_tree(t),
            rest,
        ),
    decreases t,
{
    let toks = tree_tokens(t) + rest;
    match t {
        NodeView::Html { name, attributes, children } => {
            assert(attributes =~= Seq::<crate::ir::AttributeView>::empty());
            if children.len() == 0 {
                let a = TokenView::Punctuation('<', Adjacency::Alone);
                let b = TokenView::Identifier(name);
                let c = TokenView::Punctuation('/', Adjacency::Joint);
                let d = TokenView::Punctuation('>', Adjacency::Alone);
                assert(toks =~= seq![a, b, c, d] + rest);
                assert(toks[0] == a);
                assert(toks.skip(1)[0] == b);
                assert(toks.skip(2)[0] == c);
                assert(toks.skip(3)[0] == d);
                assert(spec_match_punctuation(toks, Some('<'), Some(Adjacency::Alone), Seq::empty())
                    == SpecStep::<char>::Matched('<', toks.skip(1)));
                assert(spec_match_identifier(toks.skip(1)) == SpecStep::<Seq<char>>::Matched(
                    name,
                    toks.skip(1).skip(1),
                ));
                assert(toks.skip(1).skip(1) =~= toks.skip(2));
                assert(spec_match_attributes(toks.skip(2)) == (
                    Seq::<AttrEntryView>::empty(),
                    toks.skip(2),
                ));
                assert(toks.skip(2).skip(1) =~= toks.skip(3));
                assert(toks.skip(3).skip(1) =~= rest);
                assert(spec_split_attributes(Seq::empty()) == (
                    Seq::<crate::ir::AttributeView>::empty(),
                    Seq::<HandlerView>::empty(),
                    Seq::<DomRefView>::empty(),
                ));
                assert(children =~= Seq::<NodeView>::empty());
                assert(spec_parse_self_closing(toks) == SpecStep::<ParsedNodeView>::Matched(
                    parsed_of_tree(t),
                    rest,
                ));
                assert(spec_parse_html(toks) == SpecStep::<ParsedNodeView>::Matched(
                    parsed_of_tree(t),
                    rest,
                ));
            } else {
                let a = TokenView::Punctuation('<', Adjacency::Alone);
                let b = TokenView::Identifier(name);
                let g = TokenView::Punctuation('>', Adjacency::Alone);
                let cj = TokenView::Punctuation('<', Adjacency::Joint);
                let sl = TokenView::Punctuation('/', Adjacency::Alone);
                let close = seq![cj, sl, b, g];
                let mid = trees_tokens(children);
                let after_open = mid + (close + rest);
                assert(toks =~= seq![a, b, g] + after_open);
                assert(toks[0] == a);
                assert(toks.skip(1)[0] == b);
                assert(toks.skip(2)[0] == g);
                assert(toks.skip(1).skip(1) =~= toks.skip(2));
                assert(spec_match_attributes(toks.skip(2)) == (
                    Seq::<AttrEntryView>::empty(),
                    toks.skip(2),
                ));
                // The self-closing rule is tried first and mismatches at `>`.
                assert(spec_parse_self_closing(toks) == SpecStep::<ParsedNodeView>::Failed(
                    ErrorView::LocalMismatch,
                ));
                // The opening tag of the regular rule.
                assert(toks.skip(2).skip(1) =~= after_open);
                assert(spec_parse_opening_tag(toks) == SpecStep::<OpeningTagView>::Matched(
                    OpeningTagView { name, entries: Seq::empty() },
                    after_open,
                ));
                // The children consume exactly their own tokens.
                theorem_parse_siblings_round_trip(children, close + rest);
                assert((close + rest)[0] == cj);
                assert(trees_tokens(children) + (close + rest) =~= after_open);
                assert(spec_parse_nodes(after_open) == SpecStep::<Seq<ParsedNodeView>>::Matched(
                    parsed_of_trees(children),
                    close + rest,
                ));
                // The closing tag gives the same name back.
                let cr = close + rest;
                assert(cr[0] == cj);
                assert(cr.skip(1)[0] == sl);
                assert(cr.skip(1).skip(1) =~= cr.skip(2));
                assert(cr.skip(2)[0] == b);
                assert(cr.skip(2).skip(1) =~= cr.skip(3));
                assert(cr.skip(3)[0] == g);
                assert(cr.skip(3).skip(1) =~= rest);
                assert(spec_parse_closing_tag(cr) == SpecStep::<Seq<char>>::Matched(name, rest));
                // Assembly: no attribute-derived records, and the children
                // carry none either.
                assert(spec_split_attributes(Seq::empty()) == (
                    Seq::<crate::ir::AttributeView>::empty(),
                    Seq::<HandlerView>::empty(),
                    Seq::<DomRefView>::empty(),
                ));
                lemma_merge_plain(children, 0);
                assert(Seq::<HandlerView>::empty() + Seq::<HandlerView>::empty() =~= Seq::<
                    HandlerView,
                >::empty());
                assert(Seq::<DomRefView>::empty() + Seq::<DomRefView>::empty() =~= Seq::<
                    DomRefView,
                >::empty());
                assert(after_open.len() < toks.len());
                assert(spec_parse_regular(toks) == SpecStep::<ParsedNodeView>::Matched(
                    parsed_of_tree(t),
                    rest,
                ));
                assert(spec_parse_html(toks) == SpecStep::<ParsedNodeView>::Matched(
                    parsed_of_tree(t),
                    rest,
                ));
            }
        },
        _ => {
            assert(false);
        },
    }
}

/// The structure round-trip law for a sibling list: writing any plain html
/// sibling list down and parsing nodes from the result yields exactly those
/// trees back, in source order, stopping exactly where the list's tokens end
/// — provided what follows can start no node, as at the end of the input or
/// at an enclosing closing tag.
pub proof fn theorem_parse_siblings_round_trip(ns: Seq<NodeView>, rest: Seq<TokenView>)
    requires
        plain_html_trees(ns),
        rest.len() == 0 || rest[0] == TokenView::Punctuation('<', Adjacency::Joint),
    ensures
        spec_parse_nodes(trees_tokens(ns) + rest) == SpecStep::<Seq<ParsedNodeView>>::Matched(
            parsed_of_trees(ns),
            rest,
        ),
    decreases ns,
{
    let toks = trees_tokens(ns) + rest;
    if ns.len() == 0 {
        assert(toks =~= rest);
        lemma_stopper_no_node(rest);
        assert(parsed_of_trees(ns) =~= Seq::<ParsedNodeView>::empty());
        assert(spec_parse_nodes(rest) == SpecStep::<Seq<ParsedNodeView>>::Matched(
            parsed_of_trees(ns),
            rest,
        ));
    } else {
        let tail = ns.subrange(1, ns.len() as int);
        let tail_toks = trees_tokens(tail) + rest;
        assert(toks =~= tree_tokens(ns[0]) + tail_toks);
        theorem_parse_node_round_trip(ns[0], tail_toks);
        lemma_tree_tokens_shape(ns[0]);
        assert(tail_toks.len() < toks.len());
        theorem_parse_siblings_round_trip(tail, rest);
        assert(seq![parsed_of_tree(ns[0])] + parsed_of_trees(tail) =~= parsed_of_trees(ns));
    }
}

/// The structure round-trip law at the public entry point: a whole component
/// written down as a plain html sibling list parses back to exactly those
/// trees, reduced in source order, with no handler, reference or
/// component-level record, and the ownership-mode flag threaded through.
pub proof fn theorem_component_round_trip(ns: Seq<NodeView>, owns_captures: bool)
    requires
        plain_html_trees(ns),
    ensures
        spec_parse_component(trees_tokens(ns), owns_captures) == Ok::<
            ComponentIRView,
            ErrorView,
        >(
            ComponentIRView {
                rendered_tree: spec_reduce_to_node(ns),
                event_handlers: Seq::empty(),
                window_handlers: Seq::empty(),
                lifecycle_handlers: Seq::empty(),
                dom_refs: Seq::empty(),
                owns_captures,
            },
        ),
{
    let toks = trees_tokens(ns);
    // No component-level declaration can start here: the input is empty or
    // starts with the `<` of a tag, never with an identifier.
    if ns.len() > 0 {
        lemma_tree_tokens_shape(ns[0]);
        assert(toks[0] == TokenView::Punctuation('<', Adjacency::Alone));
    }
    assert(spec_match_global(toks) == SpecStep::<GlobalHandlerView>::Failed(
        ErrorView::LocalMismatch,
    ));
    assert(spec_match_globals(toks) == (Seq::<GlobalHandlerView>::empty(), toks));
    assert(toks + Seq::<TokenView>::empty() =~= toks);
    theorem_parse_siblings_round_trip(ns, Seq::empty());
    lemma_merge_plain(ns, 0);
    assert(spec_split_globals(Seq::empty()) == (
        Seq::<WindowHandlerView>::empty(),
        Seq::<LifecycleHandlerView>::empty(),
    ));
}

} // verus!
