//! Path annotation and tree reduction.
//!
//! Given the ordered results of parsing a sibling list, sibling `i` appends
//! its index `i` to the reversed path of every handler and DOM reference
//! already accumulated in its subtree, and the siblings' rendered fragments
//! are kept in source order. Reducing a root sibling list to one combined
//! node maps zero siblings to the explicit empty marker, one sibling to
//! itself, and several siblings to an order-preserving fragment.

use vstd::prelude::*;
use crate::ir::{DomRefInfo, DomRefView, HandlerView, NodeView, ParsedNode, ParsedNodeView,
    RenderedNode, UIEventHandlingInfo};

verus! {

broadcast use
    vstd::std_specs::vec::group_vec_axioms,
    vstd::seq::group_seq_axioms,
    crate::ir::lemma_vec_deep_view_is_node_views;

/// One handler record with the sibling index `i` appended to its reversed
/// path; everything else is kept.
pub open spec fn spec_annotate_handler(h: HandlerView, i: usize) -> HandlerView {
    HandlerView {
        reversed_path: h.reversed_path.push(i),
        event: h.event,
        callback: h.callback,
        is_group_expression: h.is_group_expression,
    }
}

/// Every handler of one subtree annotated with that subtree's sibling index.
pub open spec fn spec_annotate_handlers(hs: Seq<HandlerView>, i: usize) -> Seq<HandlerView> {
    hs.map_values(|h: HandlerView| spec_annotate_handler(h, i))
}

/// One DOM-reference record with the sibling index `i` appended to its
/// reversed path.
pub open spec fn spec_annotate_ref(r: DomRefView, i: usize) -> DomRefView {
    DomRefView { reversed_path: r.reversed_path.push(i), ref_name: r.ref_name }
}

/// Every DOM reference of one subtree annotated with that subtree's sibling
/// index.
pub open spec fn spec_annotate_refs(rs: Seq<DomRefView>, i: usize) -> Seq<DomRefView> {
    rs.map_values(|r: DomRefView| spec_annotate_ref(r, i))
}

/// Appends the sibling index `i` to the reversed path of every handler.
pub fn annotate_handlers(hs: Vec<UIEventHandlingInfo>, i: usize) -> (r: Vec<UIEventHandlingInfo>)
    ensures
        r.deep_view() == spec_annotate_handlers(hs.deep_view(), i),
    decreases hs@.len(),
{
    let mut hs = hs;
    if hs.len() == 0 {
        let out: Vec<UIEventHandlingInfo> = Vec::new();
        proof {
            assert(out.deep_view() =~= spec_annotate_handlers(hs.deep_view(), i));
        }
        out
    } else {
        let ghost whole = hs.deep_view();
        let head = hs.remove(0);
        proof {
            assert(hs.deep_view() =~= whole.subrange(1, whole.len() as int));
        }
        let UIEventHandlingInfo { mut reversed_path, event, callback, is_group_expression } = head;
        reversed_path.push(i);
        let annotated = UIEventHandlingInfo { reversed_path, event, callback, is_group_expression };
        let mut tail = annotate_handlers(hs, i);
        let ghost tail_view = tail.deep_view();
        tail.insert(0, annotated);
        proof {
            assert(spec_annotate_handlers(whole, i) =~= seq![spec_annotate_handler(whole[0], i)]
                + spec_annotate_handlers(whole.subrange(1, whole.len() as int), i));
            assert(tail.deep_view() =~= seq![annotated.deep_view()] + tail_view);
        }
        tail
    }
}

/// Appends the sibling index `i` to the reversed path of every DOM reference.
pub fn annotate_refs(rs: Vec<DomRefInfo>, i: usize) -> (r: Vec<DomRefInfo>)
    ensures
        r.deep_view() == spec_annotate_refs(rs.deep_view(), i),
    decreases rs@.len(),
{
    let mut rs = rs;
    if rs.len() == 0 {
        let out: Vec<DomRefInfo> = Vec::new();
        proof {
            assert(out.deep_view() =~= spec_annotate_refs(rs.deep_view(), i));
        }
        out
    } else {
        let ghost whole = rs.deep_view();
        let head = rs.remove(0);
        proof {
            assert(rs.deep_view() =~= whole.subrange(1, whole.len() as int));
        }
        let DomRefInfo { mut reversed_path, ref_name } = head;
        reversed_path.push(i);
        let annotated = DomRefInfo { reversed_path, ref_name };
        let mut tail = annotate_refs(rs, i);
        let ghost tail_view = tail.deep_view();
        tail.insert(0, annotated);
        proof {
            assert(spec_annotate_refs(whole, i) =~= seq![spec_annotate_ref(whole[0], i)]
                + spec_annotate_refs(whole.subrange(1, whole.len() as int), i));
            assert(tail.deep_view() =~= seq![annotated.deep_view()] + tail_view);
        }
        tail
    }
}

/// Folds a sibling list from sibling index `i` on: the rendered fragments in
/// source order, and every subtree's handlers and references annotated with
/// that subtree's sibling index, concatenated in source order.
pub open spec fn spec_merge_from(ns: Seq<ParsedNodeView>, i: int) -> (
    Seq<NodeView>,
    Seq<HandlerView>,
    Seq<DomRefView>,
)
    decreases ns.len(),
{
    if ns.len() == 0 {
        (Seq::empty(), Seq::empty(), Seq::empty())
    } else {
        let head = ns[0];
        let (tail_nodes, tail_handlers, tail_refs) = spec_merge_from(
            ns.subrange(1, ns.len() as int),
            i + 1,
        );
        (
            seq![head.rendered] + tail_nodes,
            spec_annotate_handlers(head.handlers, i as usize) + tail_handlers,
            spec_annotate_refs(head.dom_refs, i as usize) + tail_refs,
        )
    }
}

/// Folds a whole sibling list, the first sibling having index 0.
pub open spec fn spec_merge_siblings(ns: Seq<ParsedNodeView>) -> (
    Seq<NodeView>,
    Seq<HandlerView>,
    Seq<DomRefView>,
) {
    spec_merge_from(ns, 0)
}

/// Folds a sibling list from sibling index `i` on.
pub fn merge_from(nodes: Vec<ParsedNode>, i: usize) -> (r: (
    Vec<RenderedNode>,
    Vec<UIEventHandlingInfo>,
    Vec<DomRefInfo>,
))
    requires
        i + nodes@.len() <= usize::MAX,
    ensures
        spec_merge_from(nodes.deep_view(), i as int) == (
            r.0.deep_view(),
            r.1.deep_view(),
            r.2.deep_view(),
        ),
    decreases nodes@.len(),
{
    let mut nodes = nodes;
    if nodes.len() == 0 {
        let r: (Vec<RenderedNode>, Vec<UIEventHandlingInfo>, Vec<DomRefInfo>) = (
            Vec::new(),
            Vec::new(),
            Vec::new(),
        );
        proof {
            assert(nodes.deep_view() =~= Seq::<ParsedNodeView>::empty());
            assert(r.0.deep_view() =~= Seq::<NodeView>::empty());
            assert(r.1.deep_view() =~= Seq::<HandlerView>::empty());
            assert(r.2.deep_view() =~= Seq::<DomRefView>::empty());
        }
        r
    } else {
        let ghost whole = nodes.deep_view();
        let head = nodes.remove(0);
        proof {
            assert(nodes.deep_view() =~= whole.subrange(1, whole.len() as int));
        }
        let (mut tail_nodes, mut tail_handlers, mut tail_refs) = merge_from(nodes, i + 1);
        let mut handlers = annotate_handlers(head.handlers, i);
        let mut refs = annotate_refs(head.dom_refs, i);
        let ghost handlers_view = handlers.deep_view();
        let ghost refs_view = refs.deep_view();
        let ghost tail_nodes_view = tail_nodes.deep_view();
        handlers.append(&mut tail_handlers);
        refs.append(&mut tail_refs);
        tail_nodes.insert(0, head.rendered);
        proof {
            assert(handlers.deep_view() =~= handlers_view + spec_merge_from(
                whole.subrange(1, whole.len() as int),
                i + 1,
            ).1);
            assert(refs.deep_view() =~= refs_view + spec_merge_from(
                whole.subrange(1, whole.len() as int),
                i + 1,
            ).2);
            assert(tail_nodes.deep_view() =~= seq![whole[0].rendered] + tail_nodes_view);
        }
        (tail_nodes, handlers, refs)
    }
}

/// Folds a whole sibling list, the first sibling having index 0.
pub fn merge_siblings(nodes: Vec<ParsedNode>) -> (r: (
    Vec<RenderedNode>,
    Vec<UIEventHandlingInfo>,
    Vec<DomRefInfo>,
))
    ensures
        spec_merge_siblings(nodes.deep_view()) == (
            r.0.deep_view(),
            r.1.deep_view(),
            r.2.deep_view(),
        ),
{
    let n = nodes.len();
    proof {
        assert(nodes@.len() == n);
    }
    merge_from(nodes, 0)
}

/// One combined representation of a root sibling list: zero siblings is the
/// explicit empty marker, one sibling passes through unchanged, and more are
/// wrapped in a fragment that keeps source order — nothing is reordered,
/// dropped or duplicated, since the recorded path indices would otherwise be
/// meaningless.
pub open spec fn spec_reduce_to_node(ns: Seq<NodeView>) -> NodeView {
    if ns.len() == 0 {
        NodeView::Empty
    } else if ns.len() == 1 {
        ns[0]
    } else {
        NodeView::Fragment(ns)
    }
}

/// Reduces a root sibling list to one combined rendered node.
pub fn reduce_to_node(nodes: Vec<RenderedNode>) -> (r: RenderedNode)
    ensures
        r.deep_view() == spec_reduce_to_node(nodes.deep_view()),
{
    let mut nodes = nodes;
    if nodes.len() == 0 {
        RenderedNode::Empty
    } else if nodes.len() == 1 {
        match nodes.pop() {
            Some(n) => n,
            None => RenderedNode::Empty,
        }
    } else {
        RenderedNode::Fragment(nodes)
    }
}

} // verus!
