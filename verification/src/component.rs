//! The component root and the assembler.
//!
//! A component is zero or more component-level handler declarations followed
//! by zero or more nodes; anything left over after that is the fatal
//! trailing-input error, never a silently truncated success. The root sibling
//! list is path-annotated and reduced to one combined rendered node, the
//! declarations are split into window and lifecycle handlers in source order,
//! and everything is packaged into one `ComponentIR`.

use vstd::prelude::*;
use crate::attributes::{match_globals, spec_match_globals};
use crate::grammar::{parse_nodes, spec_parse_nodes};
use crate::ir::{ComponentIR, ComponentIRView, GlobalEventHandlingInfo, GlobalHandlerView,
    LifecycleEventHandlingInfo, LifecycleHandlerView, WindowEventHandlingInfo, WindowHandlerView};
use crate::matchers::{ensure_fully_consumed, match_delimited_group, spec_match_delimited_group};
use crate::reduce::{merge_siblings, reduce_to_node, spec_merge_siblings, spec_reduce_to_node};
use crate::tokens::{DelimiterKind, ErrorView, LexicalToken, ParseError, SpecStep, TokenView,
    token_views};

verus! {

broadcast use
    vstd::std_specs::vec::group_vec_axioms,
    vstd::seq::group_seq_axioms,
    crate::tokens::lemma_token_views_index,
    crate::tokens::lemma_vec_deep_view_is_token_views;

/// Splits the component-level declarations into window handlers and lifecycle
/// handlers, preserving the relative order within each kind.
pub open spec fn spec_split_globals(gs: Seq<GlobalHandlerView>) -> (
    Seq<WindowHandlerView>,
    Seq<LifecycleHandlerView>,
)
    decreases gs.len(),
{
    if gs.len() == 0 {
        (Seq::empty(), Seq::empty())
    } else {
        let (windows, lifecycles) = spec_split_globals(gs.subrange(1, gs.len() as int));
        match gs[0] {
            GlobalHandlerView::Window(w) => (seq![w] + windows, lifecycles),
            GlobalHandlerView::Lifecycle(l) => (windows, seq![l] + lifecycles),
        }
    }
}

/// Splits the component-level declarations into window and lifecycle
/// handlers.
pub fn split_globals(globals: Vec<GlobalEventHandlingInfo>) -> (r: (
    Vec<WindowEventHandlingInfo>,
    Vec<LifecycleEventHandlingInfo>,
))
    ensures
        spec_split_globals(globals.deep_view()) == (r.0.deep_view(), r.1.deep_view()),
    decreases globals@.len(),
{
    let mut globals = globals;
    if globals.len() == 0 {
        let r: (Vec<WindowEventHandlingInfo>, Vec<LifecycleEventHandlingInfo>) = (
            Vec::new(),
            Vec::new(),
        );
        proof {
            assert(globals.deep_view() =~= Seq::<GlobalHandlerView>::empty());
            assert(r.0.deep_view() =~= Seq::<WindowHandlerView>::empty());
            assert(r.1.deep_view() =~= Seq::<LifecycleHandlerView>::empty());
        }
        r
    } else {
        let ghost whole = globals.deep_view();
        let head = globals.remove(0);
        proof {
            assert(globals.deep_view() =~= whole.subrange(1, whole.len() as int));
        }
        let (mut windows, mut lifecycles) = split_globals(globals);
        let ghost windows_view = windows.deep_view();
        let ghost lifecycles_view = lifecycles.deep_view();
        match head {
            GlobalEventHandlingInfo::Window(w) => {
                windows.insert(0, w);
                proof {
                    assert(windows.deep_view() =~= seq![whole[0]->Window_0] + windows_view);
                }
            },
            GlobalEventHandlingInfo::Lifecycle(l) => {
                lifecycles.insert(0, l);
                proof {
                    assert(lifecycles.deep_view() =~= seq![whole[0]->Lifecycle_0]
                        + lifecycles_view);
                }
            },
        }
        (windows, lifecycles)
    }
}

/// The whole component: component-level declarations, then the root sibling
/// list, then nothing. On success the root siblings are path-annotated and
/// reduced, the declarations split, and the IR assembled; the ownership-mode
/// flag is threaded through unchanged. An empty component is legal and yields
/// the explicit empty rendered node with no per-node handlers.
pub open spec fn spec_parse_component(v: Seq<TokenView>, owns_captures: bool) -> Result<
    ComponentIRView,
    ErrorView,
> {
    let (globals, r1) = spec_match_globals(v);
    match spec_parse_nodes(r1) {
        SpecStep::Failed(e) => Err(e),
        SpecStep::Matched(siblings, r2) => {
            if r2.len() == 0 {
                let (nodes, handlers, dom_refs) = spec_merge_siblings(siblings);
                let (windows, lifecycles) = spec_split_globals(globals);
                Ok(
                    ComponentIRView {
                        rendered_tree: spec_reduce_to_node(nodes),
                        event_handlers: handlers,
                        window_handlers: windows,
                        lifecycle_handlers: lifecycles,
                        dom_refs,
                        owns_captures,
                    },
                )
            } else {
                Err(ErrorView::TrailingInput)
            }
        },
    }
}

/// Parses one whole component from the token sequence into its IR.
pub fn parse_component(toks: &Vec<LexicalToken>, owns_captures: bool) -> (r: Result<
    ComponentIR,
    ParseError,
>)
    ensures
        match r {
            Ok(ir) => spec_parse_component(token_views(toks@), owns_captures) == Ok::<
                ComponentIRView,
                ErrorView,
            >(ir.deep_view()),
            Err(e) => spec_parse_component(token_views(toks@), owns_captures) == Err::<
                ComponentIRView,
                ErrorView,
            >(e.deep_view()),
        },
{
    proof {
        assert(token_views(toks@).skip(0) =~= token_views(toks@));
    }
    let (globals, p1) = match_globals(toks, 0);
    let (siblings, p2) = match parse_nodes(toks, p1) {
        Ok(v) => v,
        Err(e) => {
            return Err(e);
        },
    };
    match ensure_fully_consumed(toks, p2) {
        Err(e) => Err(e),
        Ok(()) => {
            let (nodes, handlers, dom_refs) = merge_siblings(siblings);
            let (windows, lifecycles) = split_globals(globals);
            let rendered_tree = reduce_to_node(nodes);
            let ir = ComponentIR {
                rendered_tree,
                event_handlers: handlers,
                window_handlers: windows,
                lifecycle_handlers: lifecycles,
                dom_refs,
                owns_captures,
            };
            proof {
                assert(token_views(toks@).skip(p2 as int) =~= Seq::<TokenView>::empty());
            }
            Ok(ir)
        },
    }
}

/// The owning entry point: parses the component with the ownership-mode flag
/// set, so that the code-generation backend later generates owning captures of
/// embedded expressions. Parsing itself is identical to [`rsx_borrowed`].
pub fn rsx(toks: &Vec<LexicalToken>) -> (r: Result<ComponentIR, ParseError>)
    ensures
        match r {
            Ok(ir) => spec_parse_component(token_views(toks@), true) == Ok::<ComponentIRView, ErrorView>(ir.deep_view()),
            Err(e) => spec_parse_component(token_views(toks@), true) == Err::<
                ComponentIRView,
                ErrorView,
            >(e.deep_view()),
        },
{
    parse_component(toks, true)
}

/// The borrowing entry point: identical to [`rsx`] but with the
/// ownership-mode flag cleared, for borrowing captures.
pub fn rsx_borrowed(toks: &Vec<LexicalToken>) -> (r: Result<ComponentIR, ParseError>)
    ensures
        match r {
            Ok(ir) => spec_parse_component(token_views(toks@), false) == Ok::<ComponentIRView, ErrorView>(ir.deep_view()),
            Err(e) => spec_parse_component(token_views(toks@), false) == Err::<
                ComponentIRView,
                ErrorView,
            >(e.deep_view()),
        },
{
    parse_component(toks, false)
}

/// Zero or more parenthesized item groups, each yielding its inner sequence,
/// collected until the first token that is no such group.
pub open spec fn spec_match_item_groups(v: Seq<TokenView>) -> (Seq<Seq<TokenView>>, Seq<TokenView>)
    decreases v.len(),
{
    match spec_match_delimited_group(v, DelimiterKind::Parenthesis) {
        SpecStep::Failed(_) => (Seq::empty(), v),
        SpecStep::Matched(inner, rest) => {
            if rest.len() < v.len() {
                let (tail, suffix) = spec_match_item_groups(rest);
                (seq![inner] + tail, suffix)
            } else {
                (seq![inner], rest)
            }
        },
    }
}

/// A whole sequence of parenthesized items: every token must belong to such a
/// group, so whatever remains after the last group is a missing or wrongly
/// delimited group, the fatal malformed-group error.
pub open spec fn spec_parse_items(v: Seq<TokenView>) -> Result<Seq<Seq<TokenView>>, ErrorView> {
    let (items, rest) = spec_match_item_groups(v);
    if rest.len() == 0 {
        Ok(items)
    } else {
        Err(ErrorView::MalformedGroup)
    }
}

/// Collects parenthesized item groups from `pos` until the first mismatch.
fn match_item_groups(toks: &Vec<LexicalToken>, pos: usize) -> (r: (Vec<Vec<LexicalToken>>, usize))
    requires
        pos <= toks@.len(),
    ensures
        pos <= r.1 <= toks@.len(),
        spec_match_item_groups(token_views(toks@).skip(pos as int)) == (
            r.0.deep_view(),
            token_views(toks@).skip(r.1 as int),
        ),
    decreases toks@.len() - pos,
{
    match match_delimited_group(toks, pos, DelimiterKind::Parenthesis) {
        Err(_) => {
            let out: Vec<Vec<LexicalToken>> = Vec::new();
            proof {
                assert(out.deep_view() =~= Seq::<Seq<TokenView>>::empty());
            }
            (out, pos)
        },
        Ok((inner, np)) => {
            let (mut tail, end) = match_item_groups(toks, np);
            let ghost tail_view = tail.deep_view();
            let ghost inner_view = inner.deep_view();
            tail.insert(0, inner);
            proof {
                assert(tail.deep_view() =~= seq![inner_view] + tail_view);
            }
            (tail, end)
        },
    }
}

/// Parses a whole token sequence as parenthesized items and returns each
/// item's inner sequence, in order.
pub fn parse_items(toks: &Vec<LexicalToken>) -> (r: Result<Vec<Vec<LexicalToken>>, ParseError>)
    ensures
        match r {
            Ok(items) => spec_parse_items(token_views(toks@)) == Ok::<Seq<Seq<TokenView>>, ErrorView>(items.deep_view()),
            Err(e) => spec_parse_items(token_views(toks@)) == Err::<
                Seq<Seq<TokenView>>,
                ErrorView,
            >(e.deep_view()),
        },
{
    proof {
        assert(token_views(toks@).skip(0) =~= token_views(toks@));
    }
    let (items, end) = match_item_groups(toks, 0);
    if end == toks.len() {
        proof {
            assert(token_views(toks@).skip(end as int) =~= Seq::<TokenView>::empty());
        }
        Ok(items)
    } else {
        Err(ParseError::MalformedGroup)
    }
}

} // verus!
