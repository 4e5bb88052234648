//! The attribute parser and the component-level (global) handler parser.
//!
//! One `name[=value]` entry inside an opening tag is classified by a fixed,
//! stable reserved-name convention — the name `ref` marks a DOM reference, a
//! name starting with `on_` marks an event handler, anything else is a plain
//! attribute. Component-level declarations preceding all nodes use the same
//! style: a name starting with `on_window_` declares a window handler, and
//! `on_mount` / `on_unmount` declare lifecycle handlers.

use vstd::prelude::*;
use vstd::string::StrSliceExecFns;
use crate::ir::{AttrEntryView, Attribute, AttributeOrEventHandler, AttributeView, DomRefInfo,
    DomRefView, GlobalEventHandlingInfo, GlobalHandlerView, HandlerView,
    LifecycleEventHandlingInfo, LifecycleHandlerView, UIEventHandlingInfo,
    WindowEventHandlingInfo, WindowHandlerView};
use crate::matchers::{copy_token, copy_tokens, spec_match_identifier, spec_match_punctuation,
    match_identifier, match_punctuation};
use crate::tokens::{ErrorView, LexicalToken, ParseError, SpecStep, TokenView, agrees,
    token_views};

verus! {

broadcast use
    vstd::std_specs::vec::group_vec_axioms,
    vstd::seq::group_seq_axioms,
    crate::tokens::lemma_token_views_index,
    crate::tokens::lemma_vec_deep_view_is_token_views;

/// True when `p` is a prefix of `s`, decided character by character.
pub fn has_prefix(s: &str, p: &str) -> (r: bool)
    ensures
        r == p@.is_prefix_of(s@),
{
    let s_len = s.unicode_len();
    let p_len = p.unicode_len();
    if p_len > s_len {
        return false;
    }
    let mut i: usize = 0;
    while i < p_len
        invariant
            i <= p_len,
            p_len <= s_len,
            p_len == p@.len(),
            s_len == s@.len(),
            forall|j: int| 0 <= j < i ==> s@[j] == p@[j],
        decreases p_len - i,
    {
        if s.get_char(i) != p.get_char(i) {
            proof {
                assert(s@.subrange(0, p@.len() as int)[i as int] != p@[i as int]);
            }
            return false;
        }
        i = i + 1;
    }
    proof {
        assert(p@ =~= s@.subrange(0, p@.len() as int));
    }
    true
}

/// True when the two string slices hold the same characters.
pub fn str_equal(s: &str, t: &str) -> (r: bool)
    ensures
        r == (s@ == t@),
{
    if s.unicode_len() != t.unicode_len() {
        return false;
    }
    let r = has_prefix(s, t);
    proof {
        if t@.is_prefix_of(s@) {
            assert(t@ =~= s@);
        }
    }
    r
}

/// The three categories an attribute-list entry can fall into.
#[derive(Clone, Copy, Debug, PartialEq, Eq, Structural)]
pub enum AttrCategory {
    Plain,
    Handler,
    Reference,
}

/// The reserved-name convention on attribute names, a public grammar contract:
/// `ref` is a DOM reference, an `on_` prefix is an event handler, and every
/// other name is a plain attribute.
pub open spec fn spec_classify_attribute(name: Seq<char>) -> AttrCategory {
    if name == "ref"@ {
        AttrCategory::Reference
    } else if "on_"@.is_prefix_of(name) {
        AttrCategory::Handler
    } else {
        AttrCategory::Plain
    }
}

/// Classifies one attribute name by the reserved-name convention.
pub fn classify_attribute(name: &String) -> (r: AttrCategory)
    ensures
        r == spec_classify_attribute(name@),
{
    if str_equal(name.as_str(), "ref") {
        AttrCategory::Reference
    } else if has_prefix(name.as_str(), "on_") {
        AttrCategory::Handler
    } else {
        AttrCategory::Plain
    }
}

/// The categories a component-level declaration name can fall into.
#[derive(Clone, Copy, Debug, PartialEq, Eq, Structural)]
pub enum GlobalCategory {
    Window,
    Lifecycle,
    NotGlobal,
}

/// The reserved-name convention on component-level declarations: an
/// `on_window_` prefix declares a window handler; `on_mount` and `on_unmount`
/// declare lifecycle handlers; nothing else is a component-level declaration.
pub open spec fn spec_classify_global(name: Seq<char>) -> GlobalCategory {
    if "on_window_"@.is_prefix_of(name) {
        GlobalCategory::Window
    } else if name == "on_mount"@ || name == "on_unmount"@ {
        GlobalCategory::Lifecycle
    } else {
        GlobalCategory::NotGlobal
    }
}

/// Classifies one component-level declaration name.
pub fn classify_global(name: &String) -> (r: GlobalCategory)
    ensures
        r == spec_classify_global(name@),
{
    if has_prefix(name.as_str(), "on_window_") {
        GlobalCategory::Window
    } else if str_equal(name.as_str(), "on_mount") || str_equal(name.as_str(), "on_unmount") {
        GlobalCategory::Lifecycle
    } else {
        GlobalCategory::NotGlobal
    }
}

/// Matches the token fragment standing as a value after `=`: a single
/// identifier or literal stands for itself, and a delimited group of any kind
/// stands for its inner sequence.
pub open spec fn spec_match_value_fragment(v: Seq<TokenView>) -> SpecStep<Seq<TokenView>> {
    if v.len() > 0 {
        match v[0] {
            TokenView::Identifier(_) => SpecStep::Matched(seq![v[0]], v.skip(1)),
            TokenView::Literal(_) => SpecStep::Matched(seq![v[0]], v.skip(1)),
            TokenView::Group(_, inner) => SpecStep::Matched(inner, v.skip(1)),
            TokenView::Punctuation(_, _) => SpecStep::Failed(ErrorView::LocalMismatch),
        }
    } else {
        SpecStep::Failed(ErrorView::LocalMismatch)
    }
}

/// Matches one value fragment at `pos`.
pub fn match_value_fragment(toks: &Vec<LexicalToken>, pos: usize) -> (r: Result<
    (Vec<LexicalToken>, usize),
    ParseError,
>)
    requires
        pos <= toks@.len(),
    ensures
        agrees(r, token_views(toks@), pos as int, spec_match_value_fragment(
            token_views(toks@).skip(pos as int),
        )),
        r matches Ok((_, np)) ==> np == pos + 1,
{
    proof {
        if (pos as int) < toks@.len() {
            assert(token_views(toks@).skip(pos as int)[0] == token_views(toks@)[pos as int]);
            assert(token_views(toks@).skip(pos as int).skip(1) =~= token_views(toks@).skip(
                pos as int + 1,
            ));
        }
    }
    if pos < toks.len() {
        match &toks[pos] {
            LexicalToken::Identifier(_) => {
                let t = copy_token(&toks[pos]);
                let frag = vec![t];
                proof {
                    assert(token_views(frag@) =~= seq![token_views(toks@).skip(pos as int)[0]]);
                }
                Ok((frag, pos + 1))
            },
            LexicalToken::Literal(_) => {
                let t = copy_token(&toks[pos]);
                let frag = vec![t];
                proof {
                    assert(token_views(frag@) =~= seq![token_views(toks@).skip(pos as int)[0]]);
                }
                Ok((frag, pos + 1))
            },
            LexicalToken::Group(_, inner) => Ok((copy_tokens(inner), pos + 1)),
            LexicalToken::Punctuation(_, _) => Err(ParseError::LocalMismatch),
        }
    } else {
        Err(ParseError::LocalMismatch)
    }
}

/// Matches one `name[=value]` attribute-list entry and classifies it. A
/// reference (`ref`) requires `=` followed by an identifier naming the
/// reference; an event handler requires `=` followed by a value fragment; a
/// plain attribute takes an optional `=` value and is bare otherwise.
pub open spec fn spec_match_attribute(v: Seq<TokenView>) -> SpecStep<AttrEntryView> {
    match spec_match_identifier(v) {
        SpecStep::Failed(_) => SpecStep::Failed(ErrorView::LocalMismatch),
        SpecStep::Matched(name, r1) => match spec_match_punctuation(
            r1,
            Some('='),
            Option::<crate::tokens::Adjacency>::None,
            Seq::empty(),
        ) {
            SpecStep::Failed(_) => {
                if spec_classify_attribute(name) is Plain {
                    SpecStep::Matched(AttrEntryView::Attribute(name, Seq::empty()), r1)
                } else {
                    SpecStep::Failed(ErrorView::LocalMismatch)
                }
            },
            SpecStep::Matched(_, r2) => match spec_classify_attribute(name) {
                AttrCategory::Plain => match spec_match_value_fragment(r2) {
                    SpecStep::Matched(frag, r3) => SpecStep::Matched(
                        AttrEntryView::Attribute(name, frag),
                        r3,
                    ),
                    SpecStep::Failed(_) => SpecStep::Failed(ErrorView::LocalMismatch),
                },
                AttrCategory::Handler => match spec_match_value_fragment(r2) {
                    SpecStep::Matched(frag, r3) => SpecStep::Matched(
                        AttrEntryView::EventHandler(name, frag),
                        r3,
                    ),
                    SpecStep::Failed(_) => SpecStep::Failed(ErrorView::LocalMismatch),
                },
                AttrCategory::Reference => match spec_match_identifier(r2) {
                    SpecStep::Matched(ref_name, r3) => SpecStep::Matched(
                        AttrEntryView::DomRef(ref_name),
                        r3,
                    ),
                    SpecStep::Failed(_) => SpecStep::Failed(ErrorView::LocalMismatch),
                },
            },
        },
    }
}

/// Matches one classified attribute-list entry at `pos`.
pub fn match_attribute(toks: &Vec<LexicalToken>, pos: usize) -> (r: Result<
    (AttributeOrEventHandler, usize),
    ParseError,
>)
    requires
        pos <= toks@.len(),
    ensures
        agrees(r, token_views(toks@), pos as int, spec_match_attribute(
            token_views(toks@).skip(pos as int),
        )),
        r matches Ok((_, np)) ==> pos < np <= toks@.len(),
{
    let no_exclusions: Vec<char> = Vec::new();
    proof {
        assert(no_exclusions@ =~= Seq::<char>::empty());
    }
    let (name, p1) = match match_identifier(toks, pos) {
        Ok(v) => v,
        Err(_) => {
            return Err(ParseError::LocalMismatch);
        },
    };
    let category = classify_attribute(&name);
    match match_punctuation(toks, p1, Some('='), Option::<crate::tokens::Adjacency>::None,
        &no_exclusions) {
        Err(_) => {
            match category {
                AttrCategory::Plain => {
                    let entry = AttributeOrEventHandler::Attribute(name, Vec::new());
                    proof {
                        assert(token_views(Seq::<LexicalToken>::empty()) =~= Seq::<
                            TokenView,
                        >::empty());
                    }
                    Ok((entry, p1))
                },
                _ => Err(ParseError::LocalMismatch),
            }
        },
        Ok((_, p2)) => {
            match category {
                AttrCategory::Plain => {
                    match match_value_fragment(toks, p2) {
                        Ok((frag, p3)) => Ok((AttributeOrEventHandler::Attribute(name, frag), p3)),
                        Err(_) => Err(ParseError::LocalMismatch),
                    }
                },
                AttrCategory::Handler => {
                    match match_value_fragment(toks, p2) {
                        Ok((frag, p3)) => Ok(
                            (AttributeOrEventHandler::EventHandler(name, frag), p3),
                        ),
                        Err(_) => Err(ParseError::LocalMismatch),
                    }
                },
                AttrCategory::Reference => {
                    match match_identifier(toks, p2) {
                        Ok((ref_name, p3)) => Ok((AttributeOrEventHandler::DomRef(ref_name), p3)),
                        Err(_) => Err(ParseError::LocalMismatch),
                    }
                },
            }
        },
    }
}

/// Zero or more attribute-list entries, collected until the first entry that
/// does not match; the pair holds the entries and the unconsumed suffix. Every
/// successful entry consumes at least one token, so the repetition terminates.
pub open spec fn spec_match_attributes(v: Seq<TokenView>) -> (Seq<AttrEntryView>, Seq<TokenView>)
    decreases v.len(),
{
    match spec_match_attribute(v) {
        SpecStep::Failed(_) => (Seq::empty(), v),
        SpecStep::Matched(entry, rest) => {
            if rest.len() < v.len() {
                let (tail, suffix) = spec_match_attributes(rest);
                (seq![entry] + tail, suffix)
            } else {
                (seq![entry], rest)
            }
        },
    }
}

/// Collects attribute-list entries from `pos` until the first mismatch.
pub fn match_attributes(toks: &Vec<LexicalToken>, pos: usize) -> (r: (
    Vec<AttributeOrEventHandler>,
    usize,
))
    requires
        pos <= toks@.len(),
    ensures
        pos <= r.1 <= toks@.len(),
        spec_match_attributes(token_views(toks@).skip(pos as int)) == (
            r.0.deep_view(),
            token_views(toks@).skip(r.1 as int),
        ),
    decreases toks@.len() - pos,
{
    match match_attribute(toks, pos) {
        Err(_) => {
            let out: Vec<AttributeOrEventHandler> = Vec::new();
            proof {
                assert(out.deep_view() =~= Seq::<AttrEntryView>::empty());
            }
            (out, pos)
        },
        Ok((entry, np)) => {
            let (mut tail, end) = match_attributes(toks, np);
            let ghost tail_view = tail.deep_view();
            tail.insert(0, entry);
            proof {
                assert(tail.deep_view() =~= seq![entry.deep_view()] + tail_view);
            }
            (tail, end)
        },
    }
}

/// Splits a classified attribute list into its three categories, preserving
/// the relative order within each category and dropping and duplicating
/// nothing. Handler and reference records start with an empty reversed path;
/// enclosing reduction steps append the sibling indices later.
pub open spec fn spec_split_attributes(entries: Seq<AttrEntryView>) -> (
    Seq<AttributeView>,
    Seq<HandlerView>,
    Seq<DomRefView>,
)
    decreases entries.len(),
{
    if entries.len() == 0 {
        (Seq::empty(), Seq::empty(), Seq::empty())
    } else {
        let (attrs, handlers, refs) = spec_split_attributes(
            entries.subrange(1, entries.len() as int),
        );
        match entries[0] {
            AttrEntryView::Attribute(name, value) => (
                seq![AttributeView { name, value }] + attrs,
                handlers,
                refs,
            ),
            AttrEntryView::EventHandler(name, callback) => (
                attrs,
                seq![
                    HandlerView {
                        reversed_path: Seq::empty(),
                        event: Some(name),
                        callback,
                        is_group_expression: false,
                    },
                ] + handlers,
                refs,
            ),
            AttrEntryView::DomRef(name) => (
                attrs,
                handlers,
                seq![DomRefView { reversed_path: Seq::empty(), ref_name: name }] + refs,
            ),
        }
    }
}

/// Splits a classified attribute list into plain attributes, event-handler
/// records and DOM-reference records.
pub fn split_attributes(entries: Vec<AttributeOrEventHandler>) -> (r: (
    Vec<Attribute>,
    Vec<UIEventHandlingInfo>,
    Vec<DomRefInfo>,
))
    ensures
        spec_split_attributes(entries.deep_view()) == (
            r.0.deep_view(),
            r.1.deep_view(),
            r.2.deep_view(),
        ),
    decreases entries@.len(),
{
    let mut entries = entries;
    if entries.len() == 0 {
        let r: (Vec<Attribute>, Vec<UIEventHandlingInfo>, Vec<DomRefInfo>) = (
            Vec::new(),
            Vec::new(),
            Vec::new(),
        );
        proof {
            assert(entries.deep_view() =~= Seq::<AttrEntryView>::empty());
            assert(r.0.deep_view() =~= Seq::<AttributeView>::empty());
            assert(r.1.deep_view() =~= Seq::<HandlerView>::empty());
            assert(r.2.deep_view() =~= Seq::<DomRefView>::empty());
        }
        r
    } else {
        let ghost whole = entries.deep_view();
        let head = entries.remove(0);
        proof {
            assert(entries.deep_view() =~= whole.subrange(1, whole.len() as int));
        }
        let (mut attrs, mut handlers, mut refs) = split_attributes(entries);
        let ghost attrs_view = attrs.deep_view();
        let ghost handlers_view = handlers.deep_view();
        let ghost refs_view = refs.deep_view();
        match head {
            AttributeOrEventHandler::Attribute(name, value) => {
                attrs.insert(0, Attribute { name, value });
                proof {
                    assert(attrs.deep_view() =~= seq![
                        AttributeView {
                            name: whole[0]->Attribute_0,
                            value: whole[0]->Attribute_1,
                        },
                    ] + attrs_view);
                }
            },
            AttributeOrEventHandler::EventHandler(name, callback) => {
                handlers.insert(
                    0,
                    UIEventHandlingInfo {
                        reversed_path: Vec::new(),
                        event: Some(name),
                        callback,
                        is_group_expression: false,
                    },
                );
                proof {
                    assert(handlers.deep_view()[0].reversed_path =~= Seq::<usize>::empty());
                    assert(handlers.deep_view() =~= seq![
                        HandlerView {
                            reversed_path: Seq::empty(),
                            event: Some(whole[0]->EventHandler_0),
                            callback: whole[0]->EventHandler_1,
                            is_group_expression: false,
                        },
                    ] + handlers_view);
                }
            },
            AttributeOrEventHandler::DomRef(name) => {
                refs.insert(0, DomRefInfo { reversed_path: Vec::new(), ref_name: name });
                proof {
                    assert(refs.deep_view()[0].reversed_path =~= Seq::<usize>::empty());
                    assert(refs.deep_view() =~= seq![
                        DomRefView { reversed_path: Seq::empty(), ref_name: whole[0]->DomRef_0 },
                    ] + refs_view);
                }
            },
        }
        (attrs, handlers, refs)
    }
}

/// Matches one component-level handler declaration: a reserved declaration
/// name, `=`, and the callback's value fragment.
pub open spec fn spec_match_global(v: Seq<TokenView>) -> SpecStep<GlobalHandlerView> {
    match spec_match_identifier(v) {
        SpecStep::Failed(_) => SpecStep::Failed(ErrorView::LocalMismatch),
        SpecStep::Matched(name, r1) => {
            if spec_classify_global(name) is NotGlobal {
                SpecStep::Failed(ErrorView::LocalMismatch)
            } else {
                match spec_match_punctuation(
                    r1,
                    Some('='),
                    Option::<crate::tokens::Adjacency>::None,
                    Seq::empty(),
                ) {
                    SpecStep::Failed(_) => SpecStep::Failed(ErrorView::LocalMismatch),
                    SpecStep::Matched(_, r2) => match spec_match_value_fragment(r2) {
                        SpecStep::Failed(_) => SpecStep::Failed(ErrorView::LocalMismatch),
                        SpecStep::Matched(frag, r3) => {
                            if spec_classify_global(name) is Window {
                                SpecStep::Matched(
                                    GlobalHandlerView::Window(
                                        WindowHandlerView { event: name, callback: frag },
                                    ),
                                    r3,
                                )
                            } else {
                                SpecStep::Matched(
                                    GlobalHandlerView::Lifecycle(
                                        LifecycleHandlerView { event: name, callback: frag },
                                    ),
                                    r3,
                                )
                            }
                        },
                    },
                }
            }
        },
    }
}

/// Matches one component-level handler declaration at `pos`.
pub fn match_global(toks: &Vec<LexicalToken>, pos: usize) -> (r: Result<
    (GlobalEventHandlingInfo, usize),
    ParseError,
>)
    requires
        pos <= toks@.len(),
    ensures
        agrees(r, token_views(toks@), pos as int, spec_match_global(
            token_views(toks@).skip(pos as int),
        )),
        r matches Ok((_, np)) ==> pos < np <= toks@.len(),
{
    let no_exclusions: Vec<char> = Vec::new();
    proof {
        assert(no_exclusions@ =~= Seq::<char>::empty());
    }
    let (name, p1) = match match_identifier(toks, pos) {
        Ok(v) => v,
        Err(_) => {
            return Err(ParseError::LocalMismatch);
        },
    };
    let category = classify_global(&name);
    if let GlobalCategory::NotGlobal = category {
        return Err(ParseError::LocalMismatch);
    }
    let p2 = match match_punctuation(toks, p1, Some('='), Option::<crate::tokens::Adjacency>::None,
        &no_exclusions) {
        Ok((_, p2)) => p2,
        Err(_) => {
            return Err(ParseError::LocalMismatch);
        },
    };
    match match_value_fragment(toks, p2) {
        Err(_) => Err(ParseError::LocalMismatch),
        Ok((frag, p3)) => {
            if let GlobalCategory::Window = category {
                Ok(
                    (
                        GlobalEventHandlingInfo::Window(
                            WindowEventHandlingInfo { event: name, callback: frag },
                        ),
                        p3,
                    ),
                )
            } else {
                Ok(
                    (
                        GlobalEventHandlingInfo::Lifecycle(
                            LifecycleEventHandlingInfo { event: name, callback: frag },
                        ),
                        p3,
                    ),
                )
            }
        },
    }
}

/// Zero or more component-level handler declarations, collected until the
/// first mismatch.
pub open spec fn spec_match_globals(v: Seq<TokenView>) -> (Seq<GlobalHandlerView>, Seq<TokenView>)
    decreases v.len(),
{
    match spec_match_global(v) {
        SpecStep::Failed(_) => (Seq::empty(), v),
        SpecStep::Matched(g, rest) => {
            if rest.len() < v.len() {
                let (tail, suffix) = spec_match_globals(rest);
                (seq![g] + tail, suffix)
            } else {
                (seq![g], rest)
            }
        },
    }
}

/// Collects component-level handler declarations from `pos` until the first
/// mismatch.
pub fn match_globals(toks: &Vec<LexicalToken>, pos: usize) -> (r: (
    Vec<GlobalEventHandlingInfo>,
    usize,
))
    requires
        pos <= toks@.len(),
    ensures
        pos <= r.1 <= toks@.len(),
        spec_match_globals(token_views(toks@).skip(pos as int)) == (
            r.0.deep_view(),
            token_views(toks@).skip(r.1 as int),
        ),
    decreases toks@.len() - pos,
{
    match match_global(toks, pos) {
        Err(_) => {
            let out: Vec<GlobalEventHandlingInfo> = Vec::new();
            proof {
                assert(out.deep_view() =~= Seq::<GlobalHandlerView>::empty());
            }
            (out, pos)
        },
        Ok((g, np)) => {
            let (mut tail, end) = match_globals(toks, np);
            let ghost tail_view = tail.deep_view();
            tail.insert(0, g);
            proof {
                assert(tail.deep_view() =~= seq![g.deep_view()] + tail_view);
            }
            (tail, end)
        },
    }
}

} // verus!
