//! The recursive node grammar.
//!
//! A node is, by ordered alternation, an html node (self-closing tried before
//! regular, so the terminal `/>` marker is detected before a doomed search for
//! children), a text run, or a brace-delimited expression group. Alternation
//! retries the next alternative only on a recoverable local mismatch: a tag
//! whose closing name differs from its opening name, and a wrongly delimited
//! group where a node was possible, are fatal and unwind without being offered
//! to any alternative. Every repetition consumes at least one token per
//! element, so parsing terminates on every input.

use vstd::prelude::*;
use vstd::string::StringExecFns;
use crate::attributes::{spec_match_attributes, spec_split_attributes, match_attributes,
    split_attributes};
use crate::ir::{AttrEntryView, AttributeOrEventHandler, HandlerView, NodeView, ParsedNode,
    ParsedNodeView, RenderedNode, UIEventHandlingInfo};
use crate::matchers::{copy_tokens, match_identifier, match_literal_as_string, match_punctuation,
    spec_match_identifier, spec_match_literal_as_string, spec_match_punctuation};
use crate::reduce::{merge_siblings, spec_merge_siblings};
use crate::tokens::{Adjacency, DelimiterKind, ErrorView, LexicalToken, ParseError, SpecStep,
    TokenView, agrees, token_views};

verus! {

broadcast use
    vstd::std_specs::vec::group_vec_axioms,
    vstd::seq::group_seq_axioms,
    crate::tokens::lemma_token_views_index,
    crate::tokens::lemma_vec_deep_view_is_token_views,
    crate::ir::lemma_vec_deep_view_is_node_views;

/// Relies on std's `String::push`: appends exactly the given character to the
/// end of the string.
#[verifier::external_body]
fn push_char(s: &mut String, c: char)
    ensures
        final(s)@ == old(s)@.push(c),
{
    s.push(c);
}

/// One piece of a text run: an identifier, a punctuation character other than
/// `<` (the exclusion keeps a tag boundary out of text, so that a node
/// alternation gets to retry the html rule there), or a literal, each as its
/// character sequence.
pub open spec fn spec_match_text_piece(v: Seq<TokenView>) -> SpecStep<Seq<char>> {
    match spec_match_identifier(v) {
        SpecStep::Matched(name, rest) => SpecStep::Matched(name, rest),
        SpecStep::Failed(_) => match spec_match_punctuation(
            v,
            Option::<char>::None,
            Option::<Adjacency>::None,
            seq!['<'],
        ) {
            SpecStep::Matched(c, rest) => SpecStep::Matched(seq![c], rest),
            SpecStep::Failed(_) => spec_match_literal_as_string(v),
        },
    }
}

/// Matches one text piece at `pos`.
pub fn match_text_piece(toks: &Vec<LexicalToken>, pos: usize) -> (r: Result<
    (String, usize),
    ParseError,
>)
    requires
        pos <= toks@.len(),
    ensures
        agrees(r, token_views(toks@), pos as int, spec_match_text_piece(
            token_views(toks@).skip(pos as int),
        )),
        r matches Ok((_, np)) ==> np == pos + 1,
{
    match match_identifier(toks, pos) {
        Ok(v) => Ok(v),
        Err(_) => {
            let excluded_lt: Vec<char> = vec!['<'];
            proof {
                assert(excluded_lt@ =~= seq!['<']);
            }
            match match_punctuation(toks, pos, Option::<char>::None, Option::<Adjacency>::None,
                &excluded_lt) {
                Ok((c, np)) => {
                    let mut s = String::new();
                    push_char(&mut s, c);
                    proof {
                        assert(s@ =~= seq![c]);
                    }
                    Ok((s, np))
                },
                Err(_) => match_literal_as_string(toks, pos),
            }
        },
    }
}

/// Zero or more text pieces joined into one character sequence, together with
/// the unconsumed suffix.
pub open spec fn spec_text_run(v: Seq<TokenView>) -> (Seq<char>, Seq<TokenView>)
    decreases v.len(),
{
    match spec_match_text_piece(v) {
        SpecStep::Failed(_) => (Seq::empty(), v),
        SpecStep::Matched(s, rest) => {
            if rest.len() < v.len() {
                let (tail, suffix) = spec_text_run(rest);
                (s + tail, suffix)
            } else {
                (s, rest)
            }
        },
    }
}

/// The suffix a text run leaves is never longer than its input, and it is
/// strictly shorter when the first piece matches.
proof fn lemma_text_run_suffix_len(v: Seq<TokenView>)
    ensures
        spec_text_run(v).1.len() <= v.len(),
        spec_match_text_piece(v) is Matched ==> spec_text_run(v).1.len() < v.len(),
    decreases v.len(),
{
    match spec_match_text_piece(v) {
        SpecStep::Failed(_) => {},
        SpecStep::Matched(s, rest) => {
            if rest.len() < v.len() {
                lemma_text_run_suffix_len(rest);
            }
        },
    }
}

/// Joins text pieces from `pos` until the first mismatch.
pub fn match_text_run(toks: &Vec<LexicalToken>, pos: usize) -> (r: (String, usize))
    requires
        pos <= toks@.len(),
    ensures
        pos <= r.1 <= toks@.len(),
        spec_text_run(token_views(toks@).skip(pos as int)) == (
            r.0@,
            token_views(toks@).skip(r.1 as int),
        ),
    decreases toks@.len() - pos,
{
    match match_text_piece(toks, pos) {
        Err(_) => {
            let s = String::new();
            proof {
                assert(s@ =~= Seq::<char>::empty());
            }
            (s, pos)
        },
        Ok((piece, np)) => {
            let (tail, end) = match_text_run(toks, np);
            let joined = piece.concat(tail.as_str());
            (joined, end)
        },
    }
}

/// A text run node: one or more pieces joined into a single text node with no
/// handlers and no references.
pub open spec fn spec_parse_text(v: Seq<TokenView>) -> SpecStep<ParsedNodeView> {
    match spec_match_text_piece(v) {
        SpecStep::Failed(_) => SpecStep::Failed(ErrorView::LocalMismatch),
        SpecStep::Matched(_, _) => {
            let (text, suffix) = spec_text_run(v);
            SpecStep::Matched(
                ParsedNodeView {
                    rendered: NodeView::Text(text),
                    handlers: Seq::empty(),
                    dom_refs: Seq::empty(),
                },
                suffix,
            )
        },
    }
}

/// Parses a text run at `pos`.
pub fn parse_text_node(toks: &Vec<LexicalToken>, pos: usize) -> (r: Result<
    (ParsedNode, usize),
    ParseError,
>)
    requires
        pos <= toks@.len(),
    ensures
        agrees(r, token_views(toks@), pos as int, spec_parse_text(
            token_views(toks@).skip(pos as int),
        )),
        r matches Ok((_, np)) ==> pos < np <= toks@.len(),
{
    match match_text_piece(toks, pos) {
        Err(_) => Err(ParseError::LocalMismatch),
        Ok((_, _)) => {
            let (text, end) = match_text_run(toks, pos);
            proof {
                lemma_text_run_suffix_len(token_views(toks@).skip(pos as int));
            }
            let node = ParsedNode {
                rendered: RenderedNode::Text(text),
                handlers: Vec::new(),
                dom_refs: Vec::new(),
            };
            proof {
                assert(node.handlers.deep_view() =~= Seq::<HandlerView>::empty());
                assert(node.dom_refs.deep_view() =~= Seq::<crate::ir::DomRefView>::empty());
            }
            Ok((node, end))
        },
    }
}

/// A brace-delimited expression group: the node carries the embedded
/// expression opaquely and registers exactly one handler with no event name,
/// the group-expression flag set, and the raw expression as callback. A group
/// with any other delimiter can begin no node and is the fatal
/// malformed-group error.
pub open spec fn spec_parse_expression_group(v: Seq<TokenView>) -> SpecStep<ParsedNodeView> {
    if v.len() > 0 {
        match v[0] {
            TokenView::Group(DelimiterKind::Brace, inner) => SpecStep::Matched(
                ParsedNodeView {
                    rendered: NodeView::ExpressionGroup(inner),
                    handlers: seq![
                        HandlerView {
                            reversed_path: Seq::empty(),
                            event: Option::<Seq<char>>::None,
                            callback: inner,
                            is_group_expression: true,
                        },
                    ],
                    dom_refs: Seq::empty(),
                },
                v.skip(1),
            ),
            TokenView::Group(_, _) => SpecStep::Failed(ErrorView::MalformedGroup),
            _ => SpecStep::Failed(ErrorView::LocalMismatch),
        }
    } else {
        SpecStep::Failed(ErrorView::LocalMismatch)
    }
}

/// Parses one expression-group node at `pos`.
pub fn parse_expression_group(toks: &Vec<LexicalToken>, pos: usize) -> (r: Result<
    (ParsedNode, usize),
    ParseError,
>)
    requires
        pos <= toks@.len(),
    ensures
        agrees(r, token_views(toks@), pos as int, spec_parse_expression_group(
            token_views(toks@).skip(pos as int),
        )),
        r matches Ok((_, np)) ==> np == pos + 1,
{
    proof {
        if (pos as int) < toks@.len() {
            assert(token_views(toks@).skip(pos as int)[0] == token_views(toks@)[pos as int]);
            assert(token_views(toks@).skip(pos as int).skip(1) =~= token_views(toks@).skip(
                pos as int + 1,
            ));
        }
    }
    if pos < toks.len() {
        match &toks[pos] {
            LexicalToken::Group(DelimiterKind::Brace, inner) => {
                let expression = copy_tokens(inner);
                let callback = copy_tokens(inner);
                let handler = UIEventHandlingInfo {
                    reversed_path: Vec::new(),
                    event: Option::<String>::None,
                    callback,
                    is_group_expression: true,
                };
                let handlers = vec![handler];
                let node = ParsedNode {
                    rendered: RenderedNode::ExpressionGroup(expression),
                    handlers,
                    dom_refs: Vec::new(),
                };
                proof {
                    assert(node.handlers.deep_view() =~= seq![
                        HandlerView {
                            reversed_path: Seq::empty(),
                            event: Option::<Seq<char>>::None,
                            callback: token_views(inner@),
                            is_group_expression: true,
                        },
                    ]);
                    assert(node.dom_refs.deep_view() =~= Seq::<crate::ir::DomRefView>::empty());
                }
                Ok((node, pos + 1))
            },
            LexicalToken::Group(_, _) => Err(ParseError::MalformedGroup),
            _ => Err(ParseError::LocalMismatch),
        }
    } else {
        Err(ParseError::LocalMismatch)
    }
}

/// An opening tag before its closing marker: the tag name and the classified
/// attribute list.
#[derive(Debug, PartialEq)]
pub struct OpeningTag {
    pub name: String,
    pub entries: Vec<AttributeOrEventHandler>,
}

/// The mathematical shape of an opening tag.
#[verifier::ext_equal]
pub struct OpeningTagView {
    pub name: Seq<char>,
    pub entries: Seq<AttrEntryView>,
}

impl DeepView for OpeningTag {
    type V = OpeningTagView;

    open spec fn deep_view(&self) -> OpeningTagView {
        OpeningTagView { name: self.name@, entries: self.entries.deep_view() }
    }
}

/// A self-closing node: `<` (alone) identifier attribute* `/` (joint) `>`,
/// with zero children; the attribute-derived handlers and references are
/// collected at this level with empty reversed paths.
pub open spec fn spec_parse_self_closing(v: Seq<TokenView>) -> SpecStep<ParsedNodeView> {
    match spec_match_punctuation(v, Some('<'), Some(Adjacency::Alone), Seq::empty()) {
        SpecStep::Failed(_) => SpecStep::Failed(ErrorView::LocalMismatch),
        SpecStep::Matched(_, r1) => match spec_match_identifier(r1) {
            SpecStep::Failed(_) => SpecStep::Failed(ErrorView::LocalMismatch),
            SpecStep::Matched(name, r2) => {
                let (entries, r3) = spec_match_attributes(r2);
                match spec_match_punctuation(r3, Some('/'), Some(Adjacency::Joint), Seq::empty()) {
                    SpecStep::Failed(_) => SpecStep::Failed(ErrorView::LocalMismatch),
                    SpecStep::Matched(_, r4) => match spec_match_punctuation(
                        r4,
                        Some('>'),
                        Option::<Adjacency>::None,
                        Seq::empty(),
                    ) {
                        SpecStep::Failed(_) => SpecStep::Failed(ErrorView::LocalMismatch),
                        SpecStep::Matched(_, r5) => {
                            let (attributes, handlers, dom_refs) = spec_split_attributes(entries);
                            SpecStep::Matched(
                                ParsedNodeView {
                                    rendered: NodeView::Html {
                                        name,
                                        attributes,
                                        children: Seq::empty(),
                                    },
                                    handlers,
                                    dom_refs,
                                },
                                r5,
                            )
                        },
                    },
                }
            },
        },
    }
}

/// Parses one self-closing node at `pos`.
pub fn parse_self_closing_node(toks: &Vec<LexicalToken>, pos: usize) -> (r: Result<
    (ParsedNode, usize),
    ParseError,
>)
    requires
        pos <= toks@.len(),
    ensures
        agrees(r, token_views(toks@), pos as int, spec_parse_self_closing(
            token_views(toks@).skip(pos as int),
        )),
        r matches Ok((_, np)) ==> pos < np <= toks@.len(),
{
    let no_exclusions: Vec<char> = Vec::new();
    proof {
        assert(no_exclusions@ =~= Seq::<char>::empty());
    }
    let p1 = match match_punctuation(toks, pos, Some('<'), Some(Adjacency::Alone), &no_exclusions) {
        Ok((_, p)) => p,
        Err(_) => {
            return Err(ParseError::LocalMismatch);
        },
    };
    let (name, p2) = match match_identifier(toks, p1) {
        Ok(v) => v,
        Err(_) => {
            return Err(ParseError::LocalMismatch);
        },
    };
    let (entries, p3) = match_attributes(toks, p2);
    let p4 = match match_punctuation(toks, p3, Some('/'), Some(Adjacency::Joint), &no_exclusions) {
        Ok((_, p)) => p,
        Err(_) => {
            return Err(ParseError::LocalMismatch);
        },
    };
    let p5 = match match_punctuation(toks, p4, Some('>'), Option::<Adjacency>::None,
        &no_exclusions) {
        Ok((_, p)) => p,
        Err(_) => {
            return Err(ParseError::LocalMismatch);
        },
    };
    let (attributes, handlers, dom_refs) = split_attributes(entries);
    let node = ParsedNode {
        rendered: RenderedNode::Html { name, attributes, children: Vec::new() },
        handlers,
        dom_refs,
    };
    proof {
        assert(crate::ir::node_views(Seq::<RenderedNode>::empty()) =~= Seq::<NodeView>::empty());
    }
    Ok((node, p5))
}

/// An opening tag: `<` (alone) identifier attribute* `>`.
pub open spec fn spec_parse_opening_tag(v: Seq<TokenView>) -> SpecStep<OpeningTagView> {
    match spec_match_punctuation(v, Some('<'), Some(Adjacency::Alone), Seq::empty()) {
        SpecStep::Failed(_) => SpecStep::Failed(ErrorView::LocalMismatch),
        SpecStep::Matched(_, r1) => match spec_match_identifier(r1) {
            SpecStep::Failed(_) => SpecStep::Failed(ErrorView::LocalMismatch),
            SpecStep::Matched(name, r2) => {
                let (entries, r3) = spec_match_attributes(r2);
                match spec_match_punctuation(
                    r3,
                    Some('>'),
                    Option::<Adjacency>::None,
                    Seq::empty(),
                ) {
                    SpecStep::Failed(_) => SpecStep::Failed(ErrorView::LocalMismatch),
                    SpecStep::Matched(_, r4) => SpecStep::Matched(
                        OpeningTagView { name, entries },
                        r4,
                    ),
                }
            },
        },
    }
}

/// Parses one opening tag at `pos`.
pub fn parse_opening_tag(toks: &Vec<LexicalToken>, pos: usize) -> (r: Result<
    (OpeningTag, usize),
    ParseError,
>)
    requires
        pos <= toks@.len(),
    ensures
        agrees(r, token_views(toks@), pos as int, spec_parse_opening_tag(
            token_views(toks@).skip(pos as int),
        )),
        r matches Ok((_, np)) ==> pos < np <= toks@.len(),
{
    let no_exclusions: Vec<char> = Vec::new();
    proof {
        assert(no_exclusions@ =~= Seq::<char>::empty());
    }
    let p1 = match match_punctuation(toks, pos, Some('<'), Some(Adjacency::Alone), &no_exclusions) {
        Ok((_, p)) => p,
        Err(_) => {
            return Err(ParseError::LocalMismatch);
        },
    };
    let (name, p2) = match match_identifier(toks, p1) {
        Ok(v) => v,
        Err(_) => {
            return Err(ParseError::LocalMismatch);
        },
    };
    let (entries, p3) = match_attributes(toks, p2);
    let p4 = match match_punctuation(toks, p3, Some('>'), Option::<Adjacency>::None,
        &no_exclusions) {
        Ok((_, p)) => p,
        Err(_) => {
            return Err(ParseError::LocalMismatch);
        },
    };
    Ok((OpeningTag { name, entries }, p4))
}

/// A closing tag: `<` (joint) `/` (alone) identifier `>`, yielding the name.
pub open spec fn spec_parse_closing_tag(v: Seq<TokenView>) -> SpecStep<Seq<char>> {
    match spec_match_punctuation(v, Some('<'), Some(Adjacency::Joint), Seq::empty()) {
        SpecStep::Failed(_) => SpecStep::Failed(ErrorView::LocalMismatch),
        SpecStep::Matched(_, r1) => match spec_match_punctuation(
            r1,
            Some('/'),
            Some(Adjacency::Alone),
            Seq::empty(),
        ) {
            SpecStep::Failed(_) => SpecStep::Failed(ErrorView::LocalMismatch),
            SpecStep::Matched(_, r2) => match spec_match_identifier(r2) {
                SpecStep::Failed(_) => SpecStep::Failed(ErrorView::LocalMismatch),
                SpecStep::Matched(name, r3) => match spec_match_punctuation(
                    r3,
                    Some('>'),
                    Option::<Adjacency>::None,
                    Seq::empty(),
                ) {
                    SpecStep::Failed(_) => SpecStep::Failed(ErrorView::LocalMismatch),
                    SpecStep::Matched(_, r4) => SpecStep::Matched(name, r4),
                },
            },
        },
    }
}

/// Parses one closing tag at `pos`.
pub fn parse_closing_tag(toks: &Vec<LexicalToken>, pos: usize) -> (r: Result<
    (String, usize),
    ParseError,
>)
    requires
        pos <= toks@.len(),
    ensures
        agrees(r, token_views(toks@), pos as int, spec_parse_closing_tag(
            token_views(toks@).skip(pos as int),
        )),
        r matches Ok((_, np)) ==> pos < np <= toks@.len(),
{
    let no_exclusions: Vec<char> = Vec::new();
    proof {
        assert(no_exclusions@ =~= Seq::<char>::empty());
    }
    let p1 = match match_punctuation(toks, pos, Some('<'), Some(Adjacency::Joint), &no_exclusions) {
        Ok((_, p)) => p,
        Err(_) => {
            return Err(ParseError::LocalMismatch);
        },
    };
    let p2 = match match_punctuation(toks, p1, Some('/'), Some(Adjacency::Alone), &no_exclusions) {
        Ok((_, p)) => p,
        Err(_) => {
            return Err(ParseError::LocalMismatch);
        },
    };
    let (name, p3) = match match_identifier(toks, p2) {
        Ok(v) => v,
        Err(_) => {
            return Err(ParseError::LocalMismatch);
        },
    };
    let p4 = match match_punctuation(toks, p3, Some('>'), Option::<Adjacency>::None,
        &no_exclusions) {
        Ok((_, p)) => p,
        Err(_) => {
            return Err(ParseError::LocalMismatch);
        },
    };
    Ok((name, p4))
}

/// A regular node: opening tag, zero or more child nodes, closing tag. The
/// opening and closing names must be textually equal; a mismatch is the fatal
/// tag-mismatch error naming both, not a backtrackable failure, since a
/// mismatched close tag is malformed markup and no alternative grammar to
/// explore. This level's attribute-derived handlers and references come
/// first, unprefixed; each child subtree's records get that child's sibling
/// index appended by the reduction step.
pub open spec fn spec_parse_regular(v: Seq<TokenView>) -> SpecStep<ParsedNodeView>
    decreases v.len(), 1int,
{
    match spec_parse_opening_tag(v) {
        SpecStep::Failed(_) => SpecStep::Failed(ErrorView::LocalMismatch),
        SpecStep::Matched(tag, r1) => {
            if r1.len() < v.len() {
                match spec_parse_nodes(r1) {
                    SpecStep::Failed(e) => SpecStep::Failed(e),
                    SpecStep::Matched(children, r2) => match spec_parse_closing_tag(r2) {
                        SpecStep::Failed(_) => SpecStep::Failed(ErrorView::LocalMismatch),
                        SpecStep::Matched(close_name, r3) => {
                            if tag.name == close_name {
                                let (attributes, handlers, dom_refs) = spec_split_attributes(
                                    tag.entries,
                                );
                                let (child_nodes, child_handlers, child_refs) =
                                    spec_merge_siblings(children);
                                SpecStep::Matched(
                                    ParsedNodeView {
                                        rendered: NodeView::Html {
                                            name: tag.name,
                                            attributes,
                                            children: child_nodes,
                                        },
                                        handlers: handlers + child_handlers,
                                        dom_refs: dom_refs + child_refs,
                                    },
                                    r3,
                                )
                            } else {
                                SpecStep::Failed(ErrorView::TagMismatch(tag.name, close_name))
                            }
                        },
                    },
                }
            } else {
                SpecStep::Failed(ErrorView::LocalMismatch)
            }
        },
    }
}

/// An html node: the self-closing rule tried before the regular rule, the
/// regular rule tried only on a recoverable mismatch.
pub open spec fn spec_parse_html(v: Seq<TokenView>) -> SpecStep<ParsedNodeView>
    decreases v.len(), 2int,
{
    match spec_parse_self_closing(v) {
        SpecStep::Matched(n, rest) => SpecStep::Matched(n, rest),
        SpecStep::Failed(ErrorView::LocalMismatch) => spec_parse_regular(v),
        SpecStep::Failed(e) => SpecStep::Failed(e),
    }
}

/// One node: html node, else text run, else expression group, in that order;
/// only recoverable mismatches fall through to the next alternative.
pub open spec fn spec_parse_node(v: Seq<TokenView>) -> SpecStep<ParsedNodeView>
    decreases v.len(), 3int,
{
    match spec_parse_html(v) {
        SpecStep::Matched(n, rest) => SpecStep::Matched(n, rest),
        SpecStep::Failed(ErrorView::LocalMismatch) => match spec_parse_text(v) {
            SpecStep::Matched(n, rest) => SpecStep::Matched(n, rest),
            SpecStep::Failed(ErrorView::LocalMismatch) => spec_parse_expression_group(v),
            SpecStep::Failed(e) => SpecStep::Failed(e),
        },
        SpecStep::Failed(e) => SpecStep::Failed(e),
    }
}

/// Zero or more nodes: the repetition stops at the first recoverable
/// mismatch and propagates a fatal failure unchanged.
pub open spec fn spec_parse_nodes(v: Seq<TokenView>) -> SpecStep<Seq<ParsedNodeView>>
    decreases v.len(), 4int,
{
    match spec_parse_node(v) {
        SpecStep::Failed(ErrorView::LocalMismatch) => SpecStep::Matched(Seq::empty(), v),
        SpecStep::Failed(e) => SpecStep::Failed(e),
        SpecStep::Matched(n, rest) => {
            if rest.len() < v.len() {
                match spec_parse_nodes(rest) {
                    SpecStep::Failed(e) => SpecStep::Failed(e),
                    SpecStep::Matched(tail, suffix) => SpecStep::Matched(seq![n] + tail, suffix),
                }
            } else {
                SpecStep::Matched(seq![n], rest)
            }
        },
    }
}

/// Parses one regular node at `pos`.
pub fn parse_regular_node(toks: &Vec<LexicalToken>, pos: usize) -> (r: Result<
    (ParsedNode, usize),
    ParseError,
>)
    requires
        pos <= toks@.len(),
    ensures
        agrees(r, token_views(toks@), pos as int, spec_parse_regular(
            token_views(toks@).skip(pos as int),
        )),
        r matches Ok((_, np)) ==> pos < np <= toks@.len(),
    decreases toks@.len() - pos, 1int,
{
    let (tag, p1) = match parse_opening_tag(toks, pos) {
        Ok(v) => v,
        Err(_) => {
            return Err(ParseError::LocalMismatch);
        },
    };
    let (children, p2) = match parse_nodes(toks, p1) {
        Ok(v) => v,
        Err(e) => {
            return Err(e);
        },
    };
    let (close_name, p3) = match parse_closing_tag(toks, p2) {
        Ok(v) => v,
        Err(_) => {
            return Err(ParseError::LocalMismatch);
        },
    };
    if tag.name == close_name {
        let (attributes, mut handlers, mut dom_refs) = split_attributes(tag.entries);
        let (child_nodes, mut child_handlers, mut child_refs) = merge_siblings(children);
        let ghost own_handlers_view = handlers.deep_view();
        let ghost own_refs_view = dom_refs.deep_view();
        handlers.append(&mut child_handlers);
        dom_refs.append(&mut child_refs);
        let node = ParsedNode {
            rendered: RenderedNode::Html { name: tag.name, attributes, children: child_nodes },
            handlers,
            dom_refs,
        };
        proof {
            assert(node.handlers.deep_view() =~= own_handlers_view + spec_merge_siblings(
                children.deep_view(),
            ).1);
            assert(node.dom_refs.deep_view() =~= own_refs_view + spec_merge_siblings(
                children.deep_view(),
            ).2);
        }
        Ok((node, p3))
    } else {
        Err(ParseError::TagMismatch(tag.name, close_name))
    }
}

/// Parses one html node at `pos`.
pub fn parse_html_node(toks: &Vec<LexicalToken>, pos: usize) -> (r: Result<
    (ParsedNode, usize),
    ParseError,
>)
    requires
        pos <= toks@.len(),
    ensures
        agrees(r, token_views(toks@), pos as int, spec_parse_html(
            token_views(toks@).skip(pos as int),
        )),
        r matches Ok((_, np)) ==> pos < np <= toks@.len(),
    decreases toks@.len() - pos, 2int,
{
    match parse_self_closing_node(toks, pos) {
        Ok(v) => Ok(v),
        Err(e) => {
            if e.is_local() {
                parse_regular_node(toks, pos)
            } else {
                Err(e)
            }
        },
    }
}

/// Parses one node at `pos`.
pub fn parse_node(toks: &Vec<LexicalToken>, pos: usize) -> (r: Result<
    (ParsedNode, usize),
    ParseError,
>)
    requires
        pos <= toks@.len(),
    ensures
        agrees(r, token_views(toks@), pos as int, spec_parse_node(
            token_views(toks@).skip(pos as int),
        )),
        r matches Ok((_, np)) ==> pos < np <= toks@.len(),
    decreases toks@.len() - pos, 3int,
{
    match parse_html_node(toks, pos) {
        Ok(v) => Ok(v),
        Err(e) => {
            if e.is_local() {
                match parse_text_node(toks, pos) {
                    Ok(v) => Ok(v),
                    Err(e2) => {
                        if e2.is_local() {
                            parse_expression_group(toks, pos)
                        } else {
                            Err(e2)
                        }
                    },
                }
            } else {
                Err(e)
            }
        },
    }
}

/// Parses zero or more nodes from `pos`, stopping at the first recoverable
/// mismatch and unwinding on a fatal failure.
pub fn parse_nodes(toks: &Vec<LexicalToken>, pos: usize) -> (r: Result<
    (Vec<ParsedNode>, usize),
    ParseError,
>)
    requires
        pos <= toks@.len(),
    ensures
        agrees(r, token_views(toks@), pos as int, spec_parse_nodes(
            token_views(toks@).skip(pos as int),
        )),
        r matches Ok((_, np)) ==> pos <= np <= toks@.len(),
    decreases toks@.len() - pos, 4int,
{
    match parse_node(toks, pos) {
        Err(e) => {
            if e.is_local() {
                let out: Vec<ParsedNode> = Vec::new();
                proof {
                    assert(out.deep_view() =~= Seq::<ParsedNodeView>::empty());
                }
                Ok((out, pos))
            } else {
                Err(e)
            }
        },
        Ok((n, np)) => {
            match parse_nodes(toks, np) {
                Err(e) => Err(e),
                Ok((mut tail, end)) => {
                    let ghost tail_view = tail.deep_view();
                    let ghost n_view = n.deep_view();
                    tail.insert(0, n);
                    proof {
                        assert(tail.deep_view() =~= seq![n_view] + tail_view);
                    }
                    Ok((tail, end))
                },
            }
        },
    }
}

} // verus!
