//! Primitive token matchers: each recognizes exactly one lexical token at the
//! head of the unconsumed sequence and consumes it, or fails recoverably and
//! consumes nothing. Every executable matcher is proved to agree with its
//! specification-level counterpart.

use vstd::prelude::*;
use crate::tokens::{
    Adjacency, DelimiterKind, ErrorView, LexicalToken, ParseError, SpecStep, TokenView, agrees,
    lemma_token_views_index, token_views,
};

verus! {

broadcast use
    vstd::std_specs::vec::group_vec_axioms,
    vstd::seq::group_seq_axioms,
    crate::tokens::lemma_token_views_index,
    crate::tokens::lemma_vec_deep_view_is_token_views;

/// A deep copy of one token, equal to the original in view.
pub fn copy_token(t: &LexicalToken) -> (r: LexicalToken)
    ensures
        r.deep_view() == t.deep_view(),
    decreases *t,
{
    match t {
        LexicalToken::Identifier(name) => LexicalToken::Identifier(name.clone()),
        LexicalToken::Punctuation(c, adj) => LexicalToken::Punctuation(*c, *adj),
        LexicalToken::Literal(text) => LexicalToken::Literal(text.clone()),
        LexicalToken::Group(kind, inner) => LexicalToken::Group(*kind, copy_tokens(inner)),
    }
}

/// A deep copy of a token vector, equal to the original in view.
pub fn copy_tokens(v: &Vec<LexicalToken>) -> (r: Vec<LexicalToken>)
    ensures
        token_views(r@) == token_views(v@),
        r@.len() == v@.len(),
    decreases *v,
{
    let mut out: Vec<LexicalToken> = Vec::new();
    let mut i: usize = 0;
    while i < v.len()
        invariant
            i <= v@.len(),
            out@.len() == i,
            forall|j: int| 0 <= j < i ==> out@[j].deep_view() == v@[j].deep_view(),
        decreases v@.len() - i,
    {
        let copied = copy_token(&v[i]);
        out.push(copied);
        i = i + 1;
    }
    proof {
        assert(token_views(out@) =~= token_views(v@));
    }
    out
}

/// Matches one identifier token and returns its name.
pub open spec fn spec_match_identifier(v: Seq<TokenView>) -> SpecStep<Seq<char>> {
    if v.len() > 0 {
        match v[0] {
            TokenView::Identifier(name) => SpecStep::Matched(name, v.skip(1)),
            _ => SpecStep::Failed(ErrorView::LocalMismatch),
        }
    } else {
        SpecStep::Failed(ErrorView::LocalMismatch)
    }
}

/// Matches one identifier token at `pos` and returns its name.
pub fn match_identifier(toks: &Vec<LexicalToken>, pos: usize) -> (r: Result<
    (String, usize),
    ParseError,
>)
    requires
        pos <= toks@.len(),
    ensures
        agrees(r, token_views(toks@), pos as int, spec_match_identifier(
            token_views(toks@).skip(pos as int),
        )),
        r matches Ok((_, np)) ==> np == pos + 1,
{
    proof {
        lemma_skip_head(toks@, pos as int);
    }
    if pos < toks.len() {
        match &toks[pos] {
            LexicalToken::Identifier(name) => Ok((name.clone(), pos + 1)),
            _ => Err(ParseError::LocalMismatch),
        }
    } else {
        Err(ParseError::LocalMismatch)
    }
}

/// The head and tail of a token-view suffix, spelled out for the matchers: the
/// head view is the view of the token at `pos`, and dropping one more element
/// reaches the suffix at `pos + 1`.
proof fn lemma_skip_head(s: Seq<LexicalToken>, pos: int)
    requires
        0 <= pos <= s.len(),
    ensures
        token_views(s).skip(pos).len() == s.len() - pos,
        pos < s.len() ==> token_views(s).skip(pos)[0] == token_views(s)[pos],
        pos < s.len() ==> token_views(s).skip(pos).skip(1) == token_views(s).skip(pos + 1),
{
    lemma_token_views_index(s);
    if pos < s.len() {
        assert(token_views(s).skip(pos).skip(1) =~= token_views(s).skip(pos + 1));
    }
}

/// Matches one punctuation token, optionally constrained to an expected
/// character and an expected adjacency, and refused when the character is in
/// the exclusion set.
pub open spec fn spec_match_punctuation(
    v: Seq<TokenView>,
    expected: Option<char>,
    adjacency: Option<Adjacency>,
    excluded: Seq<char>,
) -> SpecStep<char> {
    if v.len() > 0 {
        match v[0] {
            TokenView::Punctuation(c, adj) => {
                if (match expected {
                    Some(e) => e == c,
                    None => true,
                }) && (match adjacency {
                    Some(a) => a == adj,
                    None => true,
                }) && !excluded.contains(c) {
                    SpecStep::Matched(c, v.skip(1))
                } else {
                    SpecStep::Failed(ErrorView::LocalMismatch)
                }
            },
            _ => SpecStep::Failed(ErrorView::LocalMismatch),
        }
    } else {
        SpecStep::Failed(ErrorView::LocalMismatch)
    }
}

/// True when the character vector holds `c`.
fn vec_contains_char(v: &Vec<char>, c: char) -> (r: bool)
    ensures
        r == v@.contains(c),
{
    let mut i: usize = 0;
    while i < v.len()
        invariant
            i <= v@.len(),
            forall|j: int| 0 <= j < i ==> v@[j] != c,
        decreases v@.len() - i,
    {
        if v[i] == c {
            return true;
        }
        i = i + 1;
    }
    false
}

/// Matches one punctuation token at `pos` under the given constraints and
/// returns its character.
pub fn match_punctuation(
    toks: &Vec<LexicalToken>,
    pos: usize,
    expected: Option<char>,
    adjacency: Option<Adjacency>,
    excluded: &Vec<char>,
) -> (r: Result<(char, usize), ParseError>)
    requires
        pos <= toks@.len(),
    ensures
        agrees(r, token_views(toks@), pos as int, spec_match_punctuation(
            token_views(toks@).skip(pos as int),
            expected,
            adjacency,
            excluded@,
        )),
        r matches Ok((_, np)) ==> np == pos + 1,
{
    proof {
        lemma_skip_head(toks@, pos as int);
    }
    if pos < toks.len() {
        match &toks[pos] {
            LexicalToken::Punctuation(c, adj) => {
                let char_ok = match expected {
                    Some(e) => e == *c,
                    None => true,
                };
                let adjacency_ok = match adjacency {
                    Some(a) => a == *adj,
                    None => true,
                };
                if char_ok && adjacency_ok && !vec_contains_char(excluded, *c) {
                    Ok((*c, pos + 1))
                } else {
                    Err(ParseError::LocalMismatch)
                }
            },
            _ => Err(ParseError::LocalMismatch),
        }
    } else {
        Err(ParseError::LocalMismatch)
    }
}

/// Matches one delimited-group token of the given delimiter kind and returns
/// the inner sequence opaquely.
pub open spec fn spec_match_delimited_group(v: Seq<TokenView>, kind: DelimiterKind) -> SpecStep<
    Seq<TokenView>,
> {
    if v.len() > 0 {
        match v[0] {
            TokenView::Group(k, inner) => {
                if k == kind {
                    SpecStep::Matched(inner, v.skip(1))
                } else {
                    SpecStep::Failed(ErrorView::LocalMismatch)
                }
            },
            _ => SpecStep::Failed(ErrorView::LocalMismatch),
        }
    } else {
        SpecStep::Failed(ErrorView::LocalMismatch)
    }
}

/// Matches one delimited-group token of the given kind at `pos` and returns
/// the inner token sequence.
pub fn match_delimited_group(toks: &Vec<LexicalToken>, pos: usize, kind: DelimiterKind) -> (r:
    Result<(Vec<LexicalToken>, usize), ParseError>)
    requires
        pos <= toks@.len(),
    ensures
        agrees(r, token_views(toks@), pos as int, spec_match_delimited_group(
            token_views(toks@).skip(pos as int),
            kind,
        )),
        r matches Ok((_, np)) ==> np == pos + 1,
{
    proof {
        lemma_skip_head(toks@, pos as int);
    }
    if pos < toks.len() {
        match &toks[pos] {
            LexicalToken::Group(k, inner) => {
                if *k == kind {
                    Ok((copy_tokens(inner), pos + 1))
                } else {
                    Err(ParseError::LocalMismatch)
                }
            },
            _ => Err(ParseError::LocalMismatch),
        }
    } else {
        Err(ParseError::LocalMismatch)
    }
}

/// Matches one literal token and returns its text.
pub open spec fn spec_match_literal_as_string(v: Seq<TokenView>) -> SpecStep<Seq<char>> {
    if v.len() > 0 {
        match v[0] {
            TokenView::Literal(text) => SpecStep::Matched(text, v.skip(1)),
            _ => SpecStep::Failed(ErrorView::LocalMismatch),
        }
    } else {
        SpecStep::Failed(ErrorView::LocalMismatch)
    }
}

/// Matches one literal token at `pos` and returns its text.
pub fn match_literal_as_string(toks: &Vec<LexicalToken>, pos: usize) -> (r: Result<
    (String, usize),
    ParseError,
>)
    requires
        pos <= toks@.len(),
    ensures
        agrees(r, token_views(toks@), pos as int, spec_match_literal_as_string(
            token_views(toks@).skip(pos as int),
        )),
        r matches Ok((_, np)) ==> np == pos + 1,
{
    proof {
        lemma_skip_head(toks@, pos as int);
    }
    if pos < toks.len() {
        match &toks[pos] {
            LexicalToken::Literal(text) => Ok((text.clone(), pos + 1)),
            _ => Err(ParseError::LocalMismatch),
        }
    } else {
        Err(ParseError::LocalMismatch)
    }
}

/// Succeeds only when the whole sequence has been consumed; anything left over
/// is the fatal trailing-input error.
pub fn ensure_fully_consumed(toks: &Vec<LexicalToken>, pos: usize) -> (r: Result<(), ParseError>)
    requires
        pos <= toks@.len(),
    ensures
        r is Ok <==> pos == toks@.len(),
        r matches Err(e) ==> e == ParseError::TrailingInput,
{
    if pos == toks.len() {
        Ok(())
    } else {
        Err(ParseError::TrailingInput)
    }
}

} // verus!
