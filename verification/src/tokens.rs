//! The lexical token model, the parse-error taxonomy, and the glue that ties
//! an executable parse step to its specification-level counterpart.
//!
//! A `LexicalToken` is one indivisible unit of the input sequence. Every parse
//! operation consumes a prefix of an immutable token vector (expressed as a
//! cursor position) and either returns a value plus the new position, or an
//! error and no position: failure never consumes input, which is what makes
//! ordered-alternation backtracking safe.

use vstd::prelude::*;

verus! {

broadcast use vstd::std_specs::vec::group_vec_axioms, vstd::seq::group_seq_axioms;

/// Whether a punctuation character is immediately followed by another
/// punctuation character (`Joint`) or not (`Alone`). The grammar uses this to
/// tell an opening `<` (alone) from the `<` of a closing `</` (joint).
#[derive(Clone, Copy, Debug, PartialEq, Eq, Structural)]
pub enum Adjacency {
    Joint,
    Alone,
}

/// The delimiter kind of a delimited group token. `Bare` marks a group with
/// invisible delimiters, as precedence-only grouping produces.
#[derive(Clone, Copy, Debug, PartialEq, Eq, Structural)]
pub enum DelimiterKind {
    Parenthesis,
    Brace,
    Bracket,
    Bare,
}

/// One lexical token: an identifier, a punctuation character with its
/// adjacency, a literal, or a delimited group holding its own inner sequence.
#[derive(Debug, PartialEq)]
pub enum LexicalToken {
    Identifier(String),
    Punctuation(char, Adjacency),
    Literal(String),
    Group(DelimiterKind, Vec<LexicalToken>),
}

/// The mathematical shape of one token: strings become character sequences
/// and group interiors become token-view sequences.
#[verifier::ext_equal]
pub enum TokenView {
    Identifier(Seq<char>),
    Punctuation(char, Adjacency),
    Literal(Seq<char>),
    Group(DelimiterKind, Seq<TokenView>),
}

/// The view of one executable token.
pub open spec fn token_view(t: LexicalToken) -> TokenView
    decreases t,
{
    match t {
        LexicalToken::Identifier(name) => TokenView::Identifier(name@),
        LexicalToken::Punctuation(c, adj) => TokenView::Punctuation(c, adj),
        LexicalToken::Literal(text) => TokenView::Literal(text@),
        LexicalToken::Group(kind, inner) => TokenView::Group(kind, token_views(inner@)),
    }
}

/// The views of a token sequence, element by element.
pub open spec fn token_views(s: Seq<LexicalToken>) -> Seq<TokenView>
    decreases s,
{
    if s.len() == 0 {
        Seq::empty()
    } else {
        seq![token_view(s[0])] + token_views(s.subrange(1, s.len() as int))
    }
}

/// A token sequence and its view sequence have the same length, and the view
/// sequence holds the view of each token.
pub broadcast proof fn lemma_token_views_index(s: Seq<LexicalToken>)
    ensures
        (#[trigger] token_views(s)).len() == s.len(),
        forall|i: int| 0 <= i < s.len() ==> token_views(s)[i] == token_view(s[i]),
    decreases s.len(),
{
    if s.len() > 0 {
        lemma_token_views_index(s.subrange(1, s.len() as int));
    }
}

/// The deep view of a token vector is the view sequence of its tokens.
pub broadcast proof fn lemma_vec_deep_view_is_token_views(v: Vec<LexicalToken>)
    ensures
        #[trigger] v.deep_view() == token_views(v@),
{
    lemma_token_views_index(v@);
    assert(v.deep_view() =~= token_views(v@));
}

impl View for LexicalToken {
    type V = TokenView;

    open spec fn view(&self) -> TokenView {
        token_view(*self)
    }
}

impl DeepView for LexicalToken {
    type V = TokenView;

    open spec fn deep_view(&self) -> TokenView {
        token_view(*self)
    }
}

/// How a parse step can fail.
///
/// `LocalMismatch` is recoverable: an enclosing alternation or repetition
/// absorbs it and tries the next alternative. The other three kinds are fatal
/// and unwind to the top level without being offered to any alternative.
#[derive(Debug, PartialEq)]
pub enum ParseError {
    /// A matcher did not recognize the expected token (backtracked).
    LocalMismatch,
    /// Opening and closing tag identifiers differ (fatal); carries both names.
    TagMismatch(String, String),
    /// Tokens remain after a complete top-level parse (fatal).
    TrailingInput,
    /// An expected delimited group is absent or wrongly delimited (fatal).
    MalformedGroup,
}

/// The mathematical shape of a parse error.
#[verifier::ext_equal]
pub enum ErrorView {
    LocalMismatch,
    TagMismatch(Seq<char>, Seq<char>),
    TrailingInput,
    MalformedGroup,
}

impl DeepView for ParseError {
    type V = ErrorView;

    open spec fn deep_view(&self) -> ErrorView {
        match self {
            ParseError::LocalMismatch => ErrorView::LocalMismatch,
            ParseError::TagMismatch(open_name, close_name) => ErrorView::TagMismatch(
                open_name@,
                close_name@,
            ),
            ParseError::TrailingInput => ErrorView::TrailingInput,
            ParseError::MalformedGroup => ErrorView::MalformedGroup,
        }
    }
}

impl ParseError {
    /// True of the one recoverable failure kind.
    pub open spec fn spec_is_local(&self) -> bool {
        self is LocalMismatch
    }

    /// Executable test for the recoverable failure kind, used by alternation
    /// and repetition to decide between backtracking and unwinding.
    #[verifier::when_used_as_spec(spec_is_local)]
    pub fn is_local(&self) -> (r: bool)
        ensures
            r == self.spec_is_local(),
    {
        match self {
            ParseError::LocalMismatch => true,
            _ => false,
        }
    }
}

/// The outcome of one specification-level parse step: a value of view type `V`
/// together with the unconsumed suffix, or a failure.
#[verifier::ext_equal]
pub enum SpecStep<V> {
    Matched(V, Seq<TokenView>),
    Failed(ErrorView),
}

/// Ties an executable parse step over `(tokens, position)` to the
/// specification-level step `s` computed on the token views from `pos` on.
/// On success the value's deep view and the remainder agree with `s`; on
/// failure the error's view agrees, and no position is handed out at all,
/// so failure consumes nothing.
pub open spec fn agrees<T: DeepView>(
    r: Result<(T, usize), ParseError>,
    v: Seq<TokenView>,
    pos: int,
    s: SpecStep<<T as DeepView>::V>,
) -> bool {
    match r {
        Ok((value, new_pos)) => pos <= new_pos as int <= v.len() && s == SpecStep::Matched(
            value.deep_view(),
            v.skip(new_pos as int),
        ),
        Err(e) => s == SpecStep::<<T as DeepView>::V>::Failed(e.deep_view()),
    }
}

} // verus!
