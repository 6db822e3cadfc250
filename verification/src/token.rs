//! Token trees as plain values.
//!
//! `Token` is what the macros emit; `SourceToken` is what they read.  A
//! source group also carries the text that the token printer produced for its
//! stream (and for its stream without the first token), since the macros read
//! names and query texts from there.
use vstd::prelude::*;

use crate::text::str_eq;

verus! {

/// The delimiter of a group.
#[derive(PartialEq, Eq, Structural, Clone, Copy, Debug)]
pub enum Delimiter {
    Parenthesis,
    Brace,
    Bracket,
    Invisible,
}

/// Whether a punctuation character is glued to the next one.
#[derive(PartialEq, Eq, Structural, Clone, Copy, Debug)]
pub enum Spacing {
    Alone,
    Joint,
}

/// An emitted token tree.
#[derive(Debug, PartialEq, Eq)]
pub enum Token {
    Group(Delimiter, Vec<Token>),
    Ident(String),
    Punct(char, Spacing),
    Literal(String),
}

/// The mathematical value of a `Token`.
pub enum TokenView {
    Group(Delimiter, Seq<TokenView>),
    Ident(Seq<char>),
    Punct(char, Spacing),
    Literal(Seq<char>),
}

/// A token stream as read by a macro: its trees, the text of the whole
/// stream, and the text of the stream after its first tree.  The two texts
/// are what the token printer gave for the stream where it was read; that
/// printer is the compiler's inside a macro and another one outside it, so
/// nothing here ties the texts to the trees: the contracts speak of the
/// texts as they are given.
#[derive(Debug, PartialEq, Eq)]
pub struct SourceStream {
    pub tokens: Vec<SourceToken>,
    pub text: String,
    pub tail_text: String,
}

/// A token tree as read by a macro.
#[derive(Debug, PartialEq, Eq)]
pub enum SourceToken {
    Group(Delimiter, SourceStream),
    Ident(String),
    Punct(char, Spacing),
    Literal(String),
}

pub struct SourceStreamView {
    pub tokens: Seq<SourceTokenView>,
    pub text: Seq<char>,
    pub tail_text: Seq<char>,
}

pub enum SourceTokenView {
    Group(Delimiter, SourceStreamView),
    Ident(Seq<char>),
    Punct(char, Spacing),
    Literal(Seq<char>),
}

pub open spec fn token_view(t: Token) -> TokenView
    decreases t, 1nat,
{
    match t {
        Token::Group(d, ts) => TokenView::Group(d, tokens_view(ts@)),
        Token::Ident(s) => TokenView::Ident(s@),
        Token::Punct(c, sp) => TokenView::Punct(c, sp),
        Token::Literal(s) => TokenView::Literal(s@),
    }
}

pub open spec fn tokens_view(ts: Seq<Token>) -> Seq<TokenView>
    decreases ts, 0nat,
{
    if ts.len() == 0 {
        Seq::empty()
    } else {
        tokens_view(ts.drop_last()).push(token_view(ts.last()))
    }
}

pub open spec fn source_view(t: SourceToken) -> SourceTokenView
    decreases t, 2nat,
{
    match t {
        SourceToken::Group(d, s) => SourceTokenView::Group(d, stream_view(s)),
        SourceToken::Ident(s) => SourceTokenView::Ident(s@),
        SourceToken::Punct(c, sp) => SourceTokenView::Punct(c, sp),
        SourceToken::Literal(s) => SourceTokenView::Literal(s@),
    }
}

pub open spec fn stream_view(s: SourceStream) -> SourceStreamView
    decreases s, 1nat,
{
    SourceStreamView { tokens: sources_view(s.tokens@), text: s.text@, tail_text: s.tail_text@ }
}

pub open spec fn sources_view(ts: Seq<SourceToken>) -> Seq<SourceTokenView>
    decreases ts, 0nat,
{
    if ts.len() == 0 {
        Seq::empty()
    } else {
        sources_view(ts.drop_last()).push(source_view(ts.last()))
    }
}

/// A source tree with its printed texts left out.
pub open spec fn plain(t: SourceTokenView) -> TokenView
    decreases t, 1nat,
{
    match t {
        SourceTokenView::Group(d, s) => TokenView::Group(d, plains(s.tokens)),
        SourceTokenView::Ident(s) => TokenView::Ident(s),
        SourceTokenView::Punct(c, sp) => TokenView::Punct(c, sp),
        SourceTokenView::Literal(s) => TokenView::Literal(s),
    }
}

pub open spec fn plains(ts: Seq<SourceTokenView>) -> Seq<TokenView>
    decreases ts, 0nat,
{
    if ts.len() == 0 {
        Seq::empty()
    } else {
        plains(ts.drop_last()).push(plain(ts.last()))
    }
}

pub broadcast proof fn lemma_tokens_view_push(ts: Seq<Token>, t: Token)
    ensures
        #[trigger] tokens_view(ts.push(t)) == tokens_view(ts).push(token_view(t)),
{
    assert(ts.push(t).drop_last() =~= ts);
}

pub proof fn lemma_tokens_view_index(ts: Seq<Token>)
    ensures
        tokens_view(ts).len() == ts.len(),
        forall|i: int| 0 <= i < ts.len() ==> #[trigger] tokens_view(ts)[i] == token_view(ts[i]),
    decreases ts.len(),
{
    if ts.len() > 0 {
        lemma_tokens_view_index(ts.drop_last());
    }
}

pub proof fn lemma_tokens_view_add(a: Seq<Token>, b: Seq<Token>)
    ensures
        tokens_view(a + b) == tokens_view(a) + tokens_view(b),
    decreases b.len(),
{
    if b.len() == 0 {
        assert(a + b =~= a);
        assert(tokens_view(a) + tokens_view(b) =~= tokens_view(a));
    } else {
        lemma_tokens_view_add(a, b.drop_last());
        assert((a + b).drop_last() =~= a + b.drop_last());
        assert(tokens_view(a) + tokens_view(b.drop_last()).push(token_view(b.last())) =~= (
        tokens_view(a) + tokens_view(b.drop_last())).push(token_view(b.last())));
    }
}

pub proof fn lemma_sources_view_index(ts: Seq<SourceToken>)
    ensures
        sources_view(ts).len() == ts.len(),
        forall|i: int| 0 <= i < ts.len() ==> #[trigger] sources_view(ts)[i] == source_view(ts[i]),
    decreases ts.len(),
{
    if ts.len() > 0 {
        lemma_sources_view_index(ts.drop_last());
    }
}

pub proof fn lemma_plains_index(ts: Seq<SourceTokenView>)
    ensures
        plains(ts).len() == ts.len(),
        forall|i: int| 0 <= i < ts.len() ==> #[trigger] plains(ts)[i] == plain(ts[i]),
    decreases ts.len(),
{
    if ts.len() > 0 {
        lemma_plains_index(ts.drop_last());
    }
}

pub proof fn lemma_plains_take(ts: Seq<SourceTokenView>, i: int)
    requires
        0 <= i < ts.len(),
    ensures
        plains(ts.take(i + 1)) == plains(ts.take(i)).push(plain(ts[i])),
{
    assert(ts.take(i + 1).drop_last() =~= ts.take(i));
}

/// The two punctuation tokens of a path separator `::`.
pub open spec fn path_sep() -> Seq<TokenView> {
    seq![TokenView::Punct(':', Spacing::Joint), TokenView::Punct(':', Spacing::Alone)]
}

pub open spec fn ident_view(s: Seq<char>) -> TokenView {
    TokenView::Ident(s)
}

pub open spec fn alone(c: char) -> TokenView {
    TokenView::Punct(c, Spacing::Alone)
}

/// Appends an identifier.
pub fn push_ident(v: &mut Vec<Token>, s: &str)
    ensures
        tokens_view(final(v)@) == tokens_view(old(v)@).push(TokenView::Ident(s@)),
{
    broadcast use lemma_tokens_view_push;

    v.push(Token::Ident(s.to_string()));
}

/// Appends an identifier held in a `String`.
pub fn push_ident_string(v: &mut Vec<Token>, s: String)
    ensures
        tokens_view(final(v)@) == tokens_view(old(v)@).push(TokenView::Ident(s@)),
{
    broadcast use lemma_tokens_view_push;

    v.push(Token::Ident(s));
}

/// Appends a punctuation character.
pub fn push_punct(v: &mut Vec<Token>, c: char, spacing: Spacing)
    ensures
        tokens_view(final(v)@) == tokens_view(old(v)@).push(TokenView::Punct(c, spacing)),
{
    broadcast use lemma_tokens_view_push;

    v.push(Token::Punct(c, spacing));
}

/// Appends the path separator `::`.
pub fn push_path_sep(v: &mut Vec<Token>)
    ensures
        tokens_view(final(v)@) == tokens_view(old(v)@) + path_sep(),
{
    push_punct(v, ':', Spacing::Joint);
    push_punct(v, ':', Spacing::Alone);
    assert(tokens_view(old(v)@).push(TokenView::Punct(':', Spacing::Joint)).push(
        TokenView::Punct(':', Spacing::Alone),
    ) =~= tokens_view(old(v)@) + path_sep());
}

/// Appends a group.
pub fn push_group(v: &mut Vec<Token>, d: Delimiter, inner: Vec<Token>)
    ensures
        tokens_view(final(v)@) == tokens_view(old(v)@).push(TokenView::Group(d, tokens_view(inner@))),
{
    broadcast use lemma_tokens_view_push;

    v.push(Token::Group(d, inner));
}

/// Appends a literal.
pub fn push_literal(v: &mut Vec<Token>, s: &str)
    ensures
        tokens_view(final(v)@) == tokens_view(old(v)@).push(TokenView::Literal(s@)),
{
    broadcast use lemma_tokens_view_push;

    v.push(Token::Literal(s.to_string()));
}

/// Appends all trees of `other`.
pub fn extend(v: &mut Vec<Token>, other: Vec<Token>)
    ensures
        tokens_view(final(v)@) == tokens_view(old(v)@) + tokens_view(other@),
{
    let mut other = other;
    proof {
        lemma_tokens_view_add(v@, other@);
    }
    v.append(&mut other);
}

/// The tree with its printed texts left out.
pub fn to_plain(t: &SourceToken) -> (r: Token)
    ensures
        token_view(r) == plain(source_view(*t)),
    decreases t,
{
    match t {
        SourceToken::Group(d, s) => {
            let inner = to_plains(&s.tokens);
            Token::Group(*d, inner)
        },
        SourceToken::Ident(s) => Token::Ident(s.clone()),
        SourceToken::Punct(c, sp) => Token::Punct(*c, *sp),
        SourceToken::Literal(s) => Token::Literal(s.clone()),
    }
}

/// The trees with their printed texts left out.
pub fn to_plains(ts: &Vec<SourceToken>) -> (r: Vec<Token>)
    ensures
        tokens_view(r@) == plains(sources_view(ts@)),
    decreases ts,
{
    let mut out: Vec<Token> = Vec::new();
    let mut i: usize = 0;
    proof {
        lemma_sources_view_index(ts@);
        assert(sources_view(ts@).take(0) =~= Seq::<SourceTokenView>::empty());
    }
    while i < ts.len()
        invariant
            i <= ts.len(),
            sources_view(ts@).len() == ts@.len(),
            forall|j: int| 0 <= j < ts@.len() ==> #[trigger] sources_view(ts@)[j] == source_view(ts@[j]),
            tokens_view(out@) == plains(sources_view(ts@).take(i as int)),
        decreases ts.len() - i,
    {
        let t = to_plain(&ts[i]);
        push_tree(&mut out, t);
        proof {
            lemma_plains_take(sources_view(ts@), i as int);
        }
        i = i + 1;
    }
    assert(sources_view(ts@).take(ts.len() as int) =~= sources_view(ts@));
    out
}

/// Appends a tree.
pub fn push_tree(v: &mut Vec<Token>, t: Token)
    ensures
        tokens_view(final(v)@) == tokens_view(old(v)@).push(token_view(t)),
{
    broadcast use lemma_tokens_view_push;

    v.push(t);
}

pub open spec fn spec_is_mut(t: SourceTokenView) -> bool {
    t matches SourceTokenView::Ident(s) && s == "mut"@
}

pub open spec fn spec_is_comma(t: SourceTokenView) -> bool {
    t matches SourceTokenView::Punct(c, _) && c == ','
}

pub open spec fn spec_is_exclamation_mark(t: SourceTokenView) -> bool {
    t matches SourceTokenView::Punct(c, _) && c == '!'
}

pub open spec fn spec_part_of_function_identity(t: SourceTokenView) -> bool {
    t matches SourceTokenView::Ident(s) && (s == "pub"@ || s == "fn"@)
}

/// Is the tree the keyword `mut`?
pub fn is_mut(token: &SourceToken) -> (r: bool)
    ensures
        r == spec_is_mut(source_view(*token)),
{
    match token {
        SourceToken::Ident(e) => str_eq(e.as_str(), "mut"),
        _ => false,
    }
}

/// Is the tree a comma?
pub fn is_comma(token: &SourceToken) -> (r: bool)
    ensures
        r == spec_is_comma(source_view(*token)),
{
    match token {
        SourceToken::Punct(c, _) => *c == ',',
        _ => false,
    }
}

/// Is the tree an exclamation mark?
pub fn is_exclamation_mark(t: &SourceToken) -> (r: bool)
    ensures
        r == spec_is_exclamation_mark(source_view(*t)),
{
    match t {
        SourceToken::Punct(c, _) => *c == '!',
        _ => false,
    }
}

/// Is the tree one of the words `pub` and `fn` that open a function item?
pub fn part_of_function_identity(t: &SourceToken) -> (r: bool)
    ensures
        r == spec_part_of_function_identity(source_view(*t)),
{
    match t {
        SourceToken::Ident(e) => str_eq(e.as_str(), "pub") || str_eq(e.as_str(), "fn"),
        _ => false,
    }
}

} // verus!
