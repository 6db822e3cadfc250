//! What each macro of the crate expands to, as a function from the trees it
//! reads to the trees it emits.
use vstd::prelude::*;

use crate::flags::{Flags, LoopView};
use crate::params::{build_spec, flags_buildable, resource_param_name, sep_join};
use crate::ident::{is_ident, is_identifier};
use crate::query_text::{
    SystemQuery,
    parse_query,
    query_accepted,
    query_ident_name,
    query_name,
    query_text_ok,
    query_to_ident,
};
use crate::scan::{macro_calls_complete, scan_body, token_return_flags};
use crate::text::{to_lowercase, unicode_lowercase};
use crate::token::{
    push_tree,
    Delimiter,
    SourceStream,
    SourceStreamView,
    SourceToken,
    SourceTokenView,
    Spacing,
    Token,
    TokenView,
    alone,
    extend,
    lemma_sources_view_index,
    lemma_tokens_view_index,
    part_of_function_identity,
    path_sep,
    plain,
    plains,
    push_group,
    push_ident,
    push_ident_string,
    push_literal,
    push_path_sep,
    push_punct,
    source_view,
    sources_view,
    spec_is_mut,
    spec_part_of_function_identity,
    stream_view,
    to_plain,
    to_plains,
    token_view,
    tokens_view,
};

verus! {

pub open spec fn ident(s: Seq<char>) -> TokenView {
    TokenView::Ident(s)
}

pub open spec fn empty_parens() -> TokenView {
    TokenView::Group(Delimiter::Parenthesis, Seq::empty())
}

fn new_tokens() -> (r: Vec<Token>)
    ensures
        tokens_view(r@) == Seq::<TokenView>::empty(),
{
    let v: Vec<Token> = Vec::new();
    assert(tokens_view(v@) =~= Seq::<TokenView>::empty());
    v
}

/// An identifier token with the given name.
pub fn to_ident(string: &String) -> (r: Token)
    requires
        is_ident(string@),
    ensures
        token_view(r) == ident(string@),
{
    Token::Ident(string.clone())
}

/// An identifier token with the given name.
pub fn to_ident_str(string: &str) -> (r: Token)
    requires
        is_ident(string@),
    ensures
        token_view(r) == ident(string@),
{
    Token::Ident(string.to_string())
}

/// What `query![..]` stands for while a body is written: an empty slice of
/// the query's component types, `&mut [] as &mut [C]`, or
/// `&mut [] as &mut [(C, D, ..)]` for two or more components.
pub open spec fn query_spec(text: Seq<char>) -> Seq<TokenView> {
    let params = parse_query(text).unwrap().0;
    let items = sep_join(params.map_values(|p: Seq<char>| seq![ident(p)]), alone(','));
    let elem = if params.len() > 1 {
        seq![TokenView::Group(Delimiter::Parenthesis, items)]
    } else {
        items
    };
    seq![
        alone('&'),
        ident("mut"@),
        TokenView::Group(Delimiter::Bracket, Seq::empty()),
        ident("as"@),
        alone('&'),
        ident("mut"@),
        TokenView::Group(Delimiter::Bracket, elem),
    ]
}

/// The `query!` macro can stand for this text: it parses, and the query's
/// parameter name and its components are identifiers.
pub open spec fn query_macro_accepts(text: Seq<char>) -> bool {
    &&& parse_query(text) is Some
    &&& is_ident(query_name(text))
    &&& crate::ident::all_idents(parse_query(text).unwrap().0)
}

/// Can the `query!` macro stand for this input?
pub fn query_input_ok(input: &SourceStream) -> (r: bool)
    ensures
        r == query_macro_accepts(input.text@),
{
    match SystemQuery::parse(&input.text) {
        None => false,
        Some(q) => {
            let name = query_ident_name(&input.text);
            is_identifier(name.as_str()) && crate::ident::all_identifiers(&q.params)
        },
    }
}

/// The `query!` macro: a stand-in of the query's type for the body's
/// editor, `&mut [] as &mut [..]`.
pub fn query(input: &SourceStream) -> (r: Vec<Token>)
    requires
        query_macro_accepts(input.text@),
    ensures
        tokens_view(r@) == query_spec(input.text@),
{
    let s = SystemQuery::new(&input.text);
    let ghost params = parse_query(input.text@).unwrap().0;
    let ghost pieces = params.map_values(|p: Seq<char>| seq![ident(p)]);
    let mut idents = new_tokens();
    let mut i: usize = 0;
    assert(pieces.take(0) =~= Seq::<Seq<TokenView>>::empty());
    while i < s.params.len()
        invariant
            i <= s.params.len(),
            crate::text::strings_view(s.params@) == params,
            pieces == params.map_values(|p: Seq<char>| seq![ident(p)]),
            tokens_view(idents@) == sep_join(pieces.take(i as int), alone(',')),
        decreases s.params.len() - i,
    {
        let ghost before = tokens_view(idents@);
        if i > 0 {
            push_punct(&mut idents, ',', Spacing::Alone);
        }
        push_ident_string(&mut idents, s.params[i].clone());
        proof {
            crate::params::lemma_sep_join_push(pieces.take(i as int), alone(','), pieces[i as int]);
            assert(pieces.take(i as int).push(pieces[i as int]) =~= pieces.take(i + 1));
            if i == 0 {
                assert(before =~= Seq::<TokenView>::empty());
            }
            assert(tokens_view(idents@) =~= sep_join(pieces.take(i + 1), alone(',')));
        }
        i = i + 1;
    }
    assert(pieces.take(i as int) =~= pieces);
    let mut elem = new_tokens();
    if s.params.len() > 1 {
        push_group(&mut elem, Delimiter::Parenthesis, idents);
    } else {
        extend(&mut elem, idents);
    }
    let mut v = new_tokens();
    push_punct(&mut v, '&', Spacing::Alone);
    push_ident(&mut v, "mut");
    push_group(&mut v, Delimiter::Bracket, new_tokens());
    push_ident(&mut v, "as");
    push_punct(&mut v, '&', Spacing::Alone);
    push_ident(&mut v, "mut");
    push_group(&mut v, Delimiter::Bracket, elem);
    assert(tokens_view(v@) =~= query_spec(input.text@));
    v
}

/// What `internal_untyped_query!`, `internal_query!` and
/// `internal_mut_query!` expand to for a query text: the query parameter,
/// or a call of `iter` or `iter_mut` on it.
pub open spec fn query_expansion(ctx: LoopView, text: Seq<char>) -> Seq<TokenView> {
    match ctx {
        LoopView::NoLoop => seq![ident(query_name(text))],
        LoopView::Std => seq![ident(query_name(text)), alone('.'), ident("iter"@), empty_parens()],
        LoopView::Mutable(_) => seq![
            ident(query_name(text)),
            alone('.'),
            ident("iter_mut"@),
            empty_parens(),
        ],
    }
}

fn query_ident_tokens(text: &String, suffix: &str, call: bool) -> (r: Vec<Token>)
    requires
        is_ident(query_name(text@)),
    ensures
        tokens_view(r@) == if call {
            seq![
                ident(query_name(text@)),
                alone('.'),
                ident(suffix@),
                empty_parens(),
            ]
        } else {
            seq![ident(query_name(text@))]
        },
{
    let mut v = new_tokens();
    match query_to_ident(text) {
        Token::Ident(name) => push_ident_string(&mut v, name),
        _ => {
            assert(false);
        },
    }
    if call {
        push_punct(&mut v, '.', Spacing::Alone);
        push_ident(&mut v, suffix);
        push_group(&mut v, Delimiter::Parenthesis, new_tokens());
    }
    assert(tokens_view(v@) =~= (if call {
        seq![ident(query_name(text@)), alone('.'), ident(suffix@), empty_parens()]
    } else {
        seq![ident(query_name(text@))]
    }));
    v
}

/// `query!` outside a loop: the query parameter itself.
pub fn internal_untyped_query(input: &SourceStream) -> (r: Vec<Token>)
    requires
        is_ident(query_name(input.text@)),
    ensures
        tokens_view(r@) == query_expansion(LoopView::NoLoop, input.text@),
{
    query_ident_tokens(&input.text, "iter", false)
}

/// `query!` as the iterable of a loop: `query_...iter()`.
pub fn internal_query(input: &SourceStream) -> (r: Vec<Token>)
    requires
        is_ident(query_name(input.text@)),
    ensures
        tokens_view(r@) == query_expansion(LoopView::Std, input.text@),
{
    query_ident_tokens(&input.text, "iter", true)
}

/// `query!` as the iterable of a loop with a `mut` pattern:
/// `query_...iter_mut()`.
pub fn internal_mut_query(input: &SourceStream) -> (r: Vec<Token>)
    requires
        is_ident(query_name(input.text@)),
    ensures
        tokens_view(r@) == query_expansion(LoopView::Mutable(Seq::empty()), input.text@),
{
    query_ident_tokens(&input.text, "iter_mut", true)
}

fn method_call(receiver: &str, method: &str, input: &SourceStream) -> (r: Vec<Token>)
    ensures
        tokens_view(r@) == seq![
            ident(receiver@),
            alone('.'),
            ident(method@),
            TokenView::Group(Delimiter::Parenthesis, plains(stream_view(*input).tokens)),
        ],
{
    let mut v = new_tokens();
    push_ident(&mut v, receiver);
    push_punct(&mut v, '.', Spacing::Alone);
    push_ident(&mut v, method);
    push_group(&mut v, Delimiter::Parenthesis, to_plains(&input.tokens));
    assert(tokens_view(v@) =~= seq![
        ident(receiver@),
        alone('.'),
        ident(method@),
        TokenView::Group(Delimiter::Parenthesis, plains(stream_view(*input).tokens)),
    ]);
    v
}

/// `spawn!(x)` in a system: `commands.spawn(x)`.
pub fn internal_spawn(input: &SourceStream) -> (r: Vec<Token>)
    ensures
        tokens_view(r@) == seq![
            ident("commands"@),
            alone('.'),
            ident("spawn"@),
            TokenView::Group(Delimiter::Parenthesis, plains(stream_view(*input).tokens)),
        ],
{
    method_call("commands", "spawn", input)
}

/// `load!(x)` in a system: `assets.load(x)`.
pub fn internal_load(input: &SourceStream) -> (r: Vec<Token>)
    ensures
        tokens_view(r@) == seq![
            ident("assets"@),
            alone('.'),
            ident("load"@),
            TokenView::Group(Delimiter::Parenthesis, plains(stream_view(*input).tokens)),
        ],
{
    method_call("assets", "load", input)
}

/// `time!()` in a system: `time`.
pub fn internal_time(input: &SourceStream) -> (r: Vec<Token>)
    ensures
        tokens_view(r@) == seq![ident("time"@)],
{
    let mut v = new_tokens();
    push_ident(&mut v, "time");
    assert(tokens_view(v@) =~= seq![ident("time"@)]);
    v
}

/// `delta_seconds!()` and `delta_time!()` in a system:
/// `(time.delta_seconds())`.
pub fn internal_delta_seconds(input: &SourceStream) -> (r: Vec<Token>)
    ensures
        tokens_view(r@) == seq![
            TokenView::Group(
                Delimiter::Parenthesis,
                seq![ident("time"@), alone('.'), ident("delta_seconds"@), empty_parens()],
            ),
        ],
{
    let mut inner = new_tokens();
    push_ident(&mut inner, "time");
    push_punct(&mut inner, '.', Spacing::Alone);
    push_ident(&mut inner, "delta_seconds");
    push_group(&mut inner, Delimiter::Parenthesis, new_tokens());
    let ghost iv = tokens_view(inner@);
    assert(iv =~= seq![ident("time"@), alone('.'), ident("delta_seconds"@), empty_parens()]);
    let mut v = new_tokens();
    push_group(&mut v, Delimiter::Parenthesis, inner);
    assert(tokens_view(v@) =~= seq![TokenView::Group(Delimiter::Parenthesis, iv)]);
    v
}

/// `name: todo!()`, the field of a placeholder struct literal.
pub open spec fn todo_field(name: Seq<char>) -> Seq<TokenView> {
    seq![ident(name), alone(':'), ident("todo"@), alone('!'), empty_parens(), alone(',')]
}

fn push_todo_field(v: &mut Vec<Token>, name: &str)
    ensures
        tokens_view(final(v)@) == tokens_view(old(v)@) + todo_field(name@),
{
    push_ident(v, name);
    push_punct(v, ':', Spacing::Alone);
    push_ident(v, "todo");
    push_punct(v, '!', Spacing::Alone);
    push_group(v, Delimiter::Parenthesis, new_tokens());
    push_punct(v, ',', Spacing::Alone);
    assert(tokens_view(v@) =~= tokens_view(old(v)@) + todo_field(name@));
}

pub open spec fn spawn_spec() -> Seq<TokenView> {
    seq![ident("bevy"@)] + path_sep() + seq![ident("ecs"@)] + path_sep() + seq![ident("system"@)]
        + path_sep() + seq![
        ident("EntityCommands"@),
        TokenView::Group(Delimiter::Brace, todo_field("entity"@) + todo_field("commands"@)),
    ]
}

/// `spawn!(x)` while a body is written: a placeholder `EntityCommands`, so
/// that the editor knows the type.
pub fn spawn(input: &SourceStream) -> (r: Vec<Token>)
    ensures
        tokens_view(r@) == spawn_spec(),
{
    let mut fields = new_tokens();
    push_todo_field(&mut fields, "entity");
    push_todo_field(&mut fields, "commands");
    let ghost fv = tokens_view(fields@);
    assert(fv =~= todo_field("entity"@) + todo_field("commands"@));
    let mut v = new_tokens();
    push_ident(&mut v, "bevy");
    push_path_sep(&mut v);
    push_ident(&mut v, "ecs");
    push_path_sep(&mut v);
    push_ident(&mut v, "system");
    push_path_sep(&mut v);
    push_ident(&mut v, "EntityCommands");
    push_group(&mut v, Delimiter::Brace, fields);
    assert(tokens_view(v@) =~= spawn_spec());
    v
}

pub open spec fn load_spec() -> Seq<TokenView> {
    seq![
        ident("Handle"@),
        TokenView::Group(
            Delimiter::Brace,
            todo_field("id"@) + todo_field("handle_type"@) + seq![
                ident("marker"@),
                alone(':'),
                ident("std"@),
            ] + path_sep() + seq![ident("marker"@)] + path_sep() + seq![
                ident("PhantomData"@),
                alone(','),
            ],
        ),
    ]
}

/// `load!(x)` while a body is written: a placeholder `Handle`.
pub fn load(input: &SourceStream) -> (r: Vec<Token>)
    ensures
        tokens_view(r@) == load_spec(),
{
    let mut fields = new_tokens();
    push_todo_field(&mut fields, "id");
    push_todo_field(&mut fields, "handle_type");
    push_ident(&mut fields, "marker");
    push_punct(&mut fields, ':', Spacing::Alone);
    push_ident(&mut fields, "std");
    push_path_sep(&mut fields);
    push_ident(&mut fields, "marker");
    push_path_sep(&mut fields);
    push_ident(&mut fields, "PhantomData");
    push_punct(&mut fields, ',', Spacing::Alone);
    let ghost fv = tokens_view(fields@);
    assert(fv =~= todo_field("id"@) + todo_field("handle_type"@) + seq![
        ident("marker"@),
        alone(':'),
        ident("std"@),
    ] + path_sep() + seq![ident("marker"@)] + path_sep() + seq![
        ident("PhantomData"@),
        alone(','),
    ]);
    let mut v = new_tokens();
    push_ident(&mut v, "Handle");
    push_group(&mut v, Delimiter::Brace, fields);
    assert(tokens_view(v@) =~= load_spec());
    v
}

/// `bevy::prelude::<ty>::default()`
pub open spec fn prelude_default(ty: Seq<char>) -> Seq<TokenView> {
    seq![ident("bevy"@)] + path_sep() + seq![ident("prelude"@)] + path_sep() + seq![ident(ty)]
        + path_sep() + seq![ident("default"@), empty_parens()]
}

fn prelude_default_tokens(ty: &str) -> (r: Vec<Token>)
    ensures
        tokens_view(r@) == prelude_default(ty@),
{
    let mut v = new_tokens();
    push_ident(&mut v, "bevy");
    push_path_sep(&mut v);
    push_ident(&mut v, "prelude");
    push_path_sep(&mut v);
    push_ident(&mut v, ty);
    push_path_sep(&mut v);
    push_ident(&mut v, "default");
    push_group(&mut v, Delimiter::Parenthesis, new_tokens());
    assert(tokens_view(v@) =~= prelude_default(ty@));
    v
}

/// `time!()` while a body is written: `bevy::prelude::Time::default()`.
pub fn time(input: &SourceStream) -> (r: Vec<Token>)
    ensures
        tokens_view(r@) == prelude_default("Time"@),
{
    prelude_default_tokens("Time")
}

/// `windows!()` while a body is written:
/// `bevy::prelude::Windows::default()`.
pub fn windows(input: &SourceStream) -> (r: Vec<Token>)
    ensures
        tokens_view(r@) == prelude_default("Windows"@),
{
    prelude_default_tokens("Windows")
}

/// `delta_seconds!()` while a body is written: `(0.0)`.
pub fn delta_seconds(input: &SourceStream) -> (r: Vec<Token>)
    ensures
        tokens_view(r@) == seq![
            TokenView::Group(Delimiter::Parenthesis, seq![TokenView::Literal("0.0"@)]),
        ],
{
    let mut inner = new_tokens();
    push_literal(&mut inner, "0.0");
    let ghost iv = tokens_view(inner@);
    assert(iv =~= seq![TokenView::Literal("0.0"@)]);
    let mut v = new_tokens();
    push_group(&mut v, Delimiter::Parenthesis, inner);
    assert(tokens_view(v@) =~= seq![TokenView::Group(Delimiter::Parenthesis, iv)]);
    v
}

/// `delta_time!()` while a body is written: `0.0`.
pub fn delta_time(input: &SourceStream) -> (r: Vec<Token>)
    ensures
        tokens_view(r@) == seq![TokenView::Literal("0.0"@)],
{
    let mut v = new_tokens();
    push_literal(&mut v, "0.0");
    assert(tokens_view(v@) =~= seq![TokenView::Literal("0.0"@)]);
    v
}

/// `windows!()` in a system: `windows`.
pub fn internal_windows(input: &SourceStream) -> (r: Vec<Token>)
    ensures
        tokens_view(r@) == seq![ident("windows"@)],
{
    let mut v = new_tokens();
    push_ident(&mut v, "windows");
    assert(tokens_view(v@) =~= seq![ident("windows"@)]);
    v
}

/// Whether a resource macro's input opens with `mut`, and the resource's
/// name: the text after the `mut`, or the whole text.
pub open spec fn mut_and_name(s: SourceStreamView) -> (bool, Seq<char>) {
    if spec_is_mut(s.tokens[0]) {
        (true, s.tail_text)
    } else {
        (false, s.text)
    }
}

/// Can `res!` and `resource!` stand for this input while a body is
/// written: does it hold a tree, and is the resource's name an identifier?
pub fn resource_input_ok(input: &SourceStream) -> (r: bool)
    ensures
        r == (input.tokens.len() > 0 && is_ident(mut_and_name(stream_view(*input)).1)),
{
    if input.tokens.len() == 0 {
        return false;
    }
    let (_, name) = is_mut_and_get_name(input);
    is_identifier(name.as_str())
}

/// Can `internal_resource!` stand for this input: does it hold a tree, and
/// is the name of the resource's parameter an identifier?
pub fn internal_resource_input_ok(input: &SourceStream) -> (r: bool)
    ensures
        r == (input.tokens.len() > 0 && is_ident(internal_resource_name(stream_view(*input)))),
{
    if input.tokens.len() == 0 {
        return false;
    }
    let (_, name) = is_mut_and_get_name(input);
    let id = resource_param_name(&to_lowercase(name.as_str()));
    assert(id@ =~= internal_resource_name(stream_view(*input)));
    is_identifier(id.as_str())
}

/// Splits a resource macro's input into its `mut` marker and its name.
pub fn is_mut_and_get_name(s: &SourceStream) -> (r: (bool, String))
    requires
        s.tokens.len() > 0,
    ensures
        (r.0, r.1@) == mut_and_name(stream_view(*s)),
{
    proof {
        lemma_sources_view_index(s.tokens@);
    }
    if crate::token::is_mut(&s.tokens[0]) {
        (true, s.tail_text.clone())
    } else {
        (false, s.text.clone())
    }
}

/// `res!(X)` while a body is written: `X::default()`.
pub fn resource(input: &SourceStream) -> (r: Vec<Token>)
    requires
        input.tokens.len() > 0,
        is_ident(mut_and_name(stream_view(*input)).1),
    ensures
        tokens_view(r@) == seq![ident(mut_and_name(stream_view(*input)).1)] + path_sep() + seq![
            ident("default"@),
            empty_parens(),
        ],
{
    let (_, name) = is_mut_and_get_name(input);
    let mut v = new_tokens();
    push_ident_string(&mut v, name);
    push_path_sep(&mut v);
    push_ident(&mut v, "default");
    push_group(&mut v, Delimiter::Parenthesis, new_tokens());
    assert(tokens_view(v@) =~= seq![ident(mut_and_name(stream_view(*input)).1)] + path_sep()
        + seq![ident("default"@), empty_parens()]);
    v
}

/// The same as `resource`.
pub fn res(input: &SourceStream) -> (r: Vec<Token>)
    requires
        input.tokens.len() > 0,
        is_ident(mut_and_name(stream_view(*input)).1),
    ensures
        tokens_view(r@) == seq![ident(mut_and_name(stream_view(*input)).1)] + path_sep() + seq![
            ident("default"@),
            empty_parens(),
        ],
{
    resource(input)
}

/// The name of the parameter that `res!` refers to in a system:
/// `resource_` and the name lower-cased, whether the resource is borrowed
/// mutably or not.
pub open spec fn internal_resource_name(s: SourceStreamView) -> Seq<char> {
    "resource_"@ + unicode_lowercase(mut_and_name(s).1)
}

/// `res!(X)` and `res!(mut X)` in a system: the parameter that holds the
/// resource.
pub fn internal_resource(input: &SourceStream) -> (r: Vec<Token>)
    requires
        input.tokens.len() > 0,
        is_ident(internal_resource_name(stream_view(*input))),
    ensures
        tokens_view(r@) == seq![ident(internal_resource_name(stream_view(*input)))],
{
    let (_, name) = is_mut_and_get_name(input);
    let id = resource_param_name(&to_lowercase(name.as_str()));
    let mut v = new_tokens();
    push_ident_string(&mut v, id);
    assert(tokens_view(v@) =~= seq![ident(internal_resource_name(stream_view(*input)))]);
    v
}

/// The trees inside a group; none for any other tree.
pub open spec fn args_spec(body: SourceTokenView) -> Seq<TokenView> {
    match body {
        SourceTokenView::Group(_, s) => plains(s.tokens),
        _ => Seq::empty(),
    }
}

/// The trees inside a group, or none.
pub fn args(body: &SourceToken) -> (r: Vec<Token>)
    ensures
        tokens_view(r@) == args_spec(source_view(*body)),
{
    match body {
        SourceToken::Group(_, e) => to_plains(&e.tokens),
        _ => new_tokens(),
    }
}

/// One argument tree after the rewrite: a bare `Commands` becomes
/// `mut commands: Commands`.
pub open spec fn transformed_arg(t: TokenView) -> Seq<TokenView> {
    if t == ident("Commands"@) {
        seq![ident("mut"@), ident("commands"@), alone(':'), ident("Commands"@)]
    } else {
        seq![t]
    }
}

pub open spec fn transformed_args(ts: Seq<TokenView>) -> Seq<TokenView>
    decreases ts.len(),
{
    if ts.len() == 0 {
        Seq::empty()
    } else {
        transformed_args(ts.drop_last()) + transformed_arg(ts.last())
    }
}

/// The argument list of a system with each bare `Commands` turned into
/// `mut commands: Commands`.
pub fn transform_args(body: &SourceToken) -> (r: Vec<Token>)
    ensures
        tokens_view(r@) == transformed_args(args_spec(source_view(*body))),
{
    let items = args(body);
    let ghost iv = tokens_view(items@);
    proof {
        lemma_tokens_view_index(items@);
    }
    let mut out = new_tokens();
    let mut items = items;
    let mut i: usize = 0;
    let n = items.len();
    assert(iv.take(0) =~= Seq::<TokenView>::empty());
    while i < n
        invariant
            n == iv.len(),
            i <= n,
            items@.len() == n - i,
            forall|j: int| 0 <= j < n - i ==> #[trigger] token_view(items@[j]) == iv[j + i],
            tokens_view(out@) == transformed_args(iv.take(i as int)),
        decreases n - i,
    {
        let t = items.remove(0);
        assert(token_view(t) == iv[i as int]);
        let is_commands = match &t {
            Token::Ident(e) => crate::text::str_eq(e.as_str(), "Commands"),
            _ => false,
        };
        assert(is_commands == (iv[i as int] == ident("Commands"@)));
        let ghost before = tokens_view(out@);
        if is_commands {
            push_ident(&mut out, "mut");
            push_ident(&mut out, "commands");
            push_punct(&mut out, ':', Spacing::Alone);
            push_ident(&mut out, "Commands");
        } else {
            push_tree(&mut out, t);
        }
        assert(iv.take(i + 1).drop_last() =~= iv.take(i as int));
        assert(tokens_view(out@) =~= before + transformed_arg(iv[i as int]));
        i = i + 1;
    }
    assert(iv.take(n as int) =~= iv);
    out
}

/// `pub fn name (args) body`
pub open spec fn auto_sys_spec(ts: Seq<SourceTokenView>) -> Seq<TokenView> {
    seq![
        ident("pub"@),
        ident("fn"@),
        plain(ts[0]),
        TokenView::Group(Delimiter::Parenthesis, transformed_args(args_spec(ts[1]))),
        plain(ts[2]),
    ]
}

/// The `auto_sys!` macro: the function item `pub fn name(args) body` with
/// each bare `Commands` in the arguments turned into
/// `mut commands: Commands`.
pub fn auto_sys(input: &SourceStream) -> (r: Vec<Token>)
    requires
        input.tokens.len() >= 3,
    ensures
        tokens_view(r@) == auto_sys_spec(stream_view(*input).tokens),
{
    proof {
        lemma_sources_view_index(input.tokens@);
    }
    let arg_stream = transform_args(&input.tokens[1]);
    let mut v = new_tokens();
    push_ident(&mut v, "pub");
    push_ident(&mut v, "fn");
    push_tree(&mut v, to_plain(&input.tokens[0]));
    push_group(&mut v, Delimiter::Parenthesis, arg_stream);
    push_tree(&mut v, to_plain(&input.tokens[2]));
    assert(tokens_view(v@) =~= auto_sys_spec(stream_view(*input).tokens));
    v
}

/// The position of the first tree after the leading `pub` and `fn` words.
pub open spec fn after_identity(ts: Seq<SourceTokenView>, i: int) -> int
    decreases ts.len() - i,
{
    if 0 <= i < ts.len() && spec_part_of_function_identity(ts[i]) {
        after_identity(ts, i + 1)
    } else {
        i
    }
}

/// The function item that `#[auto_system]` reads can be rewritten: after
/// the leading `pub` and `fn` there are a name, an argument list and a body,
/// the body's shorthand macros are complete, and every query it makes can
/// be given a parameter.
pub open spec fn auto_system_accepts(ts: Seq<SourceTokenView>) -> bool {
    let k = after_identity(ts, 0);
    &&& k + 3 <= ts.len()
    &&& scan_body(ts[k + 2]) is Some
    &&& flags_buildable(scan_body(ts[k + 2]).unwrap().0)
}

/// `pub fn name(params) { body }` with the parameters that the body's
/// shorthand macros ask for and the body's macros renamed.
pub open spec fn auto_system_spec(ts: Seq<SourceTokenView>) -> Seq<TokenView> {
    let k = after_identity(ts, 0);
    let scanned = scan_body(ts[k + 2]).unwrap();
    seq![
        ident("pub"@),
        ident("fn"@),
        plain(ts[k]),
        TokenView::Group(Delimiter::Parenthesis, build_spec(scanned.0)),
        TokenView::Group(Delimiter::Brace, scanned.1),
    ]
}

fn skip_identity(ts: &Vec<SourceToken>) -> (k: usize)
    ensures
        k == after_identity(sources_view(ts@), 0),
        k <= ts.len(),
{
    let ghost tv = sources_view(ts@);
    proof {
        lemma_sources_view_index(ts@);
    }
    let mut k: usize = 0;
    while k < ts.len() && part_of_function_identity(&ts[k])
        invariant
            k <= ts.len(),
            tv == sources_view(ts@),
            tv.len() == ts.len(),
            forall|j: int| 0 <= j < ts.len() ==> #[trigger] tv[j] == source_view(ts@[j]),
            after_identity(tv, 0) == after_identity(tv, k as int),
        decreases ts.len() - k,
    {
        k = k + 1;
    }
    k
}

/// Can `#[auto_system]` rewrite this item?
pub fn auto_system_ok(input: &SourceStream) -> (r: bool)
    ensures
        r == auto_system_accepts(stream_view(*input).tokens),
{
    let ts = &input.tokens;
    proof {
        lemma_sources_view_index(ts@);
    }
    let k = skip_identity(ts);
    if k >= ts.len() || ts.len() - k < 3 {
        return false;
    }
    let body = &ts[k + 2];
    if !macro_calls_complete(body) {
        return false;
    }
    let (flags, _) = token_return_flags(body);
    flags_can_build(&flags)
}

fn resources_ok(rs: &Vec<String>) -> (r: bool)
    ensures
        r == forall|i: int|
            0 <= i < rs@.len() ==> #[trigger] crate::params::resource_buildable(rs@[i]@),
{
    let mut i: usize = 0;
    while i < rs.len()
        invariant
            i <= rs.len(),
            forall|j: int| 0 <= j < i ==> #[trigger] crate::params::resource_buildable(rs@[j]@),
        decreases rs.len() - i,
    {
        if !crate::params::resource_name_ok(&rs[i]) {
            return false;
        }
        i = i + 1;
    }
    true
}

/// Can every query and every resource of `flags` be given a parameter?
pub fn flags_can_build(flags: &Flags) -> (r: bool)
    ensures
        r == flags_buildable(flags@),
{
    let mut i: usize = 0;
    while i < flags.queries.len()
        invariant
            i <= flags.queries.len(),
            forall|j: int| 0 <= j < i ==> #[trigger] crate::params::query_buildable(
                flags@.queries[j],
            ),
        decreases flags.queries.len() - i,
    {
        let q = &flags.queries[i];
        assert(flags@.queries[i as int] == (q.0@, q.1@));
        if !query_text_ok(&q.0) {
            assert(!crate::params::query_buildable(flags@.queries[i as int]));
            return false;
        }
        match SystemQuery::parse(&q.0) {
            None => {
                assert(!crate::params::query_buildable(flags@.queries[i as int]));
                return false;
            },
            Some(parsed) => {
                match &q.1 {
                    crate::flags::ForloopContext::Mutable(m) => {
                        if parsed.params.len() > m.len() {
                            assert(!crate::params::query_buildable(flags@.queries[i as int]));
                            return false;
                        }
                    },
                    _ => {},
                }
            },
        }
        i = i + 1;
    }
    let a = resources_ok(&flags.custom_resources);
    let b = resources_ok(&flags.custom_resources_mut);
    proof {
        assert forall|j: int| 0 <= j < flags@.custom_resources.len() implies (
        flags@.custom_resources[j] == flags.custom_resources@[j]@) by {}
        assert forall|j: int| 0 <= j < flags@.custom_resources_mut.len() implies (
        flags@.custom_resources_mut[j] == flags.custom_resources_mut@[j]@) by {}
        if !a {
            let j = choose|j: int|
                0 <= j < flags.custom_resources@.len() && !crate::params::resource_buildable(
                    #[trigger] flags.custom_resources@[j]@,
                );
            assert(!crate::params::resource_buildable(flags@.custom_resources[j]));
        }
        if !b {
            let j = choose|j: int|
                0 <= j < flags.custom_resources_mut@.len() && !crate::params::resource_buildable(
                    #[trigger] flags.custom_resources_mut@[j]@,
                );
            assert(!crate::params::resource_buildable(flags@.custom_resources_mut[j]));
        }
    }
    a && b
}

/// The `#[auto_system]` attribute: the function item with the parameters
/// that its body's shorthand macros ask for, and the body with those macros
/// renamed to the ones that expand them inside the system.
pub fn auto_system(input: &SourceStream) -> (r: Vec<Token>)
    requires
        auto_system_accepts(stream_view(*input).tokens),
    ensures
        tokens_view(r@) == auto_system_spec(stream_view(*input).tokens),
{
    let ts = &input.tokens;
    proof {
        lemma_sources_view_index(ts@);
    }
    let k = skip_identity(ts);
    let name = to_plain(&ts[k]);
    let body = &ts[k + 2];
    let (flags, transformed_body) = token_return_flags(body);
    let param = flags.build();
    let mut v = new_tokens();
    push_ident(&mut v, "pub");
    push_ident(&mut v, "fn");
    push_tree(&mut v, name);
    push_group(&mut v, Delimiter::Parenthesis, param);
    push_group(&mut v, Delimiter::Brace, transformed_body);
    assert(tokens_view(v@) =~= auto_system_spec(stream_view(*input).tokens));
    v
}

/// `query!` where the input allows it: `None` where the query text does not
/// parse or a name it makes is not an identifier.
pub fn try_query(input: &SourceStream) -> (r: Option<Vec<Token>>)
    ensures
        r is Some <==> query_macro_accepts(input.text@),
        r matches Some(v) ==> tokens_view(v@) == query_spec(input.text@),
{
    if query_input_ok(input) {
        Some(query(input))
    } else {
        None
    }
}

/// Is the name of the query's parameter an identifier?
fn query_name_ok(input: &SourceStream) -> (r: bool)
    ensures
        r == is_ident(query_name(input.text@)),
{
    let name = query_ident_name(&input.text);
    is_identifier(name.as_str())
}

/// `internal_untyped_query!` where the name of the query's parameter is an
/// identifier, `None` otherwise.
pub fn try_internal_untyped_query(input: &SourceStream) -> (r: Option<Vec<Token>>)
    ensures
        r is Some <==> is_ident(query_name(input.text@)),
        r matches Some(v) ==> tokens_view(v@) == query_expansion(LoopView::NoLoop, input.text@),
{
    if query_name_ok(input) {
        Some(internal_untyped_query(input))
    } else {
        None
    }
}

/// `internal_query!` where the name of the query's parameter is an
/// identifier, `None` otherwise.
pub fn try_internal_query(input: &SourceStream) -> (r: Option<Vec<Token>>)
    ensures
        r is Some <==> is_ident(query_name(input.text@)),
        r matches Some(v) ==> tokens_view(v@) == query_expansion(LoopView::Std, input.text@),
{
    if query_name_ok(input) {
        Some(internal_query(input))
    } else {
        None
    }
}

/// `internal_mut_query!` where the name of the query's parameter is an
/// identifier, `None` otherwise.
pub fn try_internal_mut_query(input: &SourceStream) -> (r: Option<Vec<Token>>)
    ensures
        r is Some <==> is_ident(query_name(input.text@)),
        r matches Some(v) ==> tokens_view(v@) == query_expansion(
            LoopView::Mutable(Seq::empty()),
            input.text@,
        ),
{
    if query_name_ok(input) {
        Some(internal_mut_query(input))
    } else {
        None
    }
}

/// `res!` and `resource!` while a body is written, where the input holds a
/// tree and names the resource by an identifier; `None` otherwise.
pub fn try_resource(input: &SourceStream) -> (r: Option<Vec<Token>>)
    ensures
        r is Some <==> (input.tokens.len() > 0 && is_ident(mut_and_name(stream_view(*input)).1)),
        r matches Some(v) ==> tokens_view(v@) == seq![ident(mut_and_name(stream_view(*input)).1)]
            + path_sep() + seq![ident("default"@), empty_parens()],
{
    if resource_input_ok(input) {
        Some(resource(input))
    } else {
        None
    }
}

/// The same as `try_resource`.
pub fn try_res(input: &SourceStream) -> (r: Option<Vec<Token>>)
    ensures
        r is Some <==> (input.tokens.len() > 0 && is_ident(mut_and_name(stream_view(*input)).1)),
        r matches Some(v) ==> tokens_view(v@) == seq![ident(mut_and_name(stream_view(*input)).1)]
            + path_sep() + seq![ident("default"@), empty_parens()],
{
    try_resource(input)
}

/// `internal_resource!` where the input holds a tree and the name of the
/// resource's parameter is an identifier; `None` otherwise.
pub fn try_internal_resource(input: &SourceStream) -> (r: Option<Vec<Token>>)
    ensures
        r is Some <==> (input.tokens.len() > 0 && is_ident(
            internal_resource_name(stream_view(*input)),
        )),
        r matches Some(v) ==> tokens_view(v@) == seq![
            ident(internal_resource_name(stream_view(*input))),
        ],
{
    if internal_resource_input_ok(input) {
        Some(internal_resource(input))
    } else {
        None
    }
}

/// `#[auto_system]` where it can rewrite the item, `None` where it cannot:
/// the item is cut short, a shorthand macro in the body lacks its group, or
/// a query or resource cannot be given a parameter.
pub fn try_auto_system(input: &SourceStream) -> (r: Option<Vec<Token>>)
    ensures
        r is Some <==> auto_system_accepts(stream_view(*input).tokens),
        r matches Some(v) ==> tokens_view(v@) == auto_system_spec(stream_view(*input).tokens),
{
    if auto_system_ok(input) {
        Some(auto_system(input))
    } else {
        None
    }
}

} // verus!
