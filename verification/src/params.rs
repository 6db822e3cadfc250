//! The parameter list that a system's flags call for.
use vstd::prelude::*;

use crate::flags::{Flags, FlagsView, ForloopContext, LoopView};
use crate::ident::{is_ident, is_identifier};
use crate::query_text::{SystemQuery, parse_query, query_accepted, query_name, query_to_ident};
use crate::text::{append_str, strings_view, to_lowercase, unicode_lowercase};
use crate::token::{
    Delimiter,
    Spacing,
    Token,
    TokenView,
    alone,
    extend,
    push_group,
    push_ident,
    push_ident_string,
    push_punct,
    tokens_view,
    token_view,
};

verus! {

/// The pieces joined together, with `sep` between each two of them.
pub open spec fn sep_join(items: Seq<Seq<TokenView>>, sep: TokenView) -> Seq<TokenView>
    decreases items.len(),
{
    if items.len() == 0 {
        Seq::empty()
    } else if items.len() == 1 {
        items[0]
    } else {
        sep_join(items.drop_last(), sep).push(sep) + items.last()
    }
}

pub proof fn lemma_sep_join_push(items: Seq<Seq<TokenView>>, sep: TokenView, s: Seq<TokenView>)
    ensures
        sep_join(items.push(s), sep) == if items.len() == 0 {
            s
        } else {
            sep_join(items, sep).push(sep) + s
        },
{
    assert(items.push(s).drop_last() =~= items);
    if items.len() == 0 {
        assert(items.push(s)[0] == s);
    }
}

/// `mut commands: Commands`
pub open spec fn commands_param() -> Seq<TokenView> {
    seq![
        TokenView::Ident("mut"@),
        TokenView::Ident("commands"@),
        alone(':'),
        TokenView::Ident("Commands"@),
    ]
}

/// `name: Res<ty>`
pub open spec fn res_param(name: Seq<char>, ty: Seq<char>) -> Seq<TokenView> {
    seq![
        TokenView::Ident(name),
        alone(':'),
        TokenView::Ident("Res"@),
        alone('<'),
        TokenView::Ident(ty),
        alone('>'),
    ]
}

/// `resource_<name>: Res<name>`, the name lower-cased.
pub open spec fn resource_param(e: Seq<char>) -> Seq<TokenView> {
    res_param("resource_"@ + unicode_lowercase(e), e)
}

/// `mut resource_<name>: ResMut<name>`, the name lower-cased.
pub open spec fn resource_mut_param(e: Seq<char>) -> Seq<TokenView> {
    seq![
        TokenView::Ident("mut"@),
        TokenView::Ident("resource_"@ + unicode_lowercase(e)),
        alone(':'),
        TokenView::Ident("ResMut"@),
        alone('<'),
        TokenView::Ident(e),
        alone('>'),
    ]
}

/// `&C`, or `&mut C` where the loop pattern marks element `index` as `mut`.
pub open spec fn query_item(p: Seq<char>, ctx: LoopView, index: int) -> Seq<TokenView> {
    match ctx {
        LoopView::Mutable(m) => if m[index] {
            seq![alone('&'), TokenView::Ident("mut"@), TokenView::Ident(p)]
        } else {
            seq![alone('&'), TokenView::Ident(p)]
        },
        _ => seq![alone('&'), TokenView::Ident(p)],
    }
}

pub open spec fn query_items(params: Seq<Seq<char>>, ctx: LoopView) -> Seq<Seq<TokenView>> {
    Seq::new(params.len(), |i: int| query_item(params[i], ctx, i))
}

/// Nothing, `, With<F>`, or `, With<(F, G, ..)>`.
pub open spec fn with_filter(with: Seq<Seq<char>>) -> Seq<TokenView> {
    if with.len() == 0 {
        Seq::empty()
    } else if with.len() == 1 {
        seq![
            alone(','),
            TokenView::Ident("With"@),
            alone('<'),
            TokenView::Ident(with[0]),
            alone('>'),
        ]
    } else {
        seq![
            alone(','),
            TokenView::Ident("With"@),
            alone('<'),
            TokenView::Group(
                Delimiter::Parenthesis,
                sep_join(with.map_values(|w: Seq<char>| seq![TokenView::Ident(w)]), alone(',')),
            ),
            alone('>'),
        ]
    }
}

/// `[mut] query_..: Query<C, F>`, the components in a tuple where there are
/// two or more of them; `mut` where the query drives a loop with a `mut`
/// pattern.
pub open spec fn query_param(text: Seq<char>, ctx: LoopView) -> Seq<TokenView> {
    let parsed = parse_query(text).unwrap();
    let items = sep_join(query_items(parsed.0, ctx), alone(','));
    let inner = if parsed.0.len() > 1 {
        seq![TokenView::Group(Delimiter::Parenthesis, items)]
    } else {
        items
    };
    let head = if ctx is Mutable {
        seq![TokenView::Ident("mut"@)]
    } else {
        Seq::empty()
    };
    head + seq![
        TokenView::Ident(query_name(text)),
        alone(':'),
        TokenView::Ident("Query"@),
        alone('<'),
    ] + inner + with_filter(parsed.1) + seq![alone('>')]
}

pub open spec fn opt_stream(b: bool, s: Seq<TokenView>) -> Seq<Seq<TokenView>> {
    if b {
        seq![s]
    } else {
        Seq::empty()
    }
}

/// The parameters before the queries: commands, asset server, time,
/// windows, then the shared resources and the mutable ones, each group of
/// resources as one piece.
pub open spec fn fixed_streams(f: FlagsView) -> Seq<Seq<TokenView>> {
    opt_stream(f.mut_commands, commands_param()) + opt_stream(
        f.asset_server,
        res_param("assets"@, "AssetServer"@),
    ) + opt_stream(f.time, res_param("time"@, "Time"@)) + opt_stream(
        f.windows,
        res_param("windows"@, "Windows"@),
    ) + opt_stream(
        f.custom_resources.len() > 0,
        sep_join(f.custom_resources.map_values(|e: Seq<char>| resource_param(e)), alone(',')),
    ) + opt_stream(
        f.custom_resources_mut.len() > 0,
        sep_join(
            f.custom_resources_mut.map_values(|e: Seq<char>| resource_mut_param(e)),
            alone(','),
        ),
    )
}

/// All parameter pieces: the fixed ones, then one per query.
pub open spec fn param_streams(f: FlagsView) -> Seq<Seq<TokenView>> {
    fixed_streams(f) + f.queries.map_values(|q: (Seq<char>, LoopView)| query_param(q.0, q.1))
}

/// The query can be given a parameter, and a `mut`-marked loop pattern has
/// a marker for each component.
pub open spec fn query_buildable(q: (Seq<char>, LoopView)) -> bool {
    &&& query_accepted(q.0)
    &&& (q.1 matches LoopView::Mutable(m) ==> parse_query(q.0).unwrap().0.len() <= m.len())
}

/// A resource can be given a parameter: its name, and the parameter's name
/// made from it, are identifiers.
pub open spec fn resource_buildable(e: Seq<char>) -> bool {
    is_ident(e) && is_ident("resource_"@ + unicode_lowercase(e))
}

/// Every query and every resource of the flags can be given a parameter.
pub open spec fn flags_buildable(f: FlagsView) -> bool {
    &&& forall|i: int| 0 <= i < f.queries.len() ==> #[trigger] query_buildable(f.queries[i])
    &&& forall|i: int|
        0 <= i < f.custom_resources.len() ==> #[trigger] resource_buildable(f.custom_resources[i])
    &&& forall|i: int|
        0 <= i < f.custom_resources_mut.len() ==> #[trigger] resource_buildable(
            f.custom_resources_mut[i],
        )
}

/// Can the resource be given a parameter?
pub fn resource_name_ok(e: &String) -> (r: bool)
    ensures
        r == resource_buildable(e@),
{
    let nid = resource_param_name(&to_lowercase(e.as_str()));
    is_identifier(e.as_str()) && is_identifier(nid.as_str())
}

/// The parameter list: all pieces joined with joint commas.
pub open spec fn build_spec(f: FlagsView) -> Seq<TokenView> {
    sep_join(param_streams(f), TokenView::Punct(',', Spacing::Joint))
}

/// Adds a piece to a list of pieces joined with `sep`.
fn add_piece(
    out: &mut Vec<Token>,
    first: bool,
    piece: Vec<Token>,
    sep: char,
    spacing: Spacing,
    Ghost(done): Ghost<Seq<Seq<TokenView>>>,
)
    requires
        first == (done.len() == 0),
        tokens_view(old(out)@) == sep_join(done, TokenView::Punct(sep, spacing)),
    ensures
        tokens_view(final(out)@) == sep_join(done.push(tokens_view(piece@)), TokenView::Punct(sep, spacing)),
{
    proof {
        lemma_sep_join_push(done, TokenView::Punct(sep, spacing), tokens_view(piece@));
    }
    if !first {
        push_punct(out, sep, spacing);
    }
    let ghost mid = out@;
    extend(out, piece);
    if first {
        assert(tokens_view(mid) =~= Seq::<TokenView>::empty());
    }
}

fn commands_stream() -> (r: Vec<Token>)
    ensures
        tokens_view(r@) == commands_param(),
{
    let mut v: Vec<Token> = Vec::new();
    push_ident(&mut v, "mut");
    push_ident(&mut v, "commands");
    push_punct(&mut v, ':', Spacing::Alone);
    push_ident(&mut v, "Commands");
    assert(tokens_view(v@) =~= commands_param());
    v
}

fn res_stream(name: String, ty: String) -> (r: Vec<Token>)
    ensures
        tokens_view(r@) == res_param(name@, ty@),
{
    let mut v: Vec<Token> = Vec::new();
    push_ident_string(&mut v, name);
    push_punct(&mut v, ':', Spacing::Alone);
    push_ident(&mut v, "Res");
    push_punct(&mut v, '<', Spacing::Alone);
    push_ident_string(&mut v, ty);
    push_punct(&mut v, '>', Spacing::Alone);
    assert(tokens_view(v@) =~= res_param(name@, ty@));
    v
}

/// The name of the parameter that holds a resource, from the resource's
/// name once lower-cased: `resource_` in front of it.
pub fn resource_param_name(lowered: &String) -> (r: String)
    ensures
        r@ == "resource_"@ + lowered@,
{
    let mut nid = "resource_".to_string();
    append_str(&mut nid, lowered.as_str());
    nid
}

fn resources_stream(rs: &Vec<String>) -> (r: Vec<Token>)
    ensures
        tokens_view(r@) == sep_join(
            strings_view(rs@).map_values(|e: Seq<char>| resource_param(e)),
            alone(','),
        ),
{
    let ghost items = strings_view(rs@).map_values(|e: Seq<char>| resource_param(e));
    let mut out: Vec<Token> = Vec::new();
    let mut i: usize = 0;
    assert(items.take(0) =~= Seq::<Seq<TokenView>>::empty());
    while i < rs.len()
        invariant
            i <= rs.len(),
            items == strings_view(rs@).map_values(|e: Seq<char>| resource_param(e)),
            tokens_view(out@) == sep_join(items.take(i as int), alone(',')),
        decreases rs.len() - i,
    {
        let nid = resource_param_name(&to_lowercase(rs[i].as_str()));
        let piece = res_stream(nid, rs[i].clone());
        assert(items[i as int] == resource_param(rs@[i as int]@));
        add_piece(&mut out, i == 0, piece, ',', Spacing::Alone, Ghost(items.take(i as int)));
        assert(items.take(i as int).push(items[i as int]) =~= items.take(i + 1));
        i = i + 1;
    }
    assert(items.take(i as int) =~= items);
    out
}

fn resources_mut_stream(rs: &Vec<String>) -> (r: Vec<Token>)
    ensures
        tokens_view(r@) == sep_join(
            strings_view(rs@).map_values(|e: Seq<char>| resource_mut_param(e)),
            alone(','),
        ),
{
    let ghost items = strings_view(rs@).map_values(|e: Seq<char>| resource_mut_param(e));
    let mut out: Vec<Token> = Vec::new();
    let mut i: usize = 0;
    assert(items.take(0) =~= Seq::<Seq<TokenView>>::empty());
    while i < rs.len()
        invariant
            i <= rs.len(),
            items == strings_view(rs@).map_values(|e: Seq<char>| resource_mut_param(e)),
            tokens_view(out@) == sep_join(items.take(i as int), alone(',')),
        decreases rs.len() - i,
    {
        let nid = resource_param_name(&to_lowercase(rs[i].as_str()));
        let mut piece: Vec<Token> = Vec::new();
        push_ident(&mut piece, "mut");
        push_ident_string(&mut piece, nid);
        push_punct(&mut piece, ':', Spacing::Alone);
        push_ident(&mut piece, "ResMut");
        push_punct(&mut piece, '<', Spacing::Alone);
        push_ident_string(&mut piece, rs[i].clone());
        push_punct(&mut piece, '>', Spacing::Alone);
        assert(tokens_view(piece@) =~= resource_mut_param(rs@[i as int]@));
        assert(items[i as int] == resource_mut_param(rs@[i as int]@));
        add_piece(&mut out, i == 0, piece, ',', Spacing::Alone, Ghost(items.take(i as int)));
        assert(items.take(i as int).push(items[i as int]) =~= items.take(i + 1));
        i = i + 1;
    }
    assert(items.take(i as int) =~= items);
    out
}

/// `, With<..>` for the filters.
fn with_stream(with: &Vec<String>) -> (r: Vec<Token>)
    ensures
        tokens_view(r@) == with_filter(strings_view(with@)),
{
    let ghost ws = strings_view(with@);
    let mut v: Vec<Token> = Vec::new();
    if with.len() == 0 {
        assert(tokens_view(v@) =~= with_filter(ws));
        return v;
    }
    push_punct(&mut v, ',', Spacing::Alone);
    push_ident(&mut v, "With");
    push_punct(&mut v, '<', Spacing::Alone);
    if with.len() == 1 {
        push_ident_string(&mut v, with[0].clone());
    } else {
        let ghost items = ws.map_values(|w: Seq<char>| seq![TokenView::Ident(w)]);
        let mut inner: Vec<Token> = Vec::new();
        let mut i: usize = 0;
        assert(items.take(0) =~= Seq::<Seq<TokenView>>::empty());
        while i < with.len()
            invariant
                i <= with.len(),
                ws == strings_view(with@),
                items == ws.map_values(|w: Seq<char>| seq![TokenView::Ident(w)]),
                tokens_view(inner@) == sep_join(items.take(i as int), alone(',')),
            decreases with.len() - i,
        {
            let mut piece: Vec<Token> = Vec::new();
            push_ident_string(&mut piece, with[i].clone());
            assert(tokens_view(piece@) =~= items[i as int]);
            add_piece(&mut inner, i == 0, piece, ',', Spacing::Alone, Ghost(items.take(i as int)));
            assert(items.take(i as int).push(items[i as int]) =~= items.take(i + 1));
            i = i + 1;
        }
        assert(items.take(i as int) =~= items);
        push_group(&mut v, Delimiter::Parenthesis, inner);
    }
    push_punct(&mut v, '>', Spacing::Alone);
    assert(tokens_view(v@) =~= with_filter(ws));
    v
}

/// The element types of a query, `&C` or `&mut C` each, joined with commas.
fn query_items_stream(params: &Vec<String>, ctx: &ForloopContext) -> (r: Vec<Token>)
    requires
        ctx@ matches LoopView::Mutable(m) ==> params.len() <= m.len(),
    ensures
        tokens_view(r@) == sep_join(query_items(strings_view(params@), ctx@), alone(',')),
{
    let ghost items = query_items(strings_view(params@), ctx@);
    let mut out: Vec<Token> = Vec::new();
    let mut i: usize = 0;
    assert(items.take(0) =~= Seq::<Seq<TokenView>>::empty());
    while i < params.len()
        invariant
            i <= params.len(),
            ctx@ matches LoopView::Mutable(m) ==> params.len() <= m.len(),
            items == query_items(strings_view(params@), ctx@),
            items.len() == params.len(),
            tokens_view(out@) == sep_join(items.take(i as int), alone(',')),
        decreases params.len() - i,
    {
        let mut piece: Vec<Token> = Vec::new();
        push_punct(&mut piece, '&', Spacing::Alone);
        let marked = match ctx {
            ForloopContext::Mutable(m) => m[i],
            _ => false,
        };
        if marked {
            push_ident(&mut piece, "mut");
        }
        push_ident_string(&mut piece, params[i].clone());
        assert(tokens_view(piece@) =~= items[i as int]);
        add_piece(&mut out, i == 0, piece, ',', Spacing::Alone, Ghost(items.take(i as int)));
        assert(items.take(i as int).push(items[i as int]) =~= items.take(i + 1));
        i = i + 1;
    }
    assert(items.take(i as int) =~= items);
    out
}

/// The parameter that holds one query.
fn query_stream(text: &String, ctx: &ForloopContext) -> (r: Vec<Token>)
    requires
        query_buildable((text@, ctx@)),
    ensures
        tokens_view(r@) == query_param(text@, ctx@),
{
    let q = SystemQuery::new(text);
    let ident = query_to_ident(text);
    let items = query_items_stream(&q.params, ctx);
    let additional = with_stream(&q.with);
    let mut v: Vec<Token> = Vec::new();
    let mutable = match ctx {
        ForloopContext::Mutable(_) => true,
        _ => false,
    };
    if mutable {
        push_ident(&mut v, "mut");
    }
    let ghost head = tokens_view(v@);
    assert(head =~= (if ctx@ is Mutable {
        seq![TokenView::Ident("mut"@)]
    } else {
        Seq::<TokenView>::empty()
    }));
    let ghost ident_view = token_view(ident);
    match ident {
        Token::Ident(name) => push_ident_string(&mut v, name),
        _ => {
            assert(false);
        },
    }
    push_punct(&mut v, ':', Spacing::Alone);
    push_ident(&mut v, "Query");
    push_punct(&mut v, '<', Spacing::Alone);
    let ghost mid = tokens_view(v@);
    assert(mid =~= head + seq![
        TokenView::Ident(query_name(text@)),
        alone(':'),
        TokenView::Ident("Query"@),
        alone('<'),
    ]);
    if q.params.len() > 1 {
        push_group(&mut v, Delimiter::Parenthesis, items);
    } else {
        extend(&mut v, items);
    }
    extend(&mut v, additional);
    push_punct(&mut v, '>', Spacing::Alone);
    assert(tokens_view(v@) =~= query_param(text@, ctx@));
    v
}

impl Flags {
    /// The system's parameter list: `mut commands: Commands`,
    /// `assets: Res<AssetServer>`, `time: Res<Time>`, `windows: Res<Windows>`
    /// where asked for, then the resources, then one parameter per query,
    /// all joined with commas.
    #[verifier::rlimit(40)]
    pub fn build(&self) -> (r: Vec<Token>)
        requires
            flags_buildable(self@),
        ensures
            tokens_view(r@) == build_spec(self@),
    {
        let ghost f = self@;
        let ghost joint = TokenView::Punct(',', Spacing::Joint);
        let mut out: Vec<Token> = Vec::new();
        let mut any = false;
        let ghost mut done: Seq<Seq<TokenView>> = Seq::empty();
        if self.mut_commands {
            add_piece(&mut out, !any, commands_stream(), ',', Spacing::Joint, Ghost(done));
            proof {
                done = done.push(commands_param());
            }
            any = true;
        }
        assert(done =~= opt_stream(f.mut_commands, commands_param()));
        let ghost d1 = done;
        if self.asset_server {
            let s = res_stream("assets".to_string(), "AssetServer".to_string());
            add_piece(&mut out, !any, s, ',', Spacing::Joint, Ghost(done));
            proof {
                done = done.push(res_param("assets"@, "AssetServer"@));
            }
            any = true;
        }
        assert(done =~= d1 + opt_stream(f.asset_server, res_param("assets"@, "AssetServer"@)));
        let ghost d2 = done;
        if self.time {
            let s = res_stream("time".to_string(), "Time".to_string());
            add_piece(&mut out, !any, s, ',', Spacing::Joint, Ghost(done));
            proof {
                done = done.push(res_param("time"@, "Time"@));
            }
            any = true;
        }
        assert(done =~= d2 + opt_stream(f.time, res_param("time"@, "Time"@)));
        let ghost d3 = done;
        if self.windows {
            let s = res_stream("windows".to_string(), "Windows".to_string());
            add_piece(&mut out, !any, s, ',', Spacing::Joint, Ghost(done));
            proof {
                done = done.push(res_param("windows"@, "Windows"@));
            }
            any = true;
        }
        assert(done =~= d3 + opt_stream(f.windows, res_param("windows"@, "Windows"@)));
        let ghost d4 = done;
        if self.custom_resources.len() > 0 {
            let s = resources_stream(&self.custom_resources);
            let ghost sv = tokens_view(s@);
            add_piece(&mut out, !any, s, ',', Spacing::Joint, Ghost(done));
            proof {
                done = done.push(sv);
            }
            any = true;
        }
        assert(done =~= d4 + opt_stream(
            f.custom_resources.len() > 0,
            sep_join(f.custom_resources.map_values(|e: Seq<char>| resource_param(e)), alone(',')),
        ));
        let ghost d5 = done;
        if self.custom_resources_mut.len() > 0 {
            let s = resources_mut_stream(&self.custom_resources_mut);
            let ghost sv = tokens_view(s@);
            add_piece(&mut out, !any, s, ',', Spacing::Joint, Ghost(done));
            proof {
                done = done.push(sv);
            }
            any = true;
        }
        assert(done =~= d5 + opt_stream(
            f.custom_resources_mut.len() > 0,
            sep_join(
                f.custom_resources_mut.map_values(|e: Seq<char>| resource_mut_param(e)),
                alone(','),
            ),
        ));
        assert(done =~= fixed_streams(f));
        let ghost fixed = done;
        let ghost qs = f.queries.map_values(|q: (Seq<char>, LoopView)| query_param(q.0, q.1));
        let mut i: usize = 0;
        assert(qs.take(0) =~= Seq::<Seq<TokenView>>::empty());
        while i < self.queries.len()
            invariant
                i <= self.queries.len(),
                f == self@,
                joint == TokenView::Punct(',', Spacing::Joint),
                flags_buildable(f),
                any == (done.len() > 0),
                qs == f.queries.map_values(|q: (Seq<char>, LoopView)| query_param(q.0, q.1)),
                qs.len() == self.queries.len(),
                done == fixed + qs.take(i as int),
                tokens_view(out@) == sep_join(done, joint),
            decreases self.queries.len() - i,
        {
            assert(f.queries[i as int] == (self.queries@[i as int].0@, self.queries@[i as int].1@));
            assert(query_buildable(f.queries[i as int]));
            let s = query_stream(&self.queries[i].0, &self.queries[i].1);
            add_piece(&mut out, !any, s, ',', Spacing::Joint, Ghost(done));
            proof {
                done = done.push(qs[i as int]);
                assert(fixed + qs.take(i + 1) =~= (fixed + qs.take(i as int)).push(qs[i as int]));
            }
            any = true;
            i = i + 1;
        }
        assert(qs.take(i as int) =~= qs);
        out
    }

    /// `build` where every query and every resource can be given a
    /// parameter, `None` otherwise.
    pub fn try_build(&self) -> (r: Option<Vec<Token>>)
        ensures
            r is Some <==> flags_buildable(self@),
            r matches Some(v) ==> tokens_view(v@) == build_spec(self@),
    {
        if crate::macros::flags_can_build(self) {
            Some(self.build())
        } else {
            None
        }
    }
}

} // verus!
