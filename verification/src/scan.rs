//! Reading a system body: which shorthand macros it calls, what they ask
//! for, and the body with each shorthand renamed to the macro that expands
//! it.
use vstd::prelude::*;

use crate::flags::{
    Flags,
    FlagsView,
    ForloopContext,
    LoopView,
    add_unique,
    empty_flags,
    join_flags,
};
use crate::text::str_eq;
use crate::token::{
    push_tree,
    Delimiter,
    SourceToken,
    SourceTokenView,
    Spacing,
    Token,
    TokenView,
    alone,
    is_comma,
    is_exclamation_mark,
    is_mut,
    lemma_sources_view_index,
    plain,
    push_group,
    push_ident,
    push_ident_string,
    push_punct,
    source_view,
    sources_view,
    spec_is_comma,
    spec_is_exclamation_mark,
    spec_is_mut,
    to_plain,
    tokens_view,
    token_view,
};

verus! {

/// Whether the tree at position `i` opens an element of a comma-separated
/// pattern: it is not a comma and comes first or right after a comma.
pub open spec fn opens_element(ts: Seq<SourceTokenView>, i: int) -> bool {
    !spec_is_comma(ts[i]) && (i == 0 || spec_is_comma(ts[i - 1]))
}

/// One marker per element of a tuple pattern, in order: whether the element
/// opens with `mut`.
pub open spec fn element_markers(ts: Seq<SourceTokenView>) -> Seq<bool>
    decreases ts.len(),
{
    if ts.len() == 0 {
        Seq::empty()
    } else {
        let r = element_markers(ts.drop_last());
        if opens_element(ts, ts.len() - 1) {
            r.push(spec_is_mut(ts.last()))
        } else {
            r
        }
    }
}

/// The loop that a `for` followed by `next` opens: `Mutable` with the
/// markers of a tuple pattern of which an element opens with `mut`,
/// `Mutable` with one marker for `for mut x`, `Std` otherwise.
pub open spec fn for_context(next: SourceTokenView) -> LoopView {
    match next {
        SourceTokenView::Group(_, s) => {
            let m = element_markers(s.tokens);
            if m.contains(true) {
                LoopView::Mutable(m)
            } else {
                LoopView::Std
            }
        },
        SourceTokenView::Ident(name) => if name == "mut"@ {
            LoopView::Mutable(seq![true])
        } else {
            LoopView::Std
        },
        _ => LoopView::Std,
    }
}

/// The macro that a shorthand `name!` is renamed to, for the shorthands that
/// only set a flag.
pub open spec fn renamed_macro(name: Seq<char>) -> Option<Seq<char>> {
    if name == "spawn"@ {
        Some("internal_spawn"@)
    } else if name == "load"@ {
        Some("internal_load"@)
    } else if name == "time"@ {
        Some("internal_time"@)
    } else if name == "delta_seconds"@ || name == "delta_time"@ {
        Some("internal_delta_seconds"@)
    } else if name == "windows"@ {
        Some("internal_windows"@)
    } else {
        None
    }
}

/// The flag that such a shorthand sets.
pub open spec fn macro_flag(f: FlagsView, name: Seq<char>) -> FlagsView {
    if name == "spawn"@ {
        FlagsView { mut_commands: true, ..f }
    } else if name == "load"@ {
        FlagsView { asset_server: true, ..f }
    } else if name == "time"@ || name == "delta_seconds"@ || name == "delta_time"@ {
        FlagsView { time: true, ..f }
    } else if name == "windows"@ {
        FlagsView { windows: true, ..f }
    } else {
        f
    }
}

/// The macro that expands a `query!` in the given loop context.
pub open spec fn query_macro(ctx: LoopView) -> Seq<char> {
    match ctx {
        LoopView::NoLoop => "internal_untyped_query"@,
        LoopView::Std => "internal_query"@,
        LoopView::Mutable(_) => "internal_mut_query"@,
    }
}

/// What the scan has gathered so far: the loop context, whether an `in` has
/// been seen since the `for` (so that the next brace group is the loop's
/// body), the flags and the renamed trees.
pub struct ScanState {
    pub ctx: LoopView,
    pub after_in: bool,
    pub flags: FlagsView,
    pub out: Seq<TokenView>,
}

pub open spec fn initial_state() -> ScanState {
    ScanState { ctx: LoopView::NoLoop, after_in: false, flags: empty_flags(), out: Seq::empty() }
}

/// How many trees the scan moves past at position `i`: the two trees of
/// `res!` and `resource!` (their group is scanned next), the three of
/// `query!(..)`, one otherwise.
pub open spec fn scan_step(ts: Seq<SourceTokenView>, i: int) -> int {
    if i + 2 < ts.len() && ts[i] is Ident && spec_is_exclamation_mark(ts[i + 1]) {
        let name = ts[i]->Ident_0;
        if renamed_macro(name) is Some {
            1
        } else if name == "res"@ || name == "resource"@ {
            2
        } else if name == "query"@ {
            3
        } else {
            1
        }
    } else {
        1
    }
}

/// What the scan makes of the tree at position `i`, from state `st`; `None`
/// where a `res!` or `resource!` has no tree after it or an empty group, or
/// a `query!` has no tree after it.
///
/// A group is scanned on its own; its flags are joined to these and it is
/// emitted with its scanned trees; the first brace group after an `in` (the
/// loop's body) ends the loop context.  An identifier that no `!` follows is
/// emitted; a `for` sets the loop context from the tree after it, and an
/// `in` marks that the loop's body comes next.  A
/// shorthand macro that only sets a flag is renamed.  `res!(..)` and
/// `resource!(..)` ask for the resource named by the group (by mutable
/// reference where the group opens with `mut`) and become
/// `internal_resource!`.  `query!(..)` records the group's text with the
/// loop context, becomes the query macro of that context, keeps its group
/// as it is, and ends the loop context.
pub open spec fn scan_next(ts: Seq<SourceTokenView>, i: int, st: ScanState) -> Option<ScanState>
    recommends
        0 <= i < ts.len(),
    decreases ts, 0nat,
{
    if i < 0 || i >= ts.len() {
        Some(st)
    } else {
        match ts[i] {
            SourceTokenView::Group(d, s) => {
                proof {
                    assert(decreases_to!(ts => ts[i]));
                }
                match scan_tokens(s.tokens) {
                    Some(inner) => Some(
                        ScanState {
                            ctx: if d == Delimiter::Brace && st.after_in {
                                LoopView::NoLoop
                            } else {
                                st.ctx
                            },
                            after_in: st.after_in && d != Delimiter::Brace,
                            flags: join_flags(st.flags, inner.0),
                            out: st.out.push(TokenView::Group(d, inner.1)),
                        },
                    ),
                    None => None,
                }
            },
            SourceTokenView::Ident(name) => {
                if i + 1 >= ts.len() || !spec_is_exclamation_mark(ts[i + 1]) {
                    let out = st.out.push(TokenView::Ident(name));
                    if i + 1 < ts.len() && name == "for"@ {
                        Some(ScanState { ctx: for_context(ts[i + 1]), after_in: false, out: out, ..st })
                    } else if name == "in"@ {
                        Some(ScanState { after_in: true, out: out, ..st })
                    } else {
                        Some(ScanState { out: out, ..st })
                    }
                } else if renamed_macro(name) is Some {
                    Some(
                        ScanState {
                            flags: macro_flag(st.flags, name),
                            out: st.out.push(TokenView::Ident(renamed_macro(name)->0)),
                            ..st
                        },
                    )
                } else if name == "res"@ || name == "resource"@ {
                    if i + 2 >= ts.len() {
                        None
                    } else {
                        let out = st.out + seq![TokenView::Ident("internal_resource"@), alone('!')];
                        match ts[i + 2] {
                            SourceTokenView::Group(_, a) => {
                                if a.tokens.len() == 0 {
                                    None
                                } else if spec_is_mut(a.tokens[0]) {
                                    Some(
                                        ScanState {
                                            flags: FlagsView {
                                                custom_resources_mut: add_unique(
                                                    st.flags.custom_resources_mut,
                                                    a.tail_text,
                                                ),
                                                ..st.flags
                                            },
                                            out: out,
                                            ..st
                                        },
                                    )
                                } else {
                                    Some(
                                        ScanState {
                                            flags: FlagsView {
                                                custom_resources: add_unique(
                                                    st.flags.custom_resources,
                                                    a.text,
                                                ),
                                                ..st.flags
                                            },
                                            out: out,
                                            ..st
                                        },
                                    )
                                }
                            },
                            _ => Some(ScanState { out: out, ..st }),
                        }
                    }
                } else if name == "query"@ {
                    if i + 2 >= ts.len() {
                        None
                    } else {
                        match ts[i + 2] {
                            SourceTokenView::Group(_, h) => Some(
                                ScanState {
                                    ctx: LoopView::NoLoop,
                                    after_in: st.after_in,
                                    flags: FlagsView {
                                        queries: st.flags.queries.push((h.text, st.ctx)),
                                        ..st.flags
                                    },
                                    out: st.out + seq![
                                        TokenView::Ident(query_macro(st.ctx)),
                                        alone('!'),
                                        plain(ts[i + 2]),
                                    ],
                                },
                            ),
                            _ => Some(st),
                        }
                    }
                } else {
                    Some(ScanState { out: st.out.push(TokenView::Ident(name)), ..st })
                }
            },
            _ => Some(ScanState { out: st.out.push(plain(ts[i])), ..st }),
        }
    }
}

/// The scan of the trees `ts` from position `i` on, from state `st`: each
/// tree in turn, moving on by `scan_step`, `None` as soon as one tree fails.
pub open spec fn scan_run(ts: Seq<SourceTokenView>, i: int, st: ScanState) -> Option<ScanState>
    decreases ts, ts.len() - i + 1,
{
    if i < 0 || i >= ts.len() {
        Some(st)
    } else {
        match scan_next(ts, i, st) {
            Some(st2) => scan_run(ts, i + scan_step(ts, i), st2),
            None => None,
        }
    }
}

/// The flags and the renamed trees of a whole stream.
pub open spec fn scan_tokens(ts: Seq<SourceTokenView>) -> Option<(FlagsView, Seq<TokenView>)>
    decreases ts, ts.len() + 2,
{
    match scan_run(ts, 0, initial_state()) {
        Some(st) => Some((st.flags, st.out)),
        None => None,
    }
}

/// The scan of a body: that of its stream where it is a group, nothing
/// otherwise.
pub open spec fn scan_body(t: SourceTokenView) -> Option<(FlagsView, Seq<TokenView>)> {
    match t {
        SourceTokenView::Group(_, s) => scan_tokens(s.tokens),
        _ => Some((empty_flags(), Seq::empty())),
    }
}

fn markers(ts: &Vec<SourceToken>) -> (r: Vec<bool>)
    ensures
        r@ == element_markers(sources_view(ts@)),
{
    let ghost tv = sources_view(ts@);
    proof {
        lemma_sources_view_index(ts@);
    }
    let mut r: Vec<bool> = Vec::new();
    let mut i: usize = 0;
    assert(tv.take(0) =~= Seq::<SourceTokenView>::empty());
    while i < ts.len()
        invariant
            i <= ts.len(),
            tv == sources_view(ts@),
            tv.len() == ts.len(),
            forall|j: int| 0 <= j < ts.len() ==> #[trigger] tv[j] == source_view(ts@[j]),
            r@ == element_markers(tv.take(i as int)),
        decreases ts.len() - i,
    {
        let ghost pre = tv.take(i + 1);
        assert(pre.drop_last() =~= tv.take(i as int));
        assert(pre.last() == tv[i as int]);
        assert(i > 0 ==> pre[i - 1] == tv[i - 1]);
        let opens = !is_comma(&ts[i]) && (i == 0 || is_comma(&ts[i - 1]));
        assert(opens == opens_element(pre, i as int));
        if opens {
            r.push(is_mut(&ts[i]));
        }
        i = i + 1;
    }
    assert(tv.take(i as int) =~= tv);
    r
}

fn contains_true(m: &Vec<bool>) -> (r: bool)
    ensures
        r == m@.contains(true),
{
    let mut i: usize = 0;
    while i < m.len()
        invariant
            i <= m.len(),
            forall|j: int| 0 <= j < i ==> !m@[j],
        decreases m.len() - i,
    {
        if m[i] {
            return true;
        }
        i = i + 1;
    }
    false
}

fn loop_context(next: &SourceToken) -> (r: ForloopContext)
    ensures
        r@ == for_context(source_view(*next)),
{
    match next {
        SourceToken::Group(_, col) => {
            let m = markers(&col.tokens);
            if contains_true(&m) {
                ForloopContext::Mutable(m)
            } else {
                ForloopContext::Std
            }
        },
        SourceToken::Ident(e) => {
            if str_eq(e.as_str(), "mut") {
                let mut m: Vec<bool> = Vec::new();
                m.push(true);
                assert(m@ =~= seq![true]);
                ForloopContext::Mutable(m)
            } else {
                ForloopContext::Std
            }
        },
        _ => ForloopContext::Std,
    }
}

/// The scan of a stream, or `None` where a macro call is cut short.
fn scan(ts: &Vec<SourceToken>) -> (r: Option<(Flags, Vec<Token>)>)
    ensures
        match scan_tokens(sources_view(ts@)) {
            Some(p) => r matches Some(q) && q.0@ == p.0 && tokens_view(q.1@) == p.1,
            None => r is None,
        },
    decreases ts,
{
    let ghost tv = sources_view(ts@);
    proof {
        lemma_sources_view_index(ts@);
    }
    let mut flags = Flags::default();
    let mut tokens: Vec<Token> = Vec::new();
    let mut context = ForloopContext::NoLoop;
    let mut after_in = false;
    let mut i: usize = 0;
    assert(scan_run(tv, 0, initial_state()) == scan_run(
        tv,
        0,
        ScanState { ctx: context@, after_in: after_in, flags: flags@, out: tokens_view(tokens@) },
    ));
    while i < ts.len()
        invariant
            tv == sources_view(ts@),
            tv.len() == ts.len(),
            forall|j: int| 0 <= j < ts.len() ==> #[trigger] tv[j] == source_view(ts@[j]),
            scan_run(tv, 0, initial_state()) == scan_run(
                tv,
                i as int,
                ScanState { ctx: context@, after_in: after_in, flags: flags@, out: tokens_view(tokens@) },
            ),
        decreases ts.len() - i,
    {
        let t = &ts[i];
        assert(tv[i as int] == source_view(*t));
        let ghost st = ScanState {
            ctx: context@,
            after_in: after_in,
            flags: flags@,
            out: tokens_view(tokens@),
        };
        assert(scan_run(tv, i as int, st) == match scan_next(tv, i as int, st) {
            Some(st2) => scan_run(tv, i + scan_step(tv, i as int), st2),
            None => None,
        });
        match t {
            SourceToken::Group(d, f) => {
                proof {
                    assert(decreases_to!(ts => ts@));
                    assert(decreases_to!(ts@ => ts@[i as int]));
                }
                match scan(&f.tokens) {
                    Some((o_flags, o_tok)) => {
                        flags.join(o_flags);
                        push_group(&mut tokens, *d, o_tok);
                        match d {
                            Delimiter::Brace => {
                                if after_in {
                                    context = ForloopContext::NoLoop;
                                    after_in = false;
                                }
                            },
                            _ => {},
                        }
                    },
                    None => {
                        return None;
                    },
                }
                i = i + 1;
            },
            SourceToken::Ident(e) => {
                if i + 1 >= ts.len() || !is_exclamation_mark(&ts[i + 1]) {
                    if i + 1 < ts.len() && str_eq(e.as_str(), "for") {
                        context = loop_context(&ts[i + 1]);
                        after_in = false;
                    } else if str_eq(e.as_str(), "in") {
                        after_in = true;
                    }
                    push_ident_string(&mut tokens, e.clone());
                    i = i + 1;
                } else if str_eq(e.as_str(), "spawn") {
                    flags.mut_commands = true;
                    push_ident(&mut tokens, "internal_spawn");
                    i = i + 1;
                } else if str_eq(e.as_str(), "load") {
                    flags.asset_server = true;
                    push_ident(&mut tokens, "internal_load");
                    i = i + 1;
                } else if str_eq(e.as_str(), "time") {
                    flags.time = true;
                    push_ident(&mut tokens, "internal_time");
                    i = i + 1;
                } else if str_eq(e.as_str(), "delta_seconds") || str_eq(e.as_str(), "delta_time") {
                    flags.time = true;
                    push_ident(&mut tokens, "internal_delta_seconds");
                    i = i + 1;
                } else if str_eq(e.as_str(), "windows") {
                    flags.windows = true;
                    push_ident(&mut tokens, "internal_windows");
                    i = i + 1;
                } else if str_eq(e.as_str(), "res") || str_eq(e.as_str(), "resource") {
                    if i + 2 >= ts.len() {
                        return None;
                    }
                    match &ts[i + 2] {
                        SourceToken::Group(_, a) => {
                            if a.tokens.len() == 0 {
                                return None;
                            }
                            if is_mut(&a.tokens[0]) {
                                flags.add_res_mut(a.tail_text.clone());
                            } else {
                                flags.add_res(a.text.clone());
                            }
                            proof {
                                lemma_sources_view_index(a.tokens@);
                            }
                        },
                        _ => {},
                    }
                    let ghost before = tokens_view(tokens@);
                    push_ident(&mut tokens, "internal_resource");
                    push_punct(&mut tokens, '!', Spacing::Alone);
                    assert(tokens_view(tokens@) =~= before + seq![
                        TokenView::Ident("internal_resource"@),
                        alone('!'),
                    ]);
                    i = i + 2;
                } else if str_eq(e.as_str(), "query") {
                    if i + 2 >= ts.len() {
                        return None;
                    }
                    match &ts[i + 2] {
                        SourceToken::Group(_, h) => {
                            let ghost before = tokens_view(tokens@);
                            let ghost q0 = flags@.queries;
                            let ghost c0 = context@;
                            flags.queries.push((h.text.clone(), context.duplicate()));
                            assert(flags@.queries =~= q0.push((h.text@, c0)));
                            match context {
                                ForloopContext::NoLoop => push_ident(
                                    &mut tokens,
                                    "internal_untyped_query",
                                ),
                                ForloopContext::Std => push_ident(&mut tokens, "internal_query"),
                                ForloopContext::Mutable(_) => push_ident(
                                    &mut tokens,
                                    "internal_mut_query",
                                ),
                            }
                            context = ForloopContext::NoLoop;
                            push_punct(&mut tokens, '!', Spacing::Alone);
                            let g = to_plain(&ts[i + 2]);
                            push_tree(&mut tokens, g);
                            assert(tokens_view(tokens@) =~= before + seq![
                                TokenView::Ident(query_macro(c0)),
                                alone('!'),
                                plain(tv[i + 2]),
                            ]);
                        },
                        _ => {},
                    }
                    i = i + 3;
                } else {
                    push_ident_string(&mut tokens, e.clone());
                    i = i + 1;
                }
            },
            _ => {
                let p = to_plain(t);
                push_tree(&mut tokens, p);
                i = i + 1;
            },
        }
    }
    Some((flags, tokens))
}

/// Can the body be scanned: does every `res!`, `resource!` and `query!` in
/// it have the group that it needs?
pub fn macro_calls_complete(token: &SourceToken) -> (r: bool)
    ensures
        r == scan_body(source_view(*token)) is Some,
{
    match token {
        SourceToken::Group(_, g) => scan(&g.tokens).is_some(),
        _ => true,
    }
}

/// The flags that a body asks for, and the body's trees with each shorthand
/// macro renamed.
pub fn token_return_flags(token: &SourceToken) -> (r: (Flags, Vec<Token>))
    requires
        scan_body(source_view(*token)) is Some,
    ensures
        r.0@ == scan_body(source_view(*token)).unwrap().0,
        tokens_view(r.1@) == scan_body(source_view(*token)).unwrap().1,
{
    match token {
        SourceToken::Group(_, g) => match scan(&g.tokens) {
            Some(p) => p,
            None => {
                assert(false);
                (Flags::default(), Vec::new())
            },
        },
        _ => {
            let f = Flags::default();
            let v: Vec<Token> = Vec::new();
            assert(tokens_view(v@) =~= Seq::<TokenView>::empty());
            (f, v)
        },
    }
}

} // verus!
