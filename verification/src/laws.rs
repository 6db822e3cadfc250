//! Properties that hold across the library's operations.
use vstd::prelude::*;

use crate::flags::{
    FlagsView,
    LoopView,
    add_all,
    add_unique,
    empty_flags,
    flags_well_formed,
    join_flags,
};
use crate::macros::{
    ident,
    internal_resource_name,
    mut_and_name,
    query_expansion,
};
use crate::params::{
    sep_join,
    commands_param,
    param_streams,
    query_param,
    res_param,
    resource_mut_param,
    resource_param,
    fixed_streams,
};
use crate::query_text::{parse_query, query_name};
use crate::scan::{
    ScanState,
    initial_state,
    macro_flag,
    renamed_macro,
    scan_next,
    scan_run,
    scan_step,
    scan_tokens,
};
use crate::token::{
    alone,
    SourceStreamView,
    SourceTokenView,
    TokenView,
    plain,
    plains,
    spec_is_exclamation_mark,
    spec_is_mut,
};

verus! {

/// Adding a name lists it, keeps every name listed before, and adds at most
/// one entry.
pub proof fn law_add_unique_keeps(s: Seq<Seq<char>>, x: Seq<char>)
    ensures
        add_unique(s, x).contains(x),
        forall|y: Seq<char>| s.contains(y) ==> add_unique(s, x).contains(y),
        forall|y: Seq<char>| add_unique(s, x).contains(y) ==> s.contains(y) || y == x,
        add_unique(s, x).len() <= s.len() + 1,
{
    if !s.contains(x) {
        assert(s.push(x)[s.len() as int] == x);
        assert forall|y: Seq<char>| s.contains(y) implies add_unique(s, x).contains(y) by {
            let k = choose|k: int| 0 <= k < s.len() && s[k] == y;
            assert(s.push(x)[k] == y);
        }
        assert forall|y: Seq<char>| add_unique(s, x).contains(y) implies s.contains(y) || y == x by {
            let k = choose|k: int| 0 <= k < s.push(x).len() && s.push(x)[k] == y;
            if k < s.len() {
                assert(s[k] == y);
            }
        }
    }
}

/// Adding the same name twice is adding it once.
pub proof fn law_add_unique_idempotent(s: Seq<Seq<char>>, x: Seq<char>)
    ensures
        add_unique(add_unique(s, x), x) == add_unique(s, x),
{
    law_add_unique_keeps(s, x);
}

/// A list without repeats stays without repeats when a name is added.
pub proof fn law_add_unique_no_duplicates(s: Seq<Seq<char>>, x: Seq<char>)
    requires
        s.no_duplicates(),
    ensures
        add_unique(s, x).no_duplicates(),
{
    if !s.contains(x) {
        let t = s.push(x);
        assert forall|i: int, j: int|
            0 <= i < t.len() && 0 <= j < t.len() && i != j implies t[i] != t[j] by {
            if i == s.len() {
                assert(t[j] == s[j]);
            } else if j == s.len() {
                assert(t[i] == s[i]);
            } else {
                assert(t[i] == s[i] && t[j] == s[j]);
            }
        }
    }
}

/// After adding the names of `xs` to `s`, a name is listed exactly when it
/// was in `s` or in `xs`.
pub proof fn law_add_all_members(s: Seq<Seq<char>>, xs: Seq<Seq<char>>, x: Seq<char>)
    ensures
        add_all(s, xs).contains(x) <==> (s.contains(x) || xs.contains(x)),
    decreases xs.len(),
{
    if xs.len() > 0 {
        let init = xs.drop_last();
        law_add_all_members(s, init, x);
        law_add_unique_keeps(add_all(s, init), xs.last());
        if xs.contains(x) && !init.contains(x) {
            let k = choose|k: int| 0 <= k < xs.len() && xs[k] == x;
            if k < init.len() {
                assert(init[k] == x);
            }
            assert(x == xs.last());
        }
        if init.contains(x) {
            let k = choose|k: int| 0 <= k < init.len() && init[k] == x;
            assert(xs[k] == x);
        }
        if x == xs.last() {
            assert(xs[xs.len() - 1] == x);
        }
    }
}

/// Adding names never repeats one.
pub proof fn law_add_all_no_duplicates(s: Seq<Seq<char>>, xs: Seq<Seq<char>>)
    requires
        s.no_duplicates(),
    ensures
        add_all(s, xs).no_duplicates(),
    decreases xs.len(),
{
    if xs.len() > 0 {
        law_add_all_no_duplicates(s, xs.drop_last());
        law_add_unique_no_duplicates(add_all(s, xs.drop_last()), xs.last());
    }
}

/// Adding to the empty list the names of a list without repeats gives that
/// list.
pub proof fn law_add_all_to_empty(xs: Seq<Seq<char>>)
    requires
        xs.no_duplicates(),
    ensures
        add_all(Seq::empty(), xs) == xs,
    decreases xs.len(),
{
    if xs.len() > 0 {
        let init = xs.drop_last();
        assert(init.no_duplicates());
        law_add_all_to_empty(init);
        if init.contains(xs.last()) {
            let k = choose|k: int| 0 <= k < init.len() && init[k] == xs.last();
            assert(xs[k] == xs[xs.len() - 1]);
        }
        assert(init.push(xs.last()) =~= xs);
    }
}

/// Joining keeps the resource lists free of repeats.
pub proof fn law_join_well_formed(a: FlagsView, b: FlagsView)
    requires
        flags_well_formed(a),
    ensures
        flags_well_formed(join_flags(a, b)),
{
    law_add_all_no_duplicates(a.custom_resources, b.custom_resources);
    law_add_all_no_duplicates(a.custom_resources_mut, b.custom_resources_mut);
}

/// Joining nothing changes nothing; joining onto nothing gives what was
/// joined, where it names no resource twice.
pub proof fn law_join_empty(a: FlagsView)
    ensures
        join_flags(a, empty_flags()) == a,
        flags_well_formed(a) ==> join_flags(empty_flags(), a) == a,
{
    assert(a.queries + Seq::empty() =~= a.queries);
    if flags_well_formed(a) {
        law_add_all_to_empty(a.custom_resources);
        law_add_all_to_empty(a.custom_resources_mut);
        assert(Seq::empty() + a.queries =~= a.queries);
    }
}

/// A resource is asked for after a join exactly when either side asked for
/// it, and the queries of both sides are kept in order.
pub proof fn law_join_members(a: FlagsView, b: FlagsView, x: Seq<char>)
    ensures
        join_flags(a, b).custom_resources.contains(x) <==> (a.custom_resources.contains(x)
            || b.custom_resources.contains(x)),
        join_flags(a, b).custom_resources_mut.contains(x) <==> (a.custom_resources_mut.contains(
            x,
        ) || b.custom_resources_mut.contains(x)),
        join_flags(a, b).queries == a.queries + b.queries,
{
    law_add_all_members(a.custom_resources, b.custom_resources, x);
    law_add_all_members(a.custom_resources_mut, b.custom_resources_mut, x);
}

/// `b` asks for all that `a` asks for: every flag of `a`, the queries of `a`
/// first and in order, and every resource of `a`.
pub open spec fn flags_le(a: FlagsView, b: FlagsView) -> bool {
    &&& a.mut_commands ==> b.mut_commands
    &&& a.asset_server ==> b.asset_server
    &&& a.time ==> b.time
    &&& a.windows ==> b.windows
    &&& a.queries.is_prefix_of(b.queries)
    &&& forall|x: Seq<char>| a.custom_resources.contains(x) ==> b.custom_resources.contains(x)
    &&& forall|x: Seq<char>|
        a.custom_resources_mut.contains(x) ==> b.custom_resources_mut.contains(x)
}

proof fn lemma_flags_le_refl(a: FlagsView)
    ensures
        flags_le(a, a),
{
    assert(a.queries =~= a.queries.subrange(0, a.queries.len() as int));
}

proof fn lemma_flags_le_trans(a: FlagsView, b: FlagsView, c: FlagsView)
    requires
        flags_le(a, b),
        flags_le(b, c),
    ensures
        flags_le(a, c),
{
    assert(a.queries =~= c.queries.subrange(0, a.queries.len() as int)) by {
        assert forall|k: int| 0 <= k < a.queries.len() implies a.queries[k] == c.queries[k] by {
            assert(a.queries[k] == b.queries.subrange(0, a.queries.len() as int)[k]);
            assert(b.queries[k] == c.queries.subrange(0, b.queries.len() as int)[k]);
        }
    }
}

proof fn lemma_join_grows(a: FlagsView, b: FlagsView)
    ensures
        flags_le(a, join_flags(a, b)),
        flags_well_formed(a) ==> flags_well_formed(join_flags(a, b)),
{
    assert forall|x: Seq<char>| a.custom_resources.contains(x) implies join_flags(
        a,
        b,
    ).custom_resources.contains(x) by {
        law_add_all_members(a.custom_resources, b.custom_resources, x);
    }
    assert forall|x: Seq<char>| a.custom_resources_mut.contains(x) implies join_flags(
        a,
        b,
    ).custom_resources_mut.contains(x) by {
        law_add_all_members(a.custom_resources_mut, b.custom_resources_mut, x);
    }
    assert(a.queries =~= (a.queries + b.queries).subrange(0, a.queries.len() as int));
    if flags_well_formed(a) {
        law_join_well_formed(a, b);
    }
}

proof fn lemma_macro_flag_grows(f: FlagsView, name: Seq<char>)
    ensures
        flags_le(f, macro_flag(f, name)),
        flags_well_formed(f) ==> flags_well_formed(macro_flag(f, name)),
{
    lemma_flags_le_refl(f);
}

proof fn lemma_scan_next_grows(ts: Seq<SourceTokenView>, i: int, st: ScanState)
    ensures
        scan_next(ts, i, st) matches Some(st2) ==> flags_le(st.flags, st2.flags) && (
        flags_well_formed(st.flags) ==> flags_well_formed(st2.flags)),
{
    lemma_flags_le_refl(st.flags);
    let q = st.flags.queries;
    if 0 <= i < ts.len() {
        match ts[i] {
            SourceTokenView::Group(_, s) => {
                if let Some(inner) = scan_tokens(s.tokens) {
                    lemma_join_grows(st.flags, inner.0);
                }
            },
            SourceTokenView::Ident(name) => {
                lemma_macro_flag_grows(st.flags, name);
                if i + 2 < ts.len() {
                    if let SourceTokenView::Group(_, a) = ts[i + 2] {
                        law_add_unique_keeps(st.flags.custom_resources, a.text);
                        law_add_unique_keeps(st.flags.custom_resources_mut, a.tail_text);
                        if st.flags.custom_resources.no_duplicates() {
                            law_add_unique_no_duplicates(st.flags.custom_resources, a.text);
                        }
                        if st.flags.custom_resources_mut.no_duplicates() {
                            law_add_unique_no_duplicates(
                                st.flags.custom_resources_mut,
                                a.tail_text,
                            );
                        }
                        assert(q =~= q.push((a.text, st.ctx)).subrange(0, q.len() as int));
                    }
                }
            },
            _ => {},
        }
    }
}

/// The scan from position `i` only ever adds to what the state asks for,
/// and never lists a resource twice where the state does not.
pub proof fn lemma_scan_run_grows(ts: Seq<SourceTokenView>, i: int, st: ScanState)
    ensures
        scan_run(ts, i, st) matches Some(r) ==> flags_le(st.flags, r.flags) && (flags_well_formed(
            st.flags,
        ) ==> flags_well_formed(r.flags)),
    decreases ts.len() - i,
{
    if i < 0 || i >= ts.len() {
        lemma_flags_le_refl(st.flags);
    } else {
        lemma_scan_next_grows(ts, i, st);
        if let Some(st2) = scan_next(ts, i, st) {
            let j = i + scan_step(ts, i);
            lemma_scan_run_grows(ts, j, st2);
            if let Some(r) = scan_run(ts, j, st2) {
                lemma_flags_le_trans(st.flags, st2.flags, r.flags);
            }
        }
    }
}

/// A scanned body never asks for the same resource twice.
pub proof fn law_scan_well_formed(ts: Seq<SourceTokenView>)
    ensures
        scan_tokens(ts) matches Some(p) ==> flags_well_formed(p.0),
{
    lemma_scan_run_grows(ts, 0, initial_state());
}

/// A shorthand `spawn!`, `load!`, `time!`, `delta_seconds!`,
/// `delta_time!` or `windows!` that the scan reaches sets its flag: the
/// scan's result asks for all that the flag asks for.
pub proof fn law_shorthand_sets_flag(ts: Seq<SourceTokenView>, i: int, st: ScanState)
    requires
        0 <= i,
        i + 1 < ts.len(),
        ts[i] matches SourceTokenView::Ident(name) && renamed_macro(name) is Some,
        spec_is_exclamation_mark(ts[i + 1]),
    ensures
        scan_run(ts, i, st) matches Some(r) ==> flags_le(
            macro_flag(st.flags, ts[i]->Ident_0),
            r.flags,
        ),
{
    let st2 = scan_next(ts, i, st)->0;
    lemma_scan_run_grows(ts, i + scan_step(ts, i), st2);
}

proof fn lemma_shorthand_names()
    ensures
        renamed_macro("res"@) is None,
        renamed_macro("resource"@) is None,
        renamed_macro("query"@) is None,
        "query"@ != "res"@,
        "query"@ != "resource"@,
{
    reveal_strlit("res");
    reveal_strlit("resource");
    reveal_strlit("query");
    reveal_strlit("spawn");
    reveal_strlit("load");
    reveal_strlit("time");
    reveal_strlit("delta_seconds");
    reveal_strlit("delta_time");
    reveal_strlit("windows");
    assert("res"@[0] != "spawn"@[0]);
    assert("resource"@[0] != "spawn"@[0]);
    assert("query"@[0] != "spawn"@[0]);
}

/// A `res!(..)` or `resource!(..)` that the scan reaches asks for the
/// resource that its group names: by mutable reference, under the text after
/// the `mut`, where the group opens with `mut`; by shared reference, under
/// the group's whole text, otherwise.
pub proof fn law_resource_call_asks(ts: Seq<SourceTokenView>, i: int, st: ScanState)
    requires
        0 <= i,
        i + 2 < ts.len(),
        ts[i] == SourceTokenView::Ident("res"@) || ts[i] == SourceTokenView::Ident("resource"@),
        spec_is_exclamation_mark(ts[i + 1]),
        ts[i + 2] is Group,
        ts[i + 2]->Group_1.tokens.len() > 0,
    ensures
        scan_run(ts, i, st) matches Some(r) ==> if spec_is_mut(ts[i + 2]->Group_1.tokens[0]) {
            r.flags.custom_resources_mut.contains(ts[i + 2]->Group_1.tail_text)
        } else {
            r.flags.custom_resources.contains(ts[i + 2]->Group_1.text)
        },
{
    lemma_shorthand_names();
    let a = ts[i + 2]->Group_1;
    law_add_unique_keeps(st.flags.custom_resources_mut, a.tail_text);
    law_add_unique_keeps(st.flags.custom_resources, a.text);
    let st2 = scan_next(ts, i, st)->0;
    lemma_scan_run_grows(ts, i + scan_step(ts, i), st2);
}

/// A `query!(..)` that the scan reaches records its group's text with the
/// loop context in force, after the queries recorded before it.
pub proof fn law_query_call_records(ts: Seq<SourceTokenView>, i: int, st: ScanState)
    requires
        0 <= i,
        i + 2 < ts.len(),
        ts[i] == SourceTokenView::Ident("query"@),
        spec_is_exclamation_mark(ts[i + 1]),
        ts[i + 2] is Group,
    ensures
        scan_run(ts, i, st) matches Some(r) ==> r.flags.queries.len() > st.flags.queries.len()
            && r.flags.queries[st.flags.queries.len() as int] == (
        ts[i + 2]->Group_1.text,
        st.ctx,
        ),
{
    lemma_shorthand_names();
    let st2 = scan_next(ts, i, st)->0;
    lemma_scan_run_grows(ts, i + scan_step(ts, i), st2);
    if let Some(r) = scan_run(ts, i + scan_step(ts, i), st2) {
        let n = st.flags.queries.len() as int;
        assert(st2.flags.queries[n] == r.flags.queries.subrange(
            0,
            st2.flags.queries.len() as int,
        )[n]);
    }
}

/// The scan of a stream passes position `i`: starting at `j` and moving on
/// by `scan_step`, it stops at `i`.
pub open spec fn visited(ts: Seq<SourceTokenView>, j: int, i: int) -> bool
    decreases ts.len() - j,
{
    if j < 0 || j >= ts.len() || j > i {
        false
    } else if j == i {
        true
    } else {
        visited(ts, j + scan_step(ts, j), i)
    }
}

/// The state in which the scan from `j` arrives at a position it visits.
proof fn lemma_scan_passes(ts: Seq<SourceTokenView>, j: int, i: int, st: ScanState) -> (st2:
    ScanState)
    requires
        visited(ts, j, i),
    ensures
        scan_run(ts, j, st) is None || scan_run(ts, j, st) == scan_run(ts, i, st2),
    decreases ts.len() - j,
{
    if j == i {
        st
    } else {
        match scan_next(ts, j, st) {
            Some(s1) => lemma_scan_passes(ts, j + scan_step(ts, j), i, s1),
            None => st,
        }
    }
}

/// The parameter that a shorthand needs.
pub open spec fn shorthand_param(name: Seq<char>) -> Seq<TokenView> {
    if name == "spawn"@ {
        commands_param()
    } else if name == "load"@ {
        res_param("assets"@, "AssetServer"@)
    } else if name == "time"@ || name == "delta_seconds"@ || name == "delta_time"@ {
        res_param("time"@, "Time"@)
    } else {
        res_param("windows"@, "Windows"@)
    }
}

/// A shorthand `spawn!`, `load!`, `time!`, `delta_seconds!`,
/// `delta_time!` or `windows!` that the scan of a body reaches puts the
/// parameter that it needs into the parameter list: `mut commands: Commands`,
/// `assets: Res<AssetServer>`, `time: Res<Time>` or `windows: Res<Windows>`.
pub proof fn law_shorthand_imports_parameter(ts: Seq<SourceTokenView>, i: int)
    requires
        visited(ts, 0, i),
        i + 1 < ts.len(),
        ts[i] matches SourceTokenView::Ident(name) && renamed_macro(name) is Some,
        spec_is_exclamation_mark(ts[i + 1]),
    ensures
        scan_tokens(ts) matches Some(p) ==> param_streams(p.0).contains(
            shorthand_param(ts[i]->Ident_0),
        ),
{
    let st = lemma_scan_passes(ts, 0, i, initial_state());
    law_shorthand_sets_flag(ts, i, st);
    if let Some(r) = scan_run(ts, i, st) {
        law_build_declares(r.flags);
    }
}

/// A `res!(..)` or `resource!(..)` that the scan of a body reaches makes
/// the body ask for the resource that its group names (see
/// `law_resource_call_asks`); the parameter list then holds it
/// (`law_build_declares`).
pub proof fn law_resource_call_imports_parameter(ts: Seq<SourceTokenView>, i: int)
    requires
        visited(ts, 0, i),
        i + 2 < ts.len(),
        ts[i] == SourceTokenView::Ident("res"@) || ts[i] == SourceTokenView::Ident("resource"@),
        spec_is_exclamation_mark(ts[i + 1]),
        ts[i + 2] is Group,
        ts[i + 2]->Group_1.tokens.len() > 0,
    ensures
        scan_tokens(ts) matches Some(p) ==> if spec_is_mut(ts[i + 2]->Group_1.tokens[0]) {
            p.0.custom_resources_mut.contains(ts[i + 2]->Group_1.tail_text)
        } else {
            p.0.custom_resources.contains(ts[i + 2]->Group_1.text)
        },
{
    let st = lemma_scan_passes(ts, 0, i, initial_state());
    law_resource_call_asks(ts, i, st);
}

/// A `query!(..)` that the scan of a body reaches puts a parameter for its
/// query into the parameter list.
pub proof fn law_query_call_imports_parameter(ts: Seq<SourceTokenView>, i: int)
    requires
        visited(ts, 0, i),
        i + 2 < ts.len(),
        ts[i] == SourceTokenView::Ident("query"@),
        spec_is_exclamation_mark(ts[i + 1]),
        ts[i + 2] is Group,
    ensures
        scan_tokens(ts) matches Some(p) ==> exists|c: LoopView|
            param_streams(p.0).contains(#[trigger] query_param(ts[i + 2]->Group_1.text, c)),
{
    let st = lemma_scan_passes(ts, 0, i, initial_state());
    law_query_call_records(ts, i, st);
    if let Some(r) = scan_run(ts, i, st) {
        law_build_declares(r.flags);
        let k = st.flags.queries.len() as int;
        let idx = fixed_streams(r.flags).len() + k;
        assert(param_streams(r.flags)[idx] == query_param(r.flags.queries[k].0, r.flags.queries[k].1));
        assert(param_streams(r.flags).contains(query_param(ts[i + 2]->Group_1.text, st.ctx)));
    }
}

/// No `!` anywhere in the tree.
pub open spec fn tree_without_bang(t: SourceTokenView) -> bool
    decreases t, 1nat,
{
    match t {
        SourceTokenView::Group(_, s) => stream_without_bang(s.tokens),
        SourceTokenView::Punct(c, _) => c != '!',
        _ => true,
    }
}

/// No `!` anywhere in the trees.
pub open spec fn stream_without_bang(ts: Seq<SourceTokenView>) -> bool
    decreases ts, 0nat,
{
    ts.len() == 0 || (stream_without_bang(ts.drop_last()) && tree_without_bang(ts.last()))
}

proof fn lemma_without_bang_index(ts: Seq<SourceTokenView>, i: int)
    requires
        stream_without_bang(ts),
        0 <= i < ts.len(),
    ensures
        tree_without_bang(ts[i]),
    decreases ts.len(),
{
    if i < ts.len() - 1 {
        lemma_without_bang_index(ts.drop_last(), i);
    }
}

proof fn lemma_plains_add(a: Seq<SourceTokenView>, b: Seq<SourceTokenView>)
    ensures
        plains(a + b) == plains(a) + plains(b),
    decreases b.len(),
{
    if b.len() == 0 {
        assert(a + b =~= a);
        assert(plains(a) + plains(b) =~= plains(a));
    } else {
        lemma_plains_add(a, b.drop_last());
        assert((a + b).drop_last() =~= a + b.drop_last());
        assert(plains(a) + plains(b.drop_last()).push(plain(b.last())) =~= (plains(a) + plains(
            b.drop_last(),
        )).push(plain(b.last())));
    }
}

proof fn lemma_plains_from(ts: Seq<SourceTokenView>, i: int)
    requires
        0 <= i < ts.len(),
    ensures
        plains(ts.subrange(i, ts.len() as int)) == seq![plain(ts[i])] + plains(
            ts.subrange(i + 1, ts.len() as int),
        ),
{
    let one = seq![ts[i]];
    assert(ts.subrange(i, ts.len() as int) =~= one + ts.subrange(i + 1, ts.len() as int));
    lemma_plains_add(one, ts.subrange(i + 1, ts.len() as int));
    assert(one.drop_last() =~= Seq::<SourceTokenView>::empty());
    assert(plains(Seq::<SourceTokenView>::empty()) == Seq::<TokenView>::empty());
    assert(one.last() == ts[i]);
    assert(plains(one) == plains(one.drop_last()).push(plain(one.last())));
    assert(plains(one) =~= seq![plain(ts[i])]);
}

proof fn lemma_scan_run_plain(ts: Seq<SourceTokenView>, i: int, st: ScanState)
    requires
        stream_without_bang(ts),
        0 <= i <= ts.len(),
    ensures
        scan_run(ts, i, st) matches Some(r) && r.flags == st.flags && r.out == st.out + plains(
            ts.subrange(i, ts.len() as int),
        ),
    decreases ts, ts.len() - i + 1,
{
    if i == ts.len() {
        assert(ts.subrange(i, ts.len() as int) =~= Seq::<SourceTokenView>::empty());
        assert(st.out + plains(Seq::<SourceTokenView>::empty()) =~= st.out);
    } else {
        lemma_without_bang_index(ts, i);
        lemma_plains_from(ts, i);
        if i + 1 < ts.len() {
            lemma_without_bang_index(ts, i + 1);
        }
        assert(scan_step(ts, i) == 1);
        let rest = plains(ts.subrange(i + 1, ts.len() as int));
        assert(st.out.push(plain(ts[i])) + rest =~= st.out + (seq![plain(ts[i])] + rest));
        match ts[i] {
            SourceTokenView::Group(d, s) => {
                assert(decreases_to!(ts => ts[i]));
                lemma_scan_tokens_plain(s.tokens);
                law_join_empty(st.flags);
                let st2 = scan_next(ts, i, st)->0;
                lemma_scan_run_plain(ts, i + 1, st2);
            },
            _ => {
                let st2 = scan_next(ts, i, st)->0;
                lemma_scan_run_plain(ts, i + 1, st2);
            },
        }
    }
}

proof fn lemma_scan_tokens_plain(ts: Seq<SourceTokenView>)
    requires
        stream_without_bang(ts),
    ensures
        scan_tokens(ts) == Some((empty_flags(), plains(ts))),
    decreases ts, ts.len() + 2,
{
    lemma_scan_run_plain(ts, 0, initial_state());
    assert(ts.subrange(0, ts.len() as int) =~= ts);
    assert(Seq::<TokenView>::empty() + plains(ts) =~= plains(ts));
}

/// A body without any macro call is kept as it is and asks for nothing.
pub proof fn law_plain_body_unchanged(ts: Seq<SourceTokenView>)
    requires
        stream_without_bang(ts),
    ensures
        scan_tokens(ts) == Some((empty_flags(), plains(ts))),
{
    lemma_scan_tokens_plain(ts);
}

/// The macro that stands for a query in the body names the parameter that
/// the parameter list declares for the same query, and iterates mutably
/// exactly where that parameter is declared `mut`.
pub proof fn law_query_macro_names_its_parameter(text: Seq<char>, ctx: LoopView)
    requires
        parse_query(text) is Some,
    ensures
        query_expansion(ctx, text)[0] == ident(query_name(text)),
        query_param(text, ctx)[if ctx is Mutable {
            1int
        } else {
            0int
        }] == ident(query_name(text)),
        (query_param(text, ctx)[0] == ident("mut"@)) <==> ctx is Mutable,
        (query_expansion(ctx, text).len() > 2 && query_expansion(ctx, text)[2] == ident(
            "iter_mut"@,
        )) <==> ctx is Mutable,
{
    reveal_strlit("mut");
    reveal_strlit("query_");
    reveal_strlit("iter");
    reveal_strlit("iter_mut");
    assert(query_name(text).len() >= 6);
    if !(ctx is Mutable) {
        assert(query_param(text, ctx)[0] == ident(query_name(text)));
        assert(query_name(text) != "mut"@);
    }
    if ctx is Std {
        assert("iter"@.len() != "iter_mut"@.len());
    }
}

/// The parameter that `res!` refers to inside a system is the one that the
/// parameter list declares for the name that the scan records from the same
/// input: `resource_` and the lower-cased name, for a shared and for a
/// mutable borrow alike.
pub proof fn law_resource_macro_names_its_parameter(s: SourceStreamView)
    requires
        s.tokens.len() > 0,
    ensures
        !spec_is_mut(s.tokens[0]) ==> resource_param(s.text)[0] == ident(
            internal_resource_name(s),
        ),
        spec_is_mut(s.tokens[0]) ==> resource_mut_param(s.tail_text)[1] == ident(
            internal_resource_name(s),
        ),
{
}

/// Each thing the flags ask for has its piece in the parameter list: each
/// set flag its parameter, the resources theirs, and each query its own, in
/// the order of the queries.
pub proof fn law_build_declares(f: FlagsView)
    ensures
        f.mut_commands ==> param_streams(f).contains(commands_param()),
        f.asset_server ==> param_streams(f).contains(res_param("assets"@, "AssetServer"@)),
        f.time ==> param_streams(f).contains(res_param("time"@, "Time"@)),
        f.windows ==> param_streams(f).contains(res_param("windows"@, "Windows"@)),
        f.custom_resources.len() > 0 ==> param_streams(f).contains(
            sep_join(f.custom_resources.map_values(|e: Seq<char>| resource_param(e)), alone(',')),
        ),
        f.custom_resources_mut.len() > 0 ==> param_streams(f).contains(
            sep_join(
                f.custom_resources_mut.map_values(|e: Seq<char>| resource_mut_param(e)),
                alone(','),
            ),
        ),
        param_streams(f).len() == fixed_streams(f).len() + f.queries.len(),
        forall|k: int|
            0 <= k < f.queries.len() ==> #[trigger] param_streams(f)[fixed_streams(f).len() + k]
                == query_param(f.queries[k].0, f.queries[k].1),
{
    let fx = fixed_streams(f);
    let p = param_streams(f);
    let a = crate::params::opt_stream(f.mut_commands, commands_param());
    let b = crate::params::opt_stream(f.asset_server, res_param("assets"@, "AssetServer"@));
    let c = crate::params::opt_stream(f.time, res_param("time"@, "Time"@));
    let d = crate::params::opt_stream(f.windows, res_param("windows"@, "Windows"@));
    let ab = a + b;
    let abc = ab + c;
    let abcd = abc + d;
    assert(fx.len() >= abcd.len());
    assert forall|k: int| 0 <= k < abcd.len() implies p[k] == abcd[k] by {
        assert(p[k] == fx[k]);
    }
    if f.mut_commands {
        assert(abcd[0] == commands_param());
        assert(p[0] == commands_param());
    }
    if f.asset_server {
        assert(abcd[a.len() as int] == res_param("assets"@, "AssetServer"@));
        assert(p[a.len() as int] == res_param("assets"@, "AssetServer"@));
    }
    if f.time {
        assert(abcd[ab.len() as int] == res_param("time"@, "Time"@));
        assert(p[ab.len() as int] == res_param("time"@, "Time"@));
    }
    let e = crate::params::opt_stream(
        f.custom_resources.len() > 0,
        sep_join(f.custom_resources.map_values(|e: Seq<char>| resource_param(e)), alone(',')),
    );
    let abcde = abcd + e;
    assert(fx.len() >= abcde.len());
    assert forall|k: int| 0 <= k < abcde.len() implies p[k] == abcde[k] by {
        assert(p[k] == fx[k]);
    }
    if f.custom_resources.len() > 0 {
        assert(p[abcd.len() as int] == abcde[abcd.len() as int]);
    }
    if f.custom_resources_mut.len() > 0 {
        assert(p[abcde.len() as int] == fx[abcde.len() as int]);
    }
    if f.windows {
        assert(abcd[abc.len() as int] == res_param("windows"@, "Windows"@));
        assert(p[abc.len() as int] == res_param("windows"@, "Windows"@));
    }
}

/// A loop's body ends its loop context: the first brace group after the
/// `in` of a `for` leaves the scan in no loop, so a later `query!` that no
/// `for` iterates is untyped.
pub proof fn law_loop_body_ends_loop_context(ts: Seq<SourceTokenView>, i: int, st: ScanState)
    requires
        0 <= i < ts.len(),
        ts[i] matches SourceTokenView::Group(d, _) && d == crate::token::Delimiter::Brace,
        st.after_in,
    ensures
        scan_next(ts, i, st) matches Some(st2) ==> st2.ctx == LoopView::NoLoop && !st2.after_in,
{
}

/// A group before the `in` of a loop, such as a struct or tuple pattern,
/// keeps the loop context, so the `query!` after the `in` is iterated.
pub proof fn law_pattern_keeps_loop_context(ts: Seq<SourceTokenView>, i: int, st: ScanState)
    requires
        0 <= i < ts.len(),
        ts[i] is Group,
        !st.after_in,
    ensures
        scan_next(ts, i, st) matches Some(st2) ==> st2.ctx == st.ctx && !st2.after_in,
{
}

/// An `in` that no `!` follows marks that the loop's body comes next, and
/// keeps the loop context.
pub proof fn law_in_marks_loop_body(ts: Seq<SourceTokenView>, i: int, st: ScanState)
    requires
        0 <= i < ts.len(),
        ts[i] == SourceTokenView::Ident("in"@),
        i + 1 >= ts.len() || !spec_is_exclamation_mark(ts[i + 1]),
    ensures
        scan_next(ts, i, st) matches Some(st2) && st2.after_in && st2.ctx == st.ctx,
{
    reveal_strlit("in");
    reveal_strlit("for");
    assert("in"@.len() != "for"@.len());
}

/// Everything that a group of a body asks for is asked for by the body:
/// where the scan reaches a group, the scan of the body succeeds only where
/// the group's own scan does, and then every flag that the group sets is set,
/// every query that it records is recorded, and every resource that it names,
/// shared or mutable, is listed.
pub proof fn law_nested_group_asks_kept(ts: Seq<SourceTokenView>, i: int)
    requires
        visited(ts, 0, i),
        ts[i] is Group,
    ensures
        scan_tokens(ts) matches Some(p) ==> scan_tokens(ts[i]->Group_1.tokens) matches Some(q) && {
            &&& q.0.mut_commands ==> p.0.mut_commands
            &&& q.0.asset_server ==> p.0.asset_server
            &&& q.0.time ==> p.0.time
            &&& q.0.windows ==> p.0.windows
            &&& forall|k: int| 0 <= k < q.0.queries.len() ==> p.0.queries.contains(
                #[trigger] q.0.queries[k],
            )
            &&& forall|x: Seq<char>| q.0.custom_resources.contains(x) ==> p.0.custom_resources.contains(x)
            &&& forall|x: Seq<char>|
                q.0.custom_resources_mut.contains(x) ==> p.0.custom_resources_mut.contains(x)
        },
{
    lemma_visited_in_range(ts, 0, i);
    let st = lemma_scan_passes(ts, 0, i, initial_state());
    if let Some(r) = scan_run(ts, 0, initial_state()) {
        assert(scan_run(ts, i, st) == Some(r));
        let st2 = scan_next(ts, i, st)->0;
        let inner = scan_tokens(ts[i]->Group_1.tokens)->0;
        assert(st2.flags == join_flags(st.flags, inner.0));
        lemma_scan_run_grows(ts, i + scan_step(ts, i), st2);
        assert forall|x: Seq<char>| inner.0.custom_resources.contains(x) implies r.flags.custom_resources.contains(x) by {
            law_add_all_members(st.flags.custom_resources, inner.0.custom_resources, x);
        }
        assert forall|x: Seq<char>| inner.0.custom_resources_mut.contains(x) implies r.flags.custom_resources_mut.contains(x) by {
            law_add_all_members(st.flags.custom_resources_mut, inner.0.custom_resources_mut, x);
        }
        assert forall|k: int| 0 <= k < inner.0.queries.len() implies r.flags.queries.contains(
            #[trigger] inner.0.queries[k],
        ) by {
            let n = st.flags.queries.len() as int;
            assert(st2.flags.queries[n + k] == inner.0.queries[k]);
            assert(r.flags.queries[n + k] == st2.flags.queries[n + k]);
        }
    }
}

proof fn lemma_visited_in_range(ts: Seq<SourceTokenView>, j: int, i: int)
    requires
        visited(ts, j, i),
    ensures
        0 <= i < ts.len(),
    decreases ts.len() - j,
{
    if j != i {
        lemma_visited_in_range(ts, j + scan_step(ts, j), i);
    }
}

/// The stream reached by going down the groups at the positions of `path`,
/// each position one that the scan of its stream reaches.
pub open spec fn nested_stream(ts: Seq<SourceTokenView>, path: Seq<int>) -> Option<
    Seq<SourceTokenView>,
>
    decreases path.len(),
{
    if path.len() == 0 {
        Some(ts)
    } else if visited(ts, 0, path[0]) && ts[path[0]] is Group {
        nested_stream(ts[path[0]]->Group_1.tokens, path.drop_first())
    } else {
        None
    }
}

/// A `res!(..)` or `resource!(..)` anywhere in a body, at any depth of
/// nested groups, makes the body ask for the resource that its group names:
/// `res!(mut X)` lists `X` among the mutable resources, `res!(X)` among the
/// shared ones; so each is given its parameter.
pub proof fn law_resource_call_anywhere_asks(
    ts: Seq<SourceTokenView>,
    path: Seq<int>,
    i: int,
)
    requires
        nested_stream(ts, path) is Some,
        visited(nested_stream(ts, path)->0, 0, i),
        i + 2 < nested_stream(ts, path)->0.len(),
        nested_stream(ts, path)->0[i] == SourceTokenView::Ident("res"@)
            || nested_stream(ts, path)->0[i] == SourceTokenView::Ident("resource"@),
        spec_is_exclamation_mark(nested_stream(ts, path)->0[i + 1]),
        nested_stream(ts, path)->0[i + 2] is Group,
        nested_stream(ts, path)->0[i + 2]->Group_1.tokens.len() > 0,
    ensures
        ({
            let a = nested_stream(ts, path)->0[i + 2]->Group_1;
            scan_tokens(ts) matches Some(p) ==> if spec_is_mut(a.tokens[0]) {
                p.0.custom_resources_mut.contains(a.tail_text)
            } else {
                p.0.custom_resources.contains(a.text)
            }
        }),
    decreases path.len(),
{
    if path.len() == 0 {
        law_resource_call_imports_parameter(ts, i);
    } else {
        let k = path[0];
        let sub = ts[k]->Group_1.tokens;
        assert(nested_stream(ts, path) == nested_stream(sub, path.drop_first()));
        law_nested_group_asks_kept(ts, k);
        law_resource_call_anywhere_asks(sub, path.drop_first(), i);
    }
}

/// Each flag-setting shorthand that the scan reaches becomes its in-system
/// macro and sets its flag, and nothing else changes: `spawn!` becomes
/// `internal_spawn!` and asks for commands, `load!` becomes `internal_load!`
/// and asks for the asset server, `time!` becomes `internal_time!`,
/// `delta_seconds!` and `delta_time!` become `internal_delta_seconds!`, all
/// three asking for the time, and `windows!` becomes `internal_windows!` and
/// asks for the windows.
pub proof fn law_shorthand_renamed(ts: Seq<SourceTokenView>, i: int, st: ScanState)
    requires
        0 <= i,
        i + 1 < ts.len(),
        ts[i] == SourceTokenView::Ident("spawn"@) || ts[i] == SourceTokenView::Ident("load"@)
            || ts[i] == SourceTokenView::Ident("time"@) || ts[i] == SourceTokenView::Ident(
            "delta_seconds"@,
        ) || ts[i] == SourceTokenView::Ident("delta_time"@) || ts[i] == SourceTokenView::Ident(
            "windows"@,
        ),
        spec_is_exclamation_mark(ts[i + 1]),
    ensures
        scan_step(ts, i) == 1,
        ts[i] == SourceTokenView::Ident("spawn"@) ==> scan_next(ts, i, st) == Some(
            ScanState {
                flags: FlagsView { mut_commands: true, ..st.flags },
                out: st.out.push(TokenView::Ident("internal_spawn"@)),
                ..st
            },
        ),
        ts[i] == SourceTokenView::Ident("load"@) ==> scan_next(ts, i, st) == Some(
            ScanState {
                flags: FlagsView { asset_server: true, ..st.flags },
                out: st.out.push(TokenView::Ident("internal_load"@)),
                ..st
            },
        ),
        ts[i] == SourceTokenView::Ident("time"@) ==> scan_next(ts, i, st) == Some(
            ScanState {
                flags: FlagsView { time: true, ..st.flags },
                out: st.out.push(TokenView::Ident("internal_time"@)),
                ..st
            },
        ),
        ts[i] == SourceTokenView::Ident("delta_seconds"@) ==> scan_next(ts, i, st) == Some(
            ScanState {
                flags: FlagsView { time: true, ..st.flags },
                out: st.out.push(TokenView::Ident("internal_delta_seconds"@)),
                ..st
            },
        ),
        ts[i] == SourceTokenView::Ident("delta_time"@) ==> scan_next(ts, i, st) == Some(
            ScanState {
                flags: FlagsView { time: true, ..st.flags },
                out: st.out.push(TokenView::Ident("internal_delta_seconds"@)),
                ..st
            },
        ),
        ts[i] == SourceTokenView::Ident("windows"@) ==> scan_next(ts, i, st) == Some(
            ScanState {
                flags: FlagsView { windows: true, ..st.flags },
                out: st.out.push(TokenView::Ident("internal_windows"@)),
                ..st
            },
        ),
{
    lemma_macro_literals();
}

proof fn lemma_macro_literals()
    ensures
        "spawn"@.len() == 5 && "spawn"@[0] == 's',
        "load"@.len() == 4 && "load"@[0] == 'l',
        "time"@.len() == 4 && "time"@[0] == 't',
        "delta_seconds"@.len() == 13 && "delta_seconds"@[0] == 'd',
        "delta_time"@.len() == 10 && "delta_time"@[0] == 'd',
        "windows"@.len() == 7 && "windows"@[0] == 'w',
        "res"@.len() == 3 && "res"@[0] == 'r',
        "resource"@.len() == 8 && "resource"@[0] == 'r',
        "query"@.len() == 5 && "query"@[0] == 'q',
{
    reveal_strlit("spawn");
    reveal_strlit("load");
    reveal_strlit("time");
    reveal_strlit("delta_seconds");
    reveal_strlit("delta_time");
    reveal_strlit("windows");
    reveal_strlit("res");
    reveal_strlit("resource");
    reveal_strlit("query");
}

/// The element type of the `index`-th component `c` of a query's parameter:
/// `&mut c` where the loop pattern marks that element `mut`, `&c` otherwise.
pub open spec fn component_ref(c: Seq<char>, ctx: LoopView, index: int) -> Seq<TokenView> {
    if ctx matches LoopView::Mutable(m) && m[index] {
        seq![alone('&'), TokenView::Ident("mut"@), TokenView::Ident(c)]
    } else {
        seq![alone('&'), TokenView::Ident(c)]
    }
}

/// The parameter of a query names the query, then `: Query <`; its first
/// type argument is the one component's element type where there is one,
/// and a single parenthesised tuple of all the components' element types,
/// in order and joined with commas, where there are two or more; the
/// parameter ends with `>`.
pub proof fn law_query_param_components(text: Seq<char>, ctx: LoopView)
    requires
        parse_query(text) is Some,
        parse_query(text).unwrap().0.len() >= 1,
    ensures
        ({
            let cs = parse_query(text).unwrap().0;
            let q = query_param(text, ctx);
            let k: int = if ctx is Mutable { 1 } else { 0 };
            let refs = Seq::new(cs.len(), |j: int| component_ref(cs[j], ctx, j));
            &&& q[k] == TokenView::Ident(query_name(text))
            &&& q[k + 1] == alone(':')
            &&& q[k + 2] == TokenView::Ident("Query"@)
            &&& q[k + 3] == alone('<')
            &&& q.last() == alone('>')
            &&& cs.len() >= 2 ==> q[k + 4] == TokenView::Group(
                crate::token::Delimiter::Parenthesis,
                sep_join(refs, alone(',')),
            )
            &&& cs.len() == 1 ==> q.subrange(k + 4, k + 4 + refs[0].len()) == refs[0]
        }),
{
    let cs = parse_query(text).unwrap().0;
    let refs = Seq::new(cs.len(), |j: int| component_ref(cs[j], ctx, j));
    assert(crate::params::query_items(cs, ctx) =~= refs);
    if cs.len() == 1 {
        assert(sep_join(refs, alone(',')) == refs[0]);
        let q = query_param(text, ctx);
        let k: int = if ctx is Mutable { 1 } else { 0 };
        assert(q.subrange(k + 4, k + 4 + refs[0].len()) =~= refs[0]);
    }
}

/// The stand-in of a query while a body is written is `& mut [] as & mut`
/// and a bracket group: the one component where there is one, and a single
/// parenthesised tuple of all the components in order, joined with commas,
/// where there are two or more.
pub proof fn law_query_placeholder_components(text: Seq<char>)
    requires
        parse_query(text) is Some,
        parse_query(text).unwrap().0.len() >= 1,
    ensures
        ({
            let cs = parse_query(text).unwrap().0;
            let q = crate::macros::query_spec(text);
            let names = Seq::new(cs.len(), |j: int| seq![TokenView::Ident(cs[j])]);
            &&& q.len() == 7
            &&& q.take(6) == seq![
                alone('&'),
                TokenView::Ident("mut"@),
                TokenView::Group(crate::token::Delimiter::Bracket, Seq::empty()),
                TokenView::Ident("as"@),
                alone('&'),
                TokenView::Ident("mut"@),
            ]
            &&& cs.len() >= 2 ==> q[6] == TokenView::Group(
                crate::token::Delimiter::Bracket,
                seq![TokenView::Group(crate::token::Delimiter::Parenthesis, sep_join(names, alone(',')))],
            )
            &&& cs.len() == 1 ==> q[6] == TokenView::Group(
                crate::token::Delimiter::Bracket,
                seq![TokenView::Ident(cs[0])],
            )
        }),
{
    let cs = parse_query(text).unwrap().0;
    let names = Seq::new(cs.len(), |j: int| seq![TokenView::Ident(cs[j])]);
    assert(cs.map_values(|p: Seq<char>| seq![ident(p)]) =~= names);
    let q = crate::macros::query_spec(text);
    assert(q.take(6) =~= seq![
        alone('&'),
        TokenView::Ident("mut"@),
        TokenView::Group(crate::token::Delimiter::Bracket, Seq::empty()),
        TokenView::Ident("as"@),
        alone('&'),
        TokenView::Ident("mut"@),
    ]);
    if cs.len() == 1 {
        assert(sep_join(names, alone(',')) == names[0]);
        assert(names[0] =~= seq![TokenView::Ident(cs[0])]);
    }
}

/// Once a filter has been read the parse stays among the filters: every
/// later word that a `with`, `and` or `,` introduces is a filter, the
/// components are left as they are, and a bare word is refused.
pub proof fn law_filters_stay_filters(
    ws: Seq<Seq<char>>,
    i: int,
    params: Seq<Seq<char>>,
    with: Seq<Seq<char>>,
)
    ensures
        crate::query_text::parse_from(ws, i, true, params, with) matches Some(r) ==> r.0 == params
            && with.is_prefix_of(r.1),
    decreases ws.len() - i,
{
    if 0 <= i < ws.len() && i + 1 < ws.len() {
        let w2 = with.push(ws[i + 1]);
        law_filters_stay_filters(ws, i + 2, params, w2);
        if let Some(r) = crate::query_text::parse_from(ws, i + 2, true, params, w2) {
            assert(with =~= r.1.subrange(0, with.len() as int)) by {
                assert forall|j: int| 0 <= j < with.len() implies with[j] == r.1[j] by {
                    assert(w2[j] == r.1[j]);
                }
            }
        }
    } else if i < 0 || i >= ws.len() {
        assert(with =~= with.subrange(0, with.len() as int));
    }
}

/// Whether a word is a keyword of the query language.
pub open spec fn query_keyword(w: Seq<char>) -> bool {
    w == "with"@ || w == "and"@ || w == ","@
}

proof fn lemma_filter_run(ws: Seq<Seq<char>>, i: int, params: Seq<Seq<char>>, with: Seq<Seq<char>>)
    requires
        ws.len() % 2 == 1,
        1 <= i <= ws.len(),
        i % 2 == 1,
        forall|j: int| i <= j < ws.len() && j % 2 == 1 ==> query_keyword(#[trigger] ws[j]),
    ensures
        crate::query_text::parse_from(ws, i, true, params, with) == Some(
            (params, with + Seq::new(((ws.len() - i) / 2) as nat, |k: int| ws[i + 1 + 2 * k])),
        ),
    decreases ws.len() - i,
{
    if i >= ws.len() {
        assert(with + Seq::new(((ws.len() - i) / 2) as nat, |k: int| ws[i + 1 + 2 * k]) =~= with);
    } else {
        assert(query_keyword(ws[i]));
        lemma_filter_run(ws, i + 2, params, with.push(ws[i + 1]));
        assert(with.push(ws[i + 1]) + Seq::new(((ws.len() - (i + 2)) / 2) as nat, |k: int| ws[i + 2 + 1 + 2 * k])
            =~= with + Seq::new(((ws.len() - i) / 2) as nat, |k: int| ws[i + 1 + 2 * k]));
    }
}

/// A query `C with F1 and F2 ... and Fn` (each `and` may also be `,` or
/// `with`) has the one component `C` and the filters `F1` to `Fn`, in order.
pub proof fn law_component_then_filters(text: Seq<char>)
    requires
        crate::text::split_spaces(text).len() >= 3,
        crate::text::split_spaces(text).len() % 2 == 1,
        !query_keyword(crate::text::split_spaces(text)[0]),
        crate::text::split_spaces(text)[1] == "with"@,
        forall|j: int|
            1 <= j < crate::text::split_spaces(text).len() && j % 2 == 1 ==> query_keyword(
                #[trigger] crate::text::split_spaces(text)[j],
            ),
    ensures
        ({
            let ws = crate::text::split_spaces(text);
            parse_query(text) == Some(
                (seq![ws[0]], Seq::new(((ws.len() - 1) / 2) as nat, |k: int| ws[2 + 2 * k])),
            )
        }),
{
    let ws = crate::text::split_spaces(text);
    let p0: Seq<Seq<char>> = Seq::empty();
    assert(p0.push(ws[0]) =~= seq![ws[0]]);
    assert(p0.push(ws[2]) =~= seq![ws[2]]);
    assert(query_keyword(ws[1]));
    assert(crate::query_text::parse_from(ws, 0, false, p0, p0) == crate::query_text::parse_from(
        ws,
        1,
        false,
        seq![ws[0]],
        p0,
    ));
    assert(crate::query_text::parse_from(ws, 1, false, seq![ws[0]], p0)
        == crate::query_text::parse_from(ws, 3, true, seq![ws[0]], seq![ws[2]]));
    lemma_filter_run(ws, 3, seq![ws[0]], seq![ws[2]]);
    assert(seq![ws[2]] + Seq::new(((ws.len() - 3) / 2) as nat, |k: int| ws[3 + 1 + 2 * k])
        =~= Seq::new(((ws.len() - 1) / 2) as nat, |k: int| ws[2 + 2 * k]));
}

} // verus!
