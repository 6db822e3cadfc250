use bevy_auto_sys::{
    auto_sys, auto_system, auto_system_ok, delta_seconds, delta_time, internal_delta_seconds,
    internal_load, internal_mut_query, internal_query, internal_resource, internal_spawn,
    internal_time, internal_untyped_query, internal_windows, load, macro_calls_complete, query,
    query_to_ident,
    res, resource, resource_param_name, spawn, time, token_return_flags, try_auto_system,
    try_internal_mut_query, try_internal_query, try_internal_resource,
    try_internal_untyped_query, try_query, try_query_to_ident, try_res, try_resource, windows,
    Delimiter, Flags, ForloopContext, SourceStream, SourceToken, Spacing, SystemQuery, Token,
};
use proc_macro2::{Group, Ident, Literal, Punct, Span, TokenStream, TokenTree};

fn source_stream(ts: TokenStream) -> SourceStream {
    let trees: Vec<TokenTree> = ts.clone().into_iter().collect();
    let text = ts.to_string();
    let tail_text = TokenStream::from_iter(trees.iter().skip(1).cloned()).to_string();
    let tokens = trees.into_iter().map(source_token).collect();
    SourceStream { tokens, text, tail_text }
}

fn source_token(t: TokenTree) -> SourceToken {
    match t {
        TokenTree::Group(g) => {
            let d = match g.delimiter() {
                proc_macro2::Delimiter::Parenthesis => Delimiter::Parenthesis,
                proc_macro2::Delimiter::Brace => Delimiter::Brace,
                proc_macro2::Delimiter::Bracket => Delimiter::Bracket,
                proc_macro2::Delimiter::None => Delimiter::Invisible,
            };
            SourceToken::Group(d, source_stream(g.stream()))
        }
        TokenTree::Ident(i) => SourceToken::Ident(i.to_string()),
        TokenTree::Punct(p) => {
            let s = match p.spacing() {
                proc_macro2::Spacing::Alone => Spacing::Alone,
                proc_macro2::Spacing::Joint => Spacing::Joint,
            };
            SourceToken::Punct(p.as_char(), s)
        }
        TokenTree::Literal(l) => SourceToken::Literal(l.to_string()),
    }
}

fn tree(t: Token) -> TokenTree {
    match t {
        Token::Group(d, inner) => {
            let d = match d {
                Delimiter::Parenthesis => proc_macro2::Delimiter::Parenthesis,
                Delimiter::Brace => proc_macro2::Delimiter::Brace,
                Delimiter::Bracket => proc_macro2::Delimiter::Bracket,
                Delimiter::Invisible => proc_macro2::Delimiter::None,
            };
            TokenTree::Group(Group::new(d, render_stream(inner)))
        }
        Token::Ident(s) => TokenTree::Ident(Ident::new(&s, Span::call_site())),
        Token::Punct(c, s) => {
            let s = match s {
                Spacing::Alone => proc_macro2::Spacing::Alone,
                Spacing::Joint => proc_macro2::Spacing::Joint,
            };
            TokenTree::Punct(Punct::new(c, s))
        }
        Token::Literal(s) => TokenTree::Literal(s.parse::<Literal>().unwrap()),
    }
}

fn render_stream(ts: Vec<Token>) -> TokenStream {
    TokenStream::from_iter(ts.into_iter().map(tree))
}

fn render(ts: Vec<Token>) -> String {
    render_stream(ts).to_string()
}

fn input(src: &str) -> SourceStream {
    source_stream(src.parse::<TokenStream>().unwrap())
}

fn body(src: &str) -> SourceToken {
    let s = input(src);
    let mut tokens = s.tokens;
    assert_eq!(tokens.len(), 1);
    tokens.remove(0)
}

#[test]
fn query_single_component() {
    assert_eq!(render(query(&input("Transform"))), "& mut [] as & mut [Transform]");
}

#[test]
fn query_two_components() {
    assert_eq!(
        render(query(&input("Transform Sprite"))),
        "& mut [] as & mut [(Transform , Sprite)]"
    );
}

#[test]
fn query_components_joined_with_and() {
    assert_eq!(
        render(query(&input("Transform and Sprite"))),
        "& mut [] as & mut [(Transform , Sprite)]"
    );
}

#[test]
fn query_with_filter_keeps_components() {
    assert_eq!(render(query(&input("Transform with Sprite"))), "& mut [] as & mut [Transform]");
    assert_eq!(
        render(query(&input("Transform Texture with Sprite and Visibility"))),
        "& mut [] as & mut [(Transform , Texture)]"
    );
}

#[test]
fn system_query_parses_readme_table() {
    let q = SystemQuery::new(&"Transform Texture with Sprite and Visibility".to_string());
    assert_eq!(q.params, vec!["Transform".to_string(), "Texture".to_string()]);
    assert_eq!(q.with, vec!["Sprite".to_string(), "Visibility".to_string()]);
    let q = SystemQuery::new(&"Transform Texture with Sprite with Visibility".to_string());
    assert_eq!(q.params, vec!["Transform".to_string(), "Texture".to_string()]);
    assert_eq!(q.with, vec!["Sprite".to_string(), "Visibility".to_string()]);
    let q = SystemQuery::new(&"Transform and Sprite".to_string());
    assert_eq!(q.params, vec!["Transform".to_string(), "Sprite".to_string()]);
    assert!(q.with.is_empty());
}

#[test]
fn system_query_keyword_without_word_is_refused() {
    assert!(SystemQuery::parse(&"Transform with".to_string()).is_none());
    assert!(SystemQuery::parse(&"Transform and".to_string()).is_none());
    assert!(SystemQuery::parse(&"Transform with Sprite".to_string()).is_some());
}

#[test]
fn query_ident_is_lowercased_words() {
    assert_eq!(
        render(vec![query_to_ident(&"Transform Sprite".to_string())]),
        "query_transform_sprite"
    );
    assert_eq!(
        render(vec![query_to_ident(&"GlobalTransform with Camera".to_string())]),
        "query_globaltransform_with_camera"
    );
}

#[test]
fn internal_query_macros_name_the_parameter() {
    assert_eq!(render(internal_untyped_query(&input("Transform Sprite"))), "query_transform_sprite");
    assert_eq!(render(internal_query(&input("Transform Sprite"))), "query_transform_sprite . iter ()");
    assert_eq!(
        render(internal_mut_query(&input("Transform Sprite"))),
        "query_transform_sprite . iter_mut ()"
    );
}

#[test]
fn internal_spawn_and_load_call_methods() {
    assert_eq!(render(internal_spawn(&input("c"))), "commands . spawn (c)");
    assert_eq!(render(internal_load(&input("\"box.png\""))), "assets . load (\"box.png\")");
}

#[test]
fn internal_time_and_windows() {
    assert_eq!(render(internal_time(&input(""))), "time");
    assert_eq!(render(internal_delta_seconds(&input(""))), "(time . delta_seconds ())");
    assert_eq!(render(internal_windows(&input(""))), "windows");
}

#[test]
fn placeholders_for_the_editor() {
    assert_eq!(
        render(spawn(&input("c"))),
        "bevy :: ecs :: system :: EntityCommands { entity : todo ! () , commands : todo ! () , }"
    );
    assert_eq!(
        render(load(&input("\"box.png\""))),
        "Handle { id : todo ! () , handle_type : todo ! () , marker : std :: marker :: PhantomData , }"
    );
    assert_eq!(render(time(&input(""))), "bevy :: prelude :: Time :: default ()");
    assert_eq!(render(windows(&input(""))), "bevy :: prelude :: Windows :: default ()");
    assert_eq!(render(delta_seconds(&input(""))), "(0.0)");
    assert_eq!(render(delta_time(&input(""))), "0.0");
}

#[test]
fn resource_placeholder_is_default_of_the_type() {
    assert_eq!(render(resource(&input("MousePosition"))), "MousePosition :: default ()");
    assert_eq!(render(resource(&input("mut MousePosition"))), "MousePosition :: default ()");
    assert_eq!(render(res(&input("mut MousePosition"))), "MousePosition :: default ()");
}

#[test]
fn internal_resource_names_the_parameter() {
    assert_eq!(render(internal_resource(&input("MousePosition"))), "resource_mouseposition");
    assert_eq!(
        render(internal_resource(&input("mut MousePosition"))),
        "resource_mouseposition"
    );
}

#[test]
fn auto_sys_adds_mut_to_commands() {
    assert_eq!(
        render(auto_sys(&input("setup (Commands, x: u32) { }"))),
        "pub fn setup (mut commands : Commands , x : u32) { }"
    );
}

#[test]
fn add_res_keeps_names_unique() {
    let mut f = Flags::default();
    f.add_res("A".to_string());
    f.add_res("B".to_string());
    f.add_res("A".to_string());
    assert_eq!(f.custom_resources, vec!["A".to_string(), "B".to_string()]);
    f.add_res_mut("A".to_string());
    f.add_res_mut("A".to_string());
    assert_eq!(f.custom_resources_mut, vec!["A".to_string()]);
}

#[test]
fn join_merges_flags() {
    let mut a = Flags::default();
    a.time = true;
    a.add_res("A".to_string());
    a.queries.push(("X".to_string(), ForloopContext::NoLoop));
    let mut b = Flags::default();
    b.mut_commands = true;
    b.add_res("B".to_string());
    b.add_res("A".to_string());
    b.add_res_mut("C".to_string());
    b.queries.push(("Y".to_string(), ForloopContext::Std));
    a.join(b);
    assert!(a.time && a.mut_commands && !a.windows && !a.asset_server);
    assert_eq!(a.custom_resources, vec!["A".to_string(), "B".to_string()]);
    assert_eq!(a.custom_resources_mut, vec!["C".to_string()]);
    assert_eq!(
        a.queries,
        vec![("X".to_string(), ForloopContext::NoLoop), ("Y".to_string(), ForloopContext::Std)]
    );
}

#[test]
fn join_with_empty_flags_changes_nothing() {
    let mut a = Flags::default();
    a.windows = true;
    a.add_res("A".to_string());
    a.join(Flags::default());
    let mut expected = Flags::default();
    expected.windows = true;
    expected.add_res("A".to_string());
    assert_eq!(a, expected);
}

#[test]
fn build_parameter_list() {
    let mut f = Flags::default();
    f.mut_commands = true;
    f.asset_server = true;
    f.time = true;
    f.windows = true;
    f.add_res("MousePosition".to_string());
    f.add_res("Score".to_string());
    f.add_res_mut("Speed".to_string());
    f.queries.push(("Transform Rotate".to_string(), ForloopContext::Mutable(vec![true, false])));
    f.queries.push(("Camera with Sprite".to_string(), ForloopContext::Std));
    assert_eq!(
        render(f.build()),
        "mut commands : Commands ,assets : Res < AssetServer > ,time : Res < Time > ,\
windows : Res < Windows > ,resource_mouseposition : Res < MousePosition > , \
resource_score : Res < Score > ,mut resource_speed : ResMut < Speed > ,\
mut query_transform_rotate : Query < (& mut Transform , & Rotate) > ,\
query_camera_with_sprite : Query < & Camera , With < Sprite > >"
    );
}

#[test]
fn build_with_nothing_asked_is_empty() {
    assert!(Flags::default().build().is_empty());
}

#[test]
fn build_query_with_several_filters() {
    let mut f = Flags::default();
    f.queries.push(("Transform Texture with Sprite and Visibility".to_string(), ForloopContext::NoLoop));
    assert_eq!(
        render(f.build()),
        "query_transform_texture_with_sprite_and_visibility : \
Query < (& Transform , & Texture) , With < (Sprite , Visibility) > >"
    );
}

#[test]
fn build_query_components_joined_with_and() {
    let mut f = Flags::default();
    f.queries.push(("Transform and Sprite".to_string(), ForloopContext::NoLoop));
    assert_eq!(
        render(f.build()),
        "query_transform_and_sprite : Query < (& Transform , & Sprite) >"
    );
}

#[test]
fn scan_renames_shorthands_and_sets_flags() {
    let b = body("{ spawn!(c); let h = load!(\"a\"); let t = time!(); let d = delta_time!(); let w = windows!(); }");
    assert!(macro_calls_complete(&b));
    let (flags, tokens) = token_return_flags(&b);
    assert!(flags.mut_commands && flags.asset_server && flags.time && flags.windows);
    assert_eq!(
        render(tokens),
        "internal_spawn ! (c) ; let h = internal_load ! (\"a\") ; let t = internal_time ! () ; \
let d = internal_delta_seconds ! () ; let w = internal_windows ! () ;"
    );
}

#[test]
fn scan_records_resources() {
    let b = body("{ let a = res!(Score); res!(mut Speed).0 = 1; let c = resource!(Score); }");
    let (flags, tokens) = token_return_flags(&b);
    assert_eq!(flags.custom_resources, vec!["Score".to_string()]);
    assert_eq!(flags.custom_resources_mut, vec!["Speed".to_string()]);
    assert_eq!(
        render(tokens),
        "let a = internal_resource ! (Score) ; internal_resource ! (mut Speed) . 0 = 1 ; \
let c = internal_resource ! (Score) ;"
    );
}

#[test]
fn scan_records_queries_with_loop_context() {
    let b = body("{ for (mut t, r) in query![Transform Rotate] { } for x in query![A] { } let q = query![B]; for mut y in query![C] { } }");
    let (flags, tokens) = token_return_flags(&b);
    assert_eq!(
        flags.queries,
        vec![
            ("Transform Rotate".to_string(), ForloopContext::Mutable(vec![true, false])),
            ("A".to_string(), ForloopContext::Std),
            ("B".to_string(), ForloopContext::NoLoop),
            ("C".to_string(), ForloopContext::Mutable(vec![true])),
        ]
    );
    assert_eq!(
        render(tokens),
        "for (mut t , r) in internal_mut_query ! [Transform Rotate] { } \
for x in internal_query ! [A] { } let q = internal_untyped_query ! [B] ; \
for mut y in internal_mut_query ! [C] { }"
    );
}

#[test]
fn scan_joins_flags_of_nested_groups() {
    let b = body("{ if true { spawn!(a); let s = res!(A); } else { let s = res!(A); let w = windows!(); } }");
    let (flags, _) = token_return_flags(&b);
    assert!(flags.mut_commands && flags.windows && !flags.time);
    assert_eq!(flags.custom_resources, vec!["A".to_string()]);
}

#[test]
fn scan_leaves_plain_body_unchanged() {
    let b = body("{ let x = 1 + 2; for i in v { x += i; } }");
    let (flags, tokens) = token_return_flags(&b);
    assert_eq!(flags, Flags::default());
    assert_eq!(render(tokens), "let x = 1 + 2 ; for i in v { x += i ; }");
}

#[test]
fn scan_refuses_cut_short_macro_calls() {
    assert!(macro_calls_complete(&body("{ let a = res!; }")));
    assert!(!macro_calls_complete(&body("{ res! }")));
    assert!(!macro_calls_complete(&body("{ let a = res!(); }")));
    assert!(!macro_calls_complete(&body("{ query! }")));
    assert!(macro_calls_complete(&body("{ res!(A) }")));
}

#[test]
fn auto_system_rotate_example() {
    let item = input("fn rotate_system(){ for (mut transform,rotate) in query![Transform Rotate] { if rotate.0 { transform.rotate_z(1.0 * (delta_time!())); } } }");
    assert!(auto_system_ok(&item));
    assert_eq!(
        render(auto_system(&item)),
        "pub fn rotate_system (time : Res < Time > ,\
mut query_transform_rotate : Query < (& mut Transform , & Rotate) >) { \
for (mut transform , rotate) in internal_mut_query ! [Transform Rotate] { \
if rotate . 0 { transform . rotate_z (1.0 * (internal_delta_seconds ! ())) ; } } }"
    );
}

#[test]
fn auto_system_should_rotate_example() {
    let item = input("pub fn should_rotate(){ for (tranform,mut rotate) in query![GlobalTransform Rotate] { rotate.0 = res!(MousePosition).0; } }");
    assert!(auto_system_ok(&item));
    assert_eq!(
        render(auto_system(&item)),
        "pub fn should_rotate (resource_mouseposition : Res < MousePosition > ,\
mut query_globaltransform_rotate : Query < (& GlobalTransform , & mut Rotate) >) { \
for (tranform , mut rotate) in internal_mut_query ! [GlobalTransform Rotate] { \
rotate . 0 = internal_resource ! (MousePosition) . 0 ; } }"
    );
}

#[test]
fn auto_system_start_example() {
    let item = input("fn start(){ spawn!(c); spawn!(s).insert(Rotate(false)); let t = load!(\"box.png\"); }");
    assert!(auto_system_ok(&item));
    assert_eq!(
        render(auto_system(&item)),
        "pub fn start (mut commands : Commands ,assets : Res < AssetServer >) { \
internal_spawn ! (c) ; internal_spawn ! (s) . insert (Rotate (false)) ; \
let t = internal_load ! (\"box.png\") ; }"
    );
}

#[test]
fn auto_system_refuses_incomplete_items() {
    assert!(!auto_system_ok(&input("fn f")));
    assert!(!auto_system_ok(&input("fn f ()")));
    assert!(!auto_system_ok(&input("fn f () { res!() }")));
    assert!(!auto_system_ok(&input("fn f () { for (a, mut b) in query![A B C] {} }")));
    assert!(!auto_system_ok(&input("fn f () { let q = query![A with]; }")));
    assert!(auto_system_ok(&input("fn f () { }")));
}

#[test]
fn query_macro_and_parameter_agree() {
    let item = input("fn f(){ for x in query![Transform Sprite] { } }");
    let out = render(auto_system(&item));
    let name = render(internal_query(&input("Transform Sprite")));
    assert!(name.starts_with("query_transform_sprite"));
    assert!(out.contains("query_transform_sprite : Query"));
}

#[test]
fn resource_macro_and_parameter_agree() {
    let item = input("fn f(){ let a = res!(Score); res!(mut Speed).0 = 2; }");
    let out = render(auto_system(&item));
    assert!(out.contains(&render(internal_resource(&input("Score")))));
    assert!(out.contains(&render(internal_resource(&input("mut Speed")))));
    assert!(out.contains("resource_score : Res < Score >"));
    assert!(out.contains("mut resource_speed : ResMut < Speed >"));
}

#[test]
fn resource_parameter_lowercases_by_unicode_rules() {
    let mut f = Flags::default();
    f.add_res("ÄBC".to_string());
    assert_eq!(render(f.build()), "resource_äbc : Res < ÄBC >");
    assert_eq!(render(internal_resource(&input("ÄBC"))), "resource_äbc");
}

#[test]
fn comma_separated_query_names_an_invalid_parameter() {
    let text = "Transform , Sprite".to_string();
    assert_eq!(bevy_auto_sys::query_ident_name(&text), "query_transform_,_sprite");
    assert!(!bevy_auto_sys::is_identifier("query_transform_,_sprite"));
    assert!(!bevy_auto_sys::query_text_ok(&text));
    assert!(!bevy_auto_sys::query_input_ok(&input("Transform, Sprite")));
    assert!(bevy_auto_sys::query_text_ok(&"Transform Sprite".to_string()));
    assert!(!auto_system_ok(&input("fn f () { for (a, b) in query![Transform, Sprite] {} }")));
}

#[test]
fn bare_word_after_filter_is_refused() {
    assert!(SystemQuery::parse(&"Transform Texture with Sprite Visibility".to_string()).is_none());
    assert!(!bevy_auto_sys::query_text_ok(&"Transform Texture with Sprite Visibility".to_string()));
    assert!(SystemQuery::parse(&"Transform Texture with Sprite and Visibility".to_string()).is_some());
}

#[test]
fn both_mut_elements_are_marked() {
    let b = body("{ for (mut a, mut b) in query![A B] {} }");
    let (flags, tokens) = token_return_flags(&b);
    assert_eq!(flags.queries, vec![("A B".to_string(), ForloopContext::Mutable(vec![true, true]))]);
    assert_eq!(render(tokens), "for (mut a , mut b) in internal_mut_query ! [A B] { }");
    assert_eq!(
        render(flags.build()),
        "mut query_a_b : Query < (& mut A , & mut B) >"
    );
}

#[test]
fn identifiers() {
    assert!(bevy_auto_sys::is_identifier("resource_äpfel"));
    assert!(bevy_auto_sys::is_identifier("_x1"));
    assert!(!bevy_auto_sys::is_identifier("1x"));
    assert!(!bevy_auto_sys::is_identifier(""));
    assert!(!bevy_auto_sys::is_identifier("Foo < Bar >"));
    assert!(!auto_system_ok(&input("fn f () { let a = res!(Foo<Bar>); }")));
    assert!(!bevy_auto_sys::resource_input_ok(&input("Foo<Bar>")));
    assert!(bevy_auto_sys::resource_input_ok(&input("mut Foo")));
    assert!(bevy_auto_sys::internal_resource_input_ok(&input("mut Foo")));
    assert!(!bevy_auto_sys::internal_resource_input_ok(&input("")));
}

#[test]
fn loop_context_ends_with_the_loop_body() {
    let b = body("{ for x in v { } let q = query![Transform]; for y in query![B] { } }");
    let (flags, tokens) = token_return_flags(&b);
    assert_eq!(
        flags.queries,
        vec![("Transform".to_string(), ForloopContext::NoLoop), ("B".to_string(), ForloopContext::Std)]
    );
    assert_eq!(
        render(tokens),
        "for x in v { } let q = internal_untyped_query ! [Transform] ; for y in internal_query ! [B] { }"
    );
}

#[test]
fn struct_pattern_keeps_loop_context() {
    let b = body("{ for Foo { x, .. } in query![Foo] { } let q = query![Bar]; }");
    let (flags, tokens) = token_return_flags(&b);
    assert_eq!(
        flags.queries,
        vec![("Foo".to_string(), ForloopContext::Std), ("Bar".to_string(), ForloopContext::NoLoop)]
    );
    assert_eq!(
        render(tokens),
        "for Foo { x , .. } in internal_query ! [Foo] { } let q = internal_untyped_query ! [Bar] ;"
    );
}

#[test]
fn loop_context_ends_at_the_body_after_in() {
    let b = body("{ for x in v.iter() { } let q = query![Transform]; }");
    let (flags, _) = token_return_flags(&b);
    assert_eq!(flags.queries, vec![("Transform".to_string(), ForloopContext::NoLoop)]);
}

#[test]
fn transform_args_rewrites_commands_only() {
    let b = body("(Commands, time: Res<Time>, Commands)");
    assert_eq!(
        render(bevy_auto_sys::macros::transform_args(&b)),
        "mut commands : Commands , time : Res < Time >, mut commands : Commands"
    );
    assert_eq!(render(bevy_auto_sys::macros::args(&b)), "Commands , time : Res < Time >, Commands");
    assert!(bevy_auto_sys::macros::args(&body("x")).is_empty());
}

#[test]
fn query_macro_body_is_not_rewritten() {
    let b = body("{ let q = query![A with spawn]; }");
    let (flags, tokens) = token_return_flags(&b);
    assert!(!flags.mut_commands);
    assert_eq!(render(tokens), "let q = internal_untyped_query ! [A with spawn] ;");
}

#[test]
fn readme_query_rows() {
    let rows = [
        ("Transform", "query_transform : Query < & Transform >"),
        ("Transform Sprite", "query_transform_sprite : Query < (& Transform , & Sprite) >"),
        ("Transform with Sprite", "query_transform_with_sprite : Query < & Transform , With < Sprite > >"),
        (
            "Transform Texture with Sprite",
            "query_transform_texture_with_sprite : Query < (& Transform , & Texture) , With < Sprite > >",
        ),
        (
            "Transform Texture with Sprite with Visibility",
            "query_transform_texture_with_sprite_with_visibility : \
Query < (& Transform , & Texture) , With < (Sprite , Visibility) > >",
        ),
    ];
    for (text, expected) in rows {
        let mut f = Flags::default();
        f.queries.push((text.to_string(), ForloopContext::NoLoop));
        assert_eq!(render(f.build()), expected);
    }
}

#[test]
fn checked_query_forms() {
    assert_eq!(
        try_query(&input("Transform Sprite")).map(render).as_deref(),
        Some("& mut [] as & mut [(Transform , Sprite)]")
    );
    assert!(try_query(&input("Transform, Sprite")).is_none());
    assert!(try_query(&input("Transform with")).is_none());
    assert_eq!(
        try_internal_untyped_query(&input("Transform")).map(render).as_deref(),
        Some("query_transform")
    );
    assert_eq!(
        try_internal_query(&input("Transform")).map(render).as_deref(),
        Some("query_transform . iter ()")
    );
    assert_eq!(
        try_internal_mut_query(&input("Transform")).map(render).as_deref(),
        Some("query_transform . iter_mut ()")
    );
    assert!(try_internal_untyped_query(&input("A, B")).is_none());
    assert!(try_internal_query(&input("A, B")).is_none());
    assert!(try_internal_mut_query(&input("A, B")).is_none());
    assert_eq!(
        try_query_to_ident(&"Transform".to_string()).map(|t| render(vec![t])).as_deref(),
        Some("query_transform")
    );
    assert!(try_query_to_ident(&"A , B".to_string()).is_none());
    let q = SystemQuery::try_new(&"Transform with Sprite".to_string()).unwrap();
    assert_eq!(q.params, vec!["Transform".to_string()]);
    assert_eq!(q.with, vec!["Sprite".to_string()]);
    assert!(SystemQuery::try_new(&"A , B".to_string()).is_none());
    assert!(SystemQuery::try_new(&"A with".to_string()).is_none());
}

#[test]
fn checked_resource_forms() {
    assert_eq!(
        try_resource(&input("mut Score")).map(render).as_deref(),
        Some("Score :: default ()")
    );
    assert_eq!(try_res(&input("Score")).map(render).as_deref(), Some("Score :: default ()"));
    assert!(try_resource(&input("")).is_none());
    assert!(try_res(&input("mut a :: B")).is_none());
    assert_eq!(
        try_internal_resource(&input("mut Score")).map(render).as_deref(),
        Some("resource_score")
    );
    assert!(try_internal_resource(&input("")).is_none());
    assert!(try_internal_resource(&input("a :: B")).is_none());
}

#[test]
fn checked_build_and_auto_system() {
    let mut f = Flags::default();
    f.time = true;
    f.add_res("Score".to_string());
    assert_eq!(
        f.try_build().map(render).as_deref(),
        Some("time : Res < Time > ,resource_score : Res < Score >")
    );
    let mut g = Flags::default();
    g.add_res("a :: B".to_string());
    assert!(g.try_build().is_none());
    assert_eq!(
        try_auto_system(&input("fn f () { time!(); }")).map(render).as_deref(),
        Some("pub fn f (time : Res < Time >) { internal_time ! () ; }")
    );
    assert!(try_auto_system(&input("fn f () { res!() }")).is_none());
    assert!(try_auto_system(&input("fn f")).is_none());
}

#[test]
fn resource_param_name_prefixes_the_lowered_name() {
    assert_eq!(resource_param_name(&"mouseposition".to_string()), "resource_mouseposition");
    assert_eq!(resource_param_name(&"".to_string()), "resource_");
    assert_eq!(resource_param_name(&"Äbc".to_string()), "resource_Äbc");
}
