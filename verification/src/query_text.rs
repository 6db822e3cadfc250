//! The little language of `query![..]`: component names, joined by `and`,
//! with `with` filters.
use vstd::prelude::*;

use crate::text::{
    ascii_lower,
    ascii_lowercase,
    join_strings,
    join_with,
    split_spaces,
    split_words,
    str_eq,
    strings_view,
};
use crate::ident::{all_identifiers, all_idents, is_ident, is_identifier};
use crate::token::{Token, TokenView, token_view};

verus! {

/// The words of a query from position `i` on, read with `in_with` telling
/// whether a `with` came before.  `with X` adds `X` to the filters and turns
/// the filter context on; `and X` and `, X` add `X` to the current context's
/// list; any other word is a component, and is refused after a filter.
/// `None` where a `with`, `and` or `,` is the last word, or a bare word
/// follows a filter.
pub open spec fn parse_from(
    ws: Seq<Seq<char>>,
    i: int,
    in_with: bool,
    params: Seq<Seq<char>>,
    with: Seq<Seq<char>>,
) -> Option<(Seq<Seq<char>>, Seq<Seq<char>>)>
    decreases ws.len() - i,
{
    if i < 0 || i >= ws.len() {
        Some((params, with))
    } else if ws[i] == "with"@ {
        if i + 1 >= ws.len() {
            None
        } else {
            parse_from(ws, i + 2, true, params, with.push(ws[i + 1]))
        }
    } else if ws[i] == "and"@ || ws[i] == ","@ {
        if i + 1 >= ws.len() {
            None
        } else if in_with {
            parse_from(ws, i + 2, true, params, with.push(ws[i + 1]))
        } else {
            parse_from(ws, i + 2, false, params.push(ws[i + 1]), with)
        }
    } else if in_with {
        None
    } else {
        parse_from(ws, i + 1, false, params.push(ws[i]), with)
    }
}

/// The components and the filters of a query text, or `None` where a
/// keyword has nothing after it.
pub open spec fn parse_query(text: Seq<char>) -> Option<(Seq<Seq<char>>, Seq<Seq<char>>)> {
    parse_from(split_spaces(text), 0, false, Seq::empty(), Seq::empty())
}

/// The name of the system parameter that holds a query: `query_` and the
/// query's words, lower-cased as ASCII, joined with `_`.
pub open spec fn query_name(text: Seq<char>) -> Seq<char> {
    "query_"@ + join_with(split_spaces(text).map_values(|w: Seq<char>| ascii_lower(w)), "_"@)
}

/// A parsed query: its components and its `With` filters.
#[derive(Debug, PartialEq, Eq)]
pub struct SystemQuery {
    pub params: Vec<String>,
    pub with: Vec<String>,
}

impl SystemQuery {
    /// Parses a query text, or gives `None` where a keyword is its last word
    /// or a bare word follows a filter.
    pub fn parse(from: &String) -> (r: Option<SystemQuery>)
        ensures
            match parse_query(from@) {
                Some(p) => r matches Some(q) && strings_view(q.params@) == p.0 && strings_view(
                    q.with@,
                ) == p.1,
                None => r is None,
            },
    {
        let words = split_words(from.as_str());
        let ghost ws = strings_view(words@);
        let mut params: Vec<String> = Vec::new();
        let mut with: Vec<String> = Vec::new();
        let mut in_with = false;
        let mut i: usize = 0;
        assert(strings_view(params@) =~= Seq::<Seq<char>>::empty());
        assert(strings_view(with@) =~= Seq::<Seq<char>>::empty());
        while i < words.len()
            invariant
                ws == strings_view(words@),
                ws == split_spaces(from@),
                parse_query(from@) == parse_from(
                    ws,
                    i as int,
                    in_with,
                    strings_view(params@),
                    strings_view(with@),
                ),
            decreases words.len() - i,
        {
            let w = words[i].as_str();
            assert(ws[i as int] == words@[i as int]@);
            if str_eq(w, "with") {
                if i + 1 >= words.len() {
                    return None;
                }
                let ghost before = with@;
                with.push(words[i + 1].clone());
                assert(strings_view(with@) =~= strings_view(before).push(ws[i + 1]));
                in_with = true;
                i = i + 2;
            } else if str_eq(w, "and") || str_eq(w, ",") {
                if i + 1 >= words.len() {
                    return None;
                }
                if in_with {
                    let ghost before = with@;
                    with.push(words[i + 1].clone());
                    assert(strings_view(with@) =~= strings_view(before).push(ws[i + 1]));
                } else {
                    let ghost before = params@;
                    params.push(words[i + 1].clone());
                    assert(strings_view(params@) =~= strings_view(before).push(ws[i + 1]));
                }
                i = i + 2;
            } else {
                if in_with {
                    return None;
                }
                let ghost before = params@;
                params.push(words[i].clone());
                assert(strings_view(params@) =~= strings_view(before).push(ws[i as int]));
                i = i + 1;
            }
        }
        Some(SystemQuery { params, with })
    }

    /// Parses a query text whose keywords each have a word after them, whose
    /// filters are not followed by a bare word, and whose parameter name
    /// (`query_to_ident`) is an identifier.
    pub fn new(from: &String) -> (r: Self)
        requires
            parse_query(from@) is Some,
            is_ident(query_name(from@)),
        ensures
            strings_view(r.params@) == parse_query(from@).unwrap().0,
            strings_view(r.with@) == parse_query(from@).unwrap().1,
    {
        match Self::parse(from) {
            Some(q) => q,
            None => {
                assert(false);
                SystemQuery { params: Vec::new(), with: Vec::new() }
            },
        }
    }
}

impl SystemQuery {
    /// `SystemQuery::new` where the text parses and the query's parameter
    /// name is an identifier; `None` otherwise.
    pub fn try_new(from: &String) -> (r: Option<Self>)
        ensures
            r is Some <==> (parse_query(from@) is Some && is_ident(query_name(from@))),
            r matches Some(q) ==> strings_view(q.params@) == parse_query(from@).unwrap().0
                && strings_view(q.with@) == parse_query(from@).unwrap().1,
    {
        let name = query_ident_name(from);
        if !is_identifier(name.as_str()) {
            return None;
        }
        Self::parse(from)
    }
}

/// A query that can be given a parameter: its text parses, and the
/// parameter's name, the components and the filters are identifiers.
pub open spec fn query_accepted(text: Seq<char>) -> bool {
    &&& parse_query(text) is Some
    &&& is_ident(query_name(text))
    &&& all_idents(parse_query(text).unwrap().0)
    &&& all_idents(parse_query(text).unwrap().1)
}

/// Can the query be given a parameter?
pub fn query_text_ok(text: &String) -> (r: bool)
    ensures
        r == query_accepted(text@),
{
    match SystemQuery::parse(text) {
        None => false,
        Some(q) => {
            let name = query_ident_name(text);
            is_identifier(name.as_str()) && all_identifiers(&q.params) && all_identifiers(&q.with)
        },
    }
}

/// The identifier of the system parameter that holds the query `q`.
pub fn query_to_ident(q: &String) -> (r: Token)
    requires
        is_ident(query_name(q@)),
    ensures
        token_view(r) == TokenView::Ident(query_name(q@)),
{
    Token::Ident(query_ident_name(q))
}

/// The name of the system parameter that holds the query `q`.
pub fn query_ident_name(q: &String) -> (r: String)
    ensures
        r@ == query_name(q@),
{
    let words = split_words(q.as_str());
    let ghost ws = strings_view(words@);
    let mut lowered: Vec<String> = Vec::new();
    let mut i: usize = 0;
    while i < words.len()
        invariant
            i <= words.len(),
            ws == strings_view(words@),
            strings_view(lowered@) == ws.take(i as int).map_values(|w: Seq<char>| ascii_lower(w)),
        decreases words.len() - i,
    {
        let ghost before = lowered@;
        let l = ascii_lowercase(words[i].as_str());
        lowered.push(l);
        assert(strings_view(lowered@) =~= strings_view(before).push(ascii_lower(ws[i as int])));
        assert(ws.take(i + 1).map_values(|w: Seq<char>| ascii_lower(w)) =~= ws.take(
            i as int,
        ).map_values(|w: Seq<char>| ascii_lower(w)).push(ascii_lower(ws[i as int])));
        i = i + 1;
    }
    assert(ws.take(i as int) =~= ws);
    let joined = join_strings(&lowered, "_");
    let mut out = "query_".to_string();
    out.append(joined.as_str());
    out
}

/// `query_to_ident` where the parameter's name is an identifier, `None`
/// otherwise.
pub fn try_query_to_ident(q: &String) -> (r: Option<Token>)
    ensures
        r is Some <==> is_ident(query_name(q@)),
        r matches Some(t) ==> token_view(t) == TokenView::Ident(query_name(q@)),
{
    let name = query_ident_name(q);
    if is_identifier(name.as_str()) {
        Some(query_to_ident(q))
    } else {
        None
    }
}

} // verus!
