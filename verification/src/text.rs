//! Text helpers: comparing, splitting, joining and lower-casing names.
use vstd::prelude::*;

verus! {

/// The views of a sequence of strings.
pub open spec fn strings_view(v: Seq<String>) -> Seq<Seq<char>> {
    v.map_values(|s: String| s@)
}

/// `s` split at every space, as `str::split(" ")` splits it: the pieces
/// between spaces, empty ones included, so that there is always one more
/// piece than there are spaces.
pub open spec fn split_spaces(s: Seq<char>) -> Seq<Seq<char>>
    decreases s.len(),
{
    if s.len() == 0 {
        seq![Seq::empty()]
    } else {
        let words = split_spaces(s.drop_last());
        if s.last() == ' ' {
            words.push(Seq::empty())
        } else {
            words.update(words.len() - 1, words.last().push(s.last()))
        }
    }
}

/// The pieces joined together, with `sep` between each two of them.
pub open spec fn join_with(ws: Seq<Seq<char>>, sep: Seq<char>) -> Seq<char>
    decreases ws.len(),
{
    if ws.len() == 0 {
        Seq::empty()
    } else if ws.len() == 1 {
        ws[0]
    } else {
        join_with(ws.drop_last(), sep) + sep + ws.last()
    }
}

/// A character lower-cased as ASCII: `A` to `Z` become `a` to `z`, all else
/// stays.
pub open spec fn ascii_lower_char(c: char) -> char {
    if 'A' <= c && c <= 'Z' {
        ((c as u32) + 32) as char
    } else {
        c
    }
}

pub open spec fn ascii_lower(s: Seq<char>) -> Seq<char> {
    s.map_values(|c: char| ascii_lower_char(c))
}

/// What `str::to_lowercase` returns for a string.
pub uninterp spec fn unicode_lowercase(s: Seq<char>) -> Seq<char>;

/// `str::to_lowercase`: the string lower-cased by the Unicode rules. The
/// contract claims that the result is a function of the text alone; what it
/// does to each character is left unsaid.
#[verifier::external_body]
pub fn to_lowercase(s: &str) -> (r: String)
    ensures
        r@ == unicode_lowercase(s@),
{
    s.to_lowercase()
}

/// `String::push`: appends one character.
#[verifier::external_body]
pub fn push_char(s: &mut String, c: char)
    ensures
        final(s)@ == old(s)@.push(c),
{
    s.push(c)
}

/// Do the two texts hold the same characters?
pub fn str_eq(a: &str, b: &str) -> (r: bool)
    ensures
        r == (a@ == b@),
{
    let n = a.unicode_len();
    let m = b.unicode_len();
    if n != m {
        return false;
    }
    let mut i: usize = 0;
    while i < n
        invariant
            n == a@.len(),
            m == b@.len(),
            n == m,
            i <= n,
            forall|j: int| 0 <= j < i ==> a@[j] == b@[j],
        decreases n - i,
    {
        if a.get_char(i) != b.get_char(i) {
            return false;
        }
        i = i + 1;
    }
    assert(a@ =~= b@);
    true
}

/// Appends `s` to `out`.
pub fn append_str(out: &mut String, s: &str)
    ensures
        final(out)@ == old(out)@ + s@,
{
    out.append(s);
}

/// The pieces of `s` between spaces, as `str::split(" ")` yields them.
pub fn split_words(s: &str) -> (r: Vec<String>)
    ensures
        strings_view(r@) == split_spaces(s@),
{
    let n = s.unicode_len();
    let mut words: Vec<String> = Vec::new();
    let mut cur = String::new();
    let mut i: usize = 0;
    assert(s@.take(0) =~= Seq::<char>::empty());
    while i < n
        invariant
            n == s@.len(),
            i <= n,
            strings_view(words@).push(cur@) == split_spaces(s@.take(i as int)),
        decreases n - i,
    {
        let c = s.get_char(i);
        let ghost prev = s@.take(i as int);
        assert(s@.take(i + 1).drop_last() =~= prev);
        if c == ' ' {
            let ghost prev_words = words@;
            let ghost d = cur@;
            words.push(cur);
            cur = String::new();
            assert(strings_view(words@) =~= strings_view(prev_words).push(d));
        } else {
            push_char(&mut cur, c);
        }
        proof {
            let w = split_spaces(prev);
            if c == ' ' {
                assert(strings_view(words@).push(cur@) =~= w.push(Seq::empty()));
            } else {
                assert(strings_view(words@).push(cur@) =~= w.update(
                    w.len() - 1,
                    w.last().push(c),
                ));
            }
        }
        i = i + 1;
    }
    words.push(cur);
    assert(s@.take(n as int) =~= s@);
    assert(strings_view(words@) =~= split_spaces(s@));
    words
}

/// `s` lower-cased as ASCII.
pub fn ascii_lowercase(s: &str) -> (r: String)
    ensures
        r@ == ascii_lower(s@),
{
    let n = s.unicode_len();
    let mut out = String::new();
    let mut i: usize = 0;
    while i < n
        invariant
            n == s@.len(),
            i <= n,
            out@ == ascii_lower(s@.take(i as int)),
        decreases n - i,
    {
        let c = s.get_char(i);
        let l = if 'A' <= c && c <= 'Z' {
            let b = c as u8;
            (b + 32) as char
        } else {
            c
        };
        assert(l == ascii_lower_char(c));
        push_char(&mut out, l);
        assert(ascii_lower(s@.take(i + 1)) =~= ascii_lower(s@.take(i as int)).push(l));
        i = i + 1;
    }
    assert(s@.take(n as int) =~= s@);
    out
}

/// The pieces joined with `sep` between each two of them.
pub fn join_strings(ws: &Vec<String>, sep: &str) -> (r: String)
    ensures
        r@ == join_with(strings_view(ws@), sep@),
{
    let mut out = String::new();
    let mut i: usize = 0;
    assert(strings_view(ws@).take(0) =~= Seq::<Seq<char>>::empty());
    while i < ws.len()
        invariant
            i <= ws.len(),
            out@ == join_with(strings_view(ws@).take(i as int), sep@),
        decreases ws.len() - i,
    {
        let ghost before = strings_view(ws@).take(i as int);
        assert(strings_view(ws@).take(i + 1).drop_last() =~= before);
        if i > 0 {
            append_str(&mut out, sep);
        }
        append_str(&mut out, ws[i].as_str());
        if i == 0 {
            assert(out@ =~= join_with(strings_view(ws@).take(1), sep@));
        }
        i = i + 1;
    }
    assert(strings_view(ws@).take(ws.len() as int) =~= strings_view(ws@));
    out
}

} // verus!
