//! Identifiers: the names that `Ident::new` accepts.
use vstd::prelude::*;

verus! {

/// What `unicode_ident::is_xid_start` returns for a character.
pub uninterp spec fn xid_start(c: char) -> bool;

/// What `unicode_ident::is_xid_continue` returns for a character.
pub uninterp spec fn xid_continue(c: char) -> bool;

/// `unicode_ident::is_xid_start`: whether the character has the Unicode
/// property XID_Start.  The contract claims only that the answer is a
/// function of the character; the property's table is left unsaid.
#[verifier::external_body]
fn is_xid_start(c: char) -> (r: bool)
    ensures
        r == xid_start(c),
{
    unicode_ident::is_xid_start(c)
}

/// `unicode_ident::is_xid_continue`: whether the character has the Unicode
/// property XID_Continue.  The contract claims only that the answer is a
/// function of the character; the property's table is left unsaid.
#[verifier::external_body]
fn is_xid_continue(c: char) -> (r: bool)
    ensures
        r == xid_continue(c),
{
    unicode_ident::is_xid_continue(c)
}

/// An identifier: not empty, opening with `_` or an XID_Start character,
/// going on with XID_Continue characters.  Those are the names that
/// `Ident::new` takes; it panics on any other.
pub open spec fn is_ident(s: Seq<char>) -> bool {
    &&& s.len() > 0
    &&& (s[0] == '_' || xid_start(s[0]))
    &&& forall|i: int| 1 <= i < s.len() ==> xid_continue(#[trigger] s[i])
}

/// Every name of the list is an identifier.
pub open spec fn all_idents(ws: Seq<Seq<char>>) -> bool {
    forall|k: int| 0 <= k < ws.len() ==> is_ident(#[trigger] ws[k])
}

/// Is the text an identifier?
pub fn is_identifier(s: &str) -> (r: bool)
    ensures
        r == is_ident(s@),
{
    let n = s.unicode_len();
    if n == 0 {
        return false;
    }
    let first = s.get_char(0);
    if !(first == '_' || is_xid_start(first)) {
        return false;
    }
    let mut i: usize = 1;
    while i < n
        invariant
            n == s@.len(),
            1 <= i <= n,
            forall|j: int| 1 <= j < i ==> xid_continue(#[trigger] s@[j]),
        decreases n - i,
    {
        let c = s.get_char(i);
        if !is_xid_continue(c) {
            return false;
        }
        i = i + 1;
    }
    true
}

/// Is every string of the list an identifier?
pub fn all_identifiers(ws: &Vec<String>) -> (r: bool)
    ensures
        r == all_idents(crate::text::strings_view(ws@)),
{
    let mut i: usize = 0;
    while i < ws.len()
        invariant
            i <= ws.len(),
            forall|k: int| 0 <= k < i ==> is_ident(#[trigger] ws@[k]@),
        decreases ws.len() - i,
    {
        if !is_identifier(ws[i].as_str()) {
            assert(crate::text::strings_view(ws@)[i as int] == ws@[i as int]@);
            return false;
        }
        i = i + 1;
    }
    assert forall|k: int| 0 <= k < crate::text::strings_view(ws@).len() implies is_ident(
        #[trigger] crate::text::strings_view(ws@)[k],
    ) by {
        assert(crate::text::strings_view(ws@)[k] == ws@[k]@);
    }
    true
}

} // verus!
