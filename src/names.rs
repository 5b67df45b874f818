//! Resource names: `collection_id/document_id`.
use vstd::prelude::*;
use crate::token::string_from_chars;

verus! {

/// `p` is the first `/` in `s`.
pub open spec fn is_first_slash(s: Seq<char>, p: int) -> bool {
    &&& 0 <= p < s.len()
    &&& s[p] == '/'
    &&& forall|j: int| 0 <= j < p ==> s[j] != '/'
}

/// Splits a resource name at its first `/` into a collection id and a
/// document id, both non-empty (the document id may hold further `/`).
///
/// Returns `None` for a name without `/` or with an empty part.
pub fn parse_name(name: &str) -> (r: Option<(String, String)>)
    ensures
        r is Some <==> exists|p: int| is_first_slash(name@, p) && 0 < p && p + 1 < name@.len(),
        r matches Some((c, d)) ==> exists|p: int|
            is_first_slash(name@, p) && c@ == name@.subrange(0, p) && d@ == name@.subrange(
                p + 1,
                name@.len() as int,
            ),
{
    let chars = crate::lexer::chars_of(name);
    let mut p: usize = 0;
    while p < chars.len() && chars[p] != '/'
        invariant
            chars@ == name@,
            p <= chars@.len(),
            forall|j: int| 0 <= j < p ==> chars@[j] != '/',
        decreases chars@.len() - p,
    {
        p = p + 1;
    }
    assert forall|q: int| is_first_slash(name@, q) implies q == p by {
        if q < p {
            assert(chars@[q] != '/');
        } else if q > p {
            assert(name@[p as int] != '/');
        }
    }
    if p == chars.len() || p == 0 || p + 1 >= chars.len() {
        return None;
    }
    let collection = string_from_chars(vstd::slice::slice_subrange(chars.as_slice(), 0, p));
    let doc = string_from_chars(vstd::slice::slice_subrange(chars.as_slice(), p + 1, chars.len()));
    assert(is_first_slash(name@, p as int));
    Some((collection, doc))
}

} // verus!
