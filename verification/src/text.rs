//! Helpers on strings, and the calls into std that format the library's messages.

use vstd::prelude::*;

verus! {

/// Whether two byte sequences are equal, element by element.
pub fn bytes_eq(x: &[u8], y: &[u8]) -> (r: bool)
    ensures
        r == (x@ == y@),
{
    if x.len() != y.len() {
        return false;
    }
    let mut i: usize = 0;
    while i < x.len()
        invariant
            x@.len() == y@.len(),
            i <= x@.len(),
            forall|j: int| 0 <= j < i ==> x@[j] == y@[j],
        decreases x@.len() - i,
    {
        if x[i] != y[i] {
            return false;
        }
        i = i + 1;
    }
    assert(x@ =~= y@);
    true
}

/// Whether two string slices hold the same characters.
pub fn str_eq(a: &str, b: &str) -> (r: bool)
    ensures
        r == (a@ == b@),
{
    let x = a.as_bytes();
    let y = b.as_bytes();
    let same = bytes_eq(x, y);
    proof {
        vstd::utf8::encode_utf8_decode_utf8(a@);
        vstd::utf8::encode_utf8_decode_utf8(b@);
    }
    same
}

/// A fresh `String` holding the characters of `s`.
pub fn owned(s: &str) -> (r: String)
    ensures
        r@ == s@,
{
    s.to_owned()
}

/// The concatenation of `a` and `b`.
pub fn concat(a: &str, b: &str) -> (r: String)
    ensures
        r@ == a@ + b@,
{
    let mut r = owned(a);
    r.append(b);
    r
}

/// What `str::to_lowercase` gives for a text (Unicode lowercase mapping).
pub uninterp spec fn std_lowercase(s: Seq<char>) -> Seq<char>;

/// What `format!("{:?}", s)` gives for a string slice: the text quoted and escaped.
pub uninterp spec fn std_debug_str(s: Seq<char>) -> Seq<char>;


/// Calls `str::to_lowercase`. Claimed: the result is a function of the text alone.
#[verifier::external_body]
pub(crate) fn to_lowercase(s: &str) -> (r: String)
    ensures
        r@ == std_lowercase(s@),
{
    s.to_lowercase()
}

/// Formats a string slice with its `Debug` impl. Claimed: the result is a function of the
/// text alone.
#[verifier::external_body]
pub(crate) fn debug_str(s: &str) -> (r: String)
    ensures
        r@ == std_debug_str(s@),
{
    format!("{:?}", s)
}

/// The `Debug` texts of the items, separated by `, `.
pub open spec fn debug_items(items: Seq<Seq<char>>) -> Seq<char>
    decreases items.len(),
{
    if items.len() == 0 {
        Seq::empty()
    } else if items.len() == 1 {
        std_debug_str(items[0])
    } else {
        debug_items(items.drop_last()) + ", "@ + std_debug_str(items.last())
    }
}

/// What `format!("{:?}", v)` gives for a list of string slices: the items' `Debug` texts
/// between `[` and `]`, separated by `, `.
pub open spec fn debug_list(items: Seq<Seq<char>>) -> Seq<char> {
    "["@ + debug_items(items) + "]"@
}

/// Formats a list of string slices as their `Debug` impl does.
pub(crate) fn debug_str_list(items: &[&str]) -> (r: String)
    ensures
        r@ == debug_list(items@.map_values(|s: &str| s@)),
{
    let ghost views = items@.map_values(|s: &str| s@);
    let mut r = owned("[");
    let mut i: usize = 0;
    while i < items.len()
        invariant
            i <= items@.len(),
            views == items@.map_values(|s: &str| s@),
            r@ == "["@ + debug_items(views.take(i as int)),
        decreases items@.len() - i,
    {
        let ghost before = r@;
        if i > 0 {
            r.append(", ");
        }
        let d = debug_str(items[i]);
        r.append(d.as_str());
        proof {
            let t = views.take(i + 1);
            assert(t.drop_last() =~= views.take(i as int));
            assert(t.last() == views[i as int]);
            if i == 0 {
                assert(views.take(0) =~= Seq::<Seq<char>>::empty());
                assert(r@ =~= "["@ + debug_items(t));
            } else {
                assert(r@ =~= "["@ + debug_items(t));
            }
        }
        i = i + 1;
    }
    r.append("]");
    assert(views.take(items@.len() as int) =~= views);
    r
}

} // verus!
