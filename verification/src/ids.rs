//! Lists of record identifiers and their membership.

use vstd::prelude::*;

verus! {

/// The texts of a list of identifiers.
pub open spec fn texts(v: Seq<String>) -> Seq<Seq<char>> {
    v.map_values(|s: String| s@)
}

/// Whether the identifier list `v` holds `id`.
pub fn holds_id(v: &Vec<String>, id: &str) -> (r: bool)
    ensures
        r == texts(v@).contains(id@),
{
    let mut i: usize = 0;
    while i < v.len()
        invariant
            i <= v.len(),
            forall|j: int| 0 <= j < i ==> v@[j]@ != id@,
        decreases v.len() - i,
    {
        if crate::text::str_eq(v[i].as_str(), id) {
            assert(texts(v@)[i as int] == id@);
            return true;
        }
        i = i + 1;
    }
    assert(!texts(v@).contains(id@)) by {
        if texts(v@).contains(id@) {
            let k = choose|k: int| 0 <= k < texts(v@).len() && texts(v@)[k] == id@;
            assert(v@[k]@ == id@);
        }
    }
    false
}

/// Whether every identifier of `a` is one of `b`.
pub fn all_held(a: &Vec<String>, b: &Vec<String>) -> (r: bool)
    ensures
        r == (forall|x: Seq<char>| texts(a@).contains(x) ==> texts(b@).contains(x)),
{
    let mut i: usize = 0;
    while i < a.len()
        invariant
            i <= a.len(),
            forall|j: int| 0 <= j < i ==> texts(b@).contains(#[trigger] texts(a@)[j]),
        decreases a.len() - i,
    {
        if !holds_id(b, a[i].as_str()) {
            assert(texts(a@)[i as int] == a@[i as int]@);
            assert(texts(a@).contains(a@[i as int]@));
            return false;
        }
        i = i + 1;
    }
    assert forall|x: Seq<char>| texts(a@).contains(x) implies texts(b@).contains(x) by {
        let k = choose|k: int| 0 <= k < texts(a@).len() && texts(a@)[k] == x;
        assert(texts(b@).contains(texts(a@)[k]));
    }
    true
}

/// A copy of an identifier list.
pub fn copy_ids(v: &Vec<String>) -> (r: Vec<String>)
    ensures
        texts(r@) == texts(v@),
{
    let mut r: Vec<String> = Vec::new();
    let mut i: usize = 0;
    while i < v.len()
        invariant
            i <= v.len(),
            r@.len() == i,
            forall|j: int| 0 <= j < i ==> #[trigger] r@[j]@ == v@[j]@,
        decreases v.len() - i,
    {
        r.push(crate::text::owned(v[i].as_str()));
        i = i + 1;
    }
    assert(texts(r@) =~= texts(v@));
    r
}

} // verus!
