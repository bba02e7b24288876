//! Small verified helpers on character vectors and capture stores.

use vstd::prelude::*;

verus! {

/// The mathematical view of a capture store: the sequence of captured
/// character sequences.
pub open spec fn store_view(rs: Seq<Vec<char>>) -> Seq<Seq<char>> {
    Seq::new(rs.len(), |i: int| rs[i]@)
}

/// A fresh copy of `v[from..to]`.
pub fn subvec(v: &Vec<char>, from: usize, to: usize) -> (r: Vec<char>)
    requires
        from <= to <= v@.len(),
    ensures
        r@ == v@.subrange(from as int, to as int),
{
    let mut r: Vec<char> = Vec::new();
    let mut i: usize = from;
    while i < to
        invariant
            from <= i <= to <= v@.len(),
            r@ == v@.subrange(from as int, i as int),
        decreases to - i,
    {
        r.push(v[i]);
        i += 1;
        proof {
            assert(r@ =~= v@.subrange(from as int, i as int));
        }
    }
    r
}

/// A fresh copy of a character vector.
pub fn clone_chars(v: &Vec<char>) -> (r: Vec<char>)
    ensures
        r@ == v@,
{
    let r = subvec(v, 0, v.len());
    proof {
        assert(v@.subrange(0, v@.len() as int) =~= v@);
    }
    r
}

/// A fresh copy of `a` followed by `b`.
pub fn concat_chars(a: &Vec<char>, b: &Vec<char>) -> (r: Vec<char>)
    ensures
        r@ == a@ + b@,
{
    let mut r = clone_chars(a);
    let mut j: usize = 0;
    proof {
        assert(a@ + b@.subrange(0, 0) =~= a@);
    }
    while j < b.len()
        invariant
            0 <= j <= b@.len(),
            r@ == a@ + b@.subrange(0, j as int),
        decreases b@.len() - j,
    {
        r.push(b[j]);
        j += 1;
        proof {
            assert(r@ =~= a@ + b@.subrange(0, j as int));
        }
    }
    proof {
        assert(a@ + b@.subrange(0, b@.len() as int) =~= a@ + b@);
    }
    r
}

/// A fresh copy of a capture store.
pub fn clone_refs(v: &Vec<Vec<char>>) -> (r: Vec<Vec<char>>)
    ensures
        store_view(r@) == store_view(v@),
{
    let mut r: Vec<Vec<char>> = Vec::new();
    let mut i: usize = 0;
    while i < v.len()
        invariant
            0 <= i <= v@.len(),
            r@.len() == i,
            forall|k: int| 0 <= k < i ==> r@[k]@ == #[trigger] v@[k]@,
        decreases v@.len() - i,
    {
        let c = clone_chars(&v[i]);
        r.push(c);
        i += 1;
    }
    proof {
        assert(store_view(r@) =~= store_view(v@));
    }
    r
}

} // verus!
