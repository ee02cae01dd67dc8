//! Enumeration results: each backend turns the raw entries it finds into
//! port identities, dropping the entries that name no port.
use vstd::prelude::*;

verus! {

/// The results of `f` on the elements of `s`, in order, leaving out those
/// for which `f` gives `None`.
pub open spec fn filter_map<A, B>(s: Seq<A>, f: spec_fn(A) -> Option<B>) -> Seq<B>
    decreases s.len(),
{
    if s.len() == 0 {
        Seq::empty()
    } else {
        let rest = filter_map(s.drop_last(), f);
        match f(s.last()) {
            Some(b) => rest.push(b),
            None => rest,
        }
    }
}

/// `x` is in the result exactly when some element of `s` maps to it.
pub proof fn lemma_filter_map_contains<A, B>(s: Seq<A>, f: spec_fn(A) -> Option<B>, x: B)
    ensures
        filter_map(s, f).contains(x) <==> exists|i: int| 0 <= i < s.len() && f(s[i]) == Some(x),
    decreases s.len(),
{
    if s.len() > 0 {
        let p = s.drop_last();
        lemma_filter_map_contains(p, f, x);
        let r = filter_map(s, f);
        let rp = filter_map(p, f);
        if filter_map(s, f).contains(x) {
            let j = choose|j: int| 0 <= j < r.len() && r[j] == x;
            if j < rp.len() {
                assert(rp[j] == x);
                let i = choose|i: int| 0 <= i < p.len() && f(p[i]) == Some(x);
                assert(s[i] == p[i]);
            } else {
                assert(f(s[s.len() - 1]) == Some(x));
            }
        }
        if exists|i: int| 0 <= i < s.len() && f(s[i]) == Some(x) {
            let i = choose|i: int| 0 <= i < s.len() && f(s[i]) == Some(x);
            if i < s.len() - 1 {
                assert(p[i] == s[i]);
                assert(rp.contains(x));
                let j = choose|j: int| 0 <= j < rp.len() && rp[j] == x;
                assert(r[j] == x);
            } else {
                assert(r[r.len() - 1] == x);
            }
        }
    }
}

/// Two runs over the same set of entries, in whatever order, give the same
/// set of results.
pub proof fn lemma_filter_map_same_set<A, B>(a: Seq<A>, b: Seq<A>, f: spec_fn(A) -> Option<B>)
    requires
        a.to_set() == b.to_set(),
    ensures
        filter_map(a, f).to_set() == filter_map(b, f).to_set(),
{
    assert forall|x: B| filter_map(a, f).to_set().contains(x) <==> filter_map(b, f).to_set().contains(x) by {
        lemma_filter_map_contains(a, f, x);
        lemma_filter_map_contains(b, f, x);
        if exists|i: int| 0 <= i < a.len() && f(a[i]) == Some(x) {
            let i = choose|i: int| 0 <= i < a.len() && f(a[i]) == Some(x);
            assert(a.to_set().contains(a[i]));
            assert(b.to_set().contains(a[i]));
            let k = choose|k: int| 0 <= k < b.len() && b[k] == a[i];
            assert(f(b[k]) == Some(x));
        }
        if exists|i: int| 0 <= i < b.len() && f(b[i]) == Some(x) {
            let i = choose|i: int| 0 <= i < b.len() && f(b[i]) == Some(x);
            assert(b.to_set().contains(b[i]));
            assert(a.to_set().contains(b[i]));
            let k = choose|k: int| 0 <= k < a.len() && a[k] == b[i];
            assert(f(a[k]) == Some(x));
        }
    }
    assert(filter_map(a, f).to_set() =~= filter_map(b, f).to_set());
}

} // verus!
