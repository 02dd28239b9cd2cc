//! Lookups in tables of string pairs, the first matching pair winning.

use vstd::prelude::*;

verus! {

/// The value of the first pair whose key is `k`.
pub open spec fn lookup_first(t: Seq<(Seq<char>, Seq<char>)>, k: Seq<char>) -> Option<Seq<char>>
    decreases t.len(),
{
    if t.len() == 0 {
        None
    } else if t[0].0 == k {
        Some(t[0].1)
    } else {
        lookup_first(t.drop_first(), k)
    }
}

/// The key of the last pair whose value is `v`: the reverse of a table
/// built by inserting its pairs in order, a later pair replacing an
/// earlier one.
pub open spec fn lookup_last_by_value(t: Seq<(Seq<char>, Seq<char>)>, v: Seq<char>) -> Option<
    Seq<char>,
>
    decreases t.len(),
{
    if t.len() == 0 {
        None
    } else if t.last().1 == v {
        Some(t.last().0)
    } else {
        lookup_last_by_value(t.drop_last(), v)
    }
}


pub proof fn lemma_lookup_first_is_entry(t: Seq<(Seq<char>, Seq<char>)>, k: Seq<char>)
    ensures
        lookup_first(t, k) matches Some(v) ==> exists|i: int| 0 <= i < t.len() && #[trigger] t[i].1 == v,
    decreases t.len(),
{
    if t.len() > 0 && t[0].0 != k {
        lemma_lookup_first_is_entry(t.drop_first(), k);
        if let Some(v) = lookup_first(t, k) {
            let i = choose|i: int| 0 <= i < t.drop_first().len() && #[trigger] t.drop_first()[i].1 == v;
            assert(t[i + 1].1 == v);
        }
    } else if t.len() > 0 {
        assert(t[0].1 == t[0].1);
    }
}

pub proof fn lemma_lookup_last_is_entry(t: Seq<(Seq<char>, Seq<char>)>, v: Seq<char>)
    ensures
        lookup_last_by_value(t, v) matches Some(k) ==> exists|i: int| 0 <= i < t.len() && #[trigger] t[i].0 == k,
    decreases t.len(),
{
    if t.len() > 0 && t.last().1 != v {
        lemma_lookup_last_is_entry(t.drop_last(), v);
        if let Some(k) = lookup_last_by_value(t, v) {
            let i = choose|i: int| 0 <= i < t.drop_last().len() && #[trigger] t.drop_last()[i].0 == k;
            assert(t[i].0 == k);
        }
    } else if t.len() > 0 {
        assert(t[t.len() - 1].0 == t.last().0);
    }
}


/// The first pair with key `k` gives the lookup its value.
pub proof fn lemma_lookup_first_found(t: Seq<(Seq<char>, Seq<char>)>, k: Seq<char>)
    ensures
        lookup_first(t, k) matches Some(v) ==> exists|i: int|
            0 <= i < t.len() && (#[trigger] t[i]).0 == k && t[i].1 == v,
        lookup_first(t, k) is None ==> forall|i: int| 0 <= i < t.len() ==> (#[trigger] t[i]).0 != k,
    decreases t.len(),
{
    if t.len() > 0 {
        if t[0].0 == k {
            assert(t[0].1 == t[0].1);
        } else {
            let u = t.drop_first();
            lemma_lookup_first_found(u, k);
            if let Some(v) = lookup_first(t, k) {
                let i = choose|i: int| 0 <= i < u.len() && (#[trigger] u[i]).0 == k && u[i].1 == v;
                assert(t[i + 1] == u[i]);
            } else {
                assert forall|i: int| 0 <= i < t.len() implies (#[trigger] t[i]).0 != k by {
                    if i > 0 {
                        assert(t[i] == u[i - 1]);
                    }
                }
            }
        }
    }
}

/// In a table whose keys are distinct, the lookup of an entry's key gives
/// that entry's value.
pub proof fn lemma_lookup_first_distinct(t: Seq<(Seq<char>, Seq<char>)>, i: int)
    requires
        0 <= i < t.len(),
        forall|a: int, b: int| 0 <= a < b < t.len() ==> (#[trigger] t[a]).0 != (#[trigger] t[b]).0,
    ensures
        lookup_first(t, t[i].0) == Some(t[i].1),
    decreases t.len(),
{
    if i > 0 {
        let u = t.drop_first();
        assert(t[0].0 != t[i].0);
        assert(u[i - 1] == t[i]);
        assert forall|a: int, b: int| 0 <= a < b < u.len() implies (#[trigger] u[a]).0 != (
        #[trigger] u[b]).0 by {
            assert(u[a] == t[a + 1] && u[b] == t[b + 1]);
        }
        lemma_lookup_first_distinct(u, i - 1);
    }
}

/// The lookup by value gives the key of the last pair with that value.
pub proof fn lemma_lookup_last_found(t: Seq<(Seq<char>, Seq<char>)>, v: Seq<char>)
    ensures
        lookup_last_by_value(t, v) matches Some(k) ==> exists|j: int|
            0 <= j < t.len() && (#[trigger] t[j]).0 == k && t[j].1 == v && forall|m: int|
                j < m < t.len() ==> t[m].1 != v,
        lookup_last_by_value(t, v) is None ==> forall|j: int|
            0 <= j < t.len() ==> (#[trigger] t[j]).1 != v,
    decreases t.len(),
{
    if t.len() > 0 {
        let n = t.len() - 1;
        if t.last().1 == v {
            assert(t[n] == t.last());
        } else {
            let u = t.drop_last();
            lemma_lookup_last_found(u, v);
            if let Some(k) = lookup_last_by_value(t, v) {
                let j = choose|j: int|
                    0 <= j < u.len() && (#[trigger] u[j]).0 == k && u[j].1 == v && forall|m: int|
                        j < m < u.len() ==> u[m].1 != v;
                assert(t[j] == u[j]);
                assert forall|m: int| j < m < t.len() implies t[m].1 != v by {
                    if m < n {
                        assert(t[m] == u[m]);
                    }
                }
            } else {
                assert forall|j: int| 0 <= j < t.len() implies (#[trigger] t[j]).1 != v by {
                    if j < n {
                        assert(t[j] == u[j]);
                    }
                }
            }
        }
    }
}

} // verus!
