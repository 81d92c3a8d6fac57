//! Facts about sequences used as the key columns of small keyed tables.
//!
//! The registry, the rate limiter and the watcher table all keep their keys
//! in a sequence with no repeats, and find values by `index_of`. These
//! lemmas say that under that discipline `index_of` is exact, and that
//! pushing a fresh key or removing one keeps the keys distinct and leaves
//! every other key findable where expected.

use vstd::prelude::*;

verus! {

/// No element occurs twice.
pub open spec fn distinct_seq<A>(s: Seq<A>) -> bool {
    forall|p: int, q: int| 0 <= p < q < s.len() ==> s[p] != s[q]
}

/// In a sequence with no repeats, `index_of` finds exactly the position an
/// element stands at.
pub proof fn lemma_index_of_distinct<A>(s: Seq<A>, i: int)
    requires
        distinct_seq(s),
        0 <= i < s.len(),
    ensures
        s.contains(s[i]),
        s.index_of(s[i]) == i,
{
    assert(s.contains(s[i]));
    let j = s.index_of(s[i]);
    assert(0 <= j < s.len() && s[j] == s[i]) by {
        assert(s.contains(s[i]));
    }
    if j < i {
        assert(s[j] != s[i]);
    } else if i < j {
        assert(s[i] != s[j]);
    }
}

/// Pushing an element that is not yet present keeps a sequence distinct.
pub proof fn lemma_push_distinct<A>(s: Seq<A>, x: A)
    requires
        distinct_seq(s),
        !s.contains(x),
    ensures
        distinct_seq(s.push(x)),
{
    assert forall|p: int, q: int| 0 <= p < q < s.push(x).len() implies s.push(x)[p] != s.push(x)[q] by {
        if q == s.len() {
            assert(s.push(x)[p] == s[p]);
            assert(s[p] != x) by {
                assert(!(exists|i: int| 0 <= i < s.len() && s[i] == x));
            }
        } else {
            assert(s.push(x)[p] == s[p]);
            assert(s.push(x)[q] == s[q]);
        }
    }
}

/// Removing one element keeps a sequence distinct, and every other element
/// stays findable, one position earlier when it stood past the removal.
pub proof fn lemma_remove_distinct<A>(s: Seq<A>, i: int)
    requires
        distinct_seq(s),
        0 <= i < s.len(),
    ensures
        distinct_seq(s.remove(i)),
        forall|j: int|
            #![auto]
            0 <= j < s.len() && j != i ==> s.remove(i).contains(s[j]) && s.remove(i).index_of(s[j])
                == if j < i {
                j
            } else {
                j - 1
            },
{
    s.remove_ensures(i);
    let t = s.remove(i);
    assert forall|p: int, q: int| 0 <= p < q < t.len() implies t[p] != t[q] by {
        assert(t[p] == if p < i {
            s[p]
        } else {
            s[p + 1]
        });
        assert(t[q] == if q < i {
            s[q]
        } else {
            s[q + 1]
        });
    }
    assert forall|j: int| #![auto] 0 <= j < s.len() && j != i implies t.contains(s[j])
        && t.index_of(s[j]) == if j < i {
        j
    } else {
        j - 1
    } by {
        let k = if j < i {
            j
        } else {
            j - 1
        };
        assert(t[k] == s[j]);
        assert(t.contains(s[j]));
        lemma_index_of_distinct(t, k);
    }
}

} // verus!
