//! The first difference of two byte strings, on which their lexicographic order rests.
use vstd::prelude::*;

verus! {

/// The first position at which `a` and `o` differ, or at which one of them ends.
pub open spec fn first_diff(a: Seq<u8>, o: Seq<u8>) -> nat
    decreases a.len(),
{
    if a.len() == 0 || o.len() == 0 || a[0] != o[0] {
        0
    } else {
        1 + first_diff(a.drop_first(), o.drop_first())
    }
}

/// At the first difference, the byte of `a` is below the byte of `o`.
pub open spec fn diff_byte_below(a: Seq<u8>, o: Seq<u8>) -> bool {
    a[first_diff(a, o) as int] < o[first_diff(a, o) as int]
}

/// The first difference of two sequences lies where they first stop agreeing.
pub proof fn lemma_first_diff(a: Seq<u8>, o: Seq<u8>, k: int)
    requires
        0 <= k <= a.len(),
        k <= o.len(),
        forall|j: int| 0 <= j < k ==> a[j] == o[j],
        k == a.len() || k == o.len() || a[k] != o[k],
    ensures
        first_diff(a, o) == k,
    decreases k,
{
    if k > 0 {
        lemma_first_diff(a.drop_first(), o.drop_first(), k - 1);
    }
}

/// [lemma_first_diff] for a machine index.
pub proof fn lemma_first_diff_at(a: Seq<u8>, o: Seq<u8>, k: usize)
    requires
        k <= a.len(),
        k <= o.len(),
        forall|j: int| 0 <= j < k ==> a[j] == o[j],
        k == a.len() || k == o.len() || a[k as int] != o[k as int],
    ensures
        first_diff(a, o) == k,
        k < a.len() && k < o.len() ==> (diff_byte_below(a, o) <==> a[k as int] < o[k as int]),
{
    lemma_first_diff(a, o, k as int);
}

/// The two sequences agree before their first difference, and differ or end there.
pub proof fn lemma_first_diff_facts(a: Seq<u8>, o: Seq<u8>)
    ensures
        first_diff(a, o) <= a.len(),
        first_diff(a, o) <= o.len(),
        forall|j: int| 0 <= j < first_diff(a, o) ==> a[j] == o[j],
        first_diff(a, o) == a.len() || first_diff(a, o) == o.len() || a[first_diff(a, o) as int]
            != o[first_diff(a, o) as int],
    decreases a.len(),
{
    if !(a.len() == 0 || o.len() == 0 || a[0] != o[0]) {
        lemma_first_diff_facts(a.drop_first(), o.drop_first());
        assert forall|j: int| 0 <= j < first_diff(a, o) implies a[j] == o[j] by {
            if j > 0 {
                assert(a.drop_first()[j - 1] == a[j]);
                assert(o.drop_first()[j - 1] == o[j]);
            }
        }
    }
}

/// When `h` and `o` differ before `h` ends, appending to `h` changes nothing of it.
pub proof fn lemma_first_diff_prefix(h: Seq<u8>, t: Seq<u8>, o: Seq<u8>)
    requires
        first_diff(h, o) < h.len(),
    ensures
        first_diff(h + t, o) == first_diff(h, o),
        diff_byte_below(h + t, o) == diff_byte_below(h, o),
        first_diff(h, o) < (h + t).len(),
{
    lemma_first_diff_facts(h, o);
    let k = first_diff(h, o) as int;
    assert forall|j: int| 0 <= j < k implies (h + t)[j] == o[j] by {}
    lemma_first_diff(h + t, o, k);
}

/// Where `a` and `o` agree on their first `i` bytes, they differ no sooner.
pub proof fn lemma_first_diff_at_least(a: Seq<u8>, o: Seq<u8>, i: usize)
    requires
        i <= a.len(),
        i <= o.len(),
        forall|j: int| 0 <= j < i ==> a[j] == o[j],
    ensures
        first_diff(a, o) >= i,
{
    lemma_first_diff_facts(a, o);
    let k = first_diff(a, o) as int;
    if k < i {
        assert(a[k] == o[k]);
    }
}

} // verus!
