//! Named tables: sequences of (name, value) pairs in which no name occurs twice,
//! read as maps from names to values.
use vstd::prelude::*;

verus! {

/// The map that a sequence of (name, value) pairs describes; later pairs win.
pub open spec fn assoc_to_map<A>(s: Seq<(Seq<u8>, A)>) -> Map<Seq<u8>, A>
    decreases s.len(),
{
    if s.len() == 0 {
        Map::empty()
    } else {
        assoc_to_map(s.drop_last()).insert(s.last().0, s.last().1)
    }
}

/// No name occurs twice.
pub open spec fn keys_unique<A>(s: Seq<(Seq<u8>, A)>) -> bool {
    forall|i: int, j: int| 0 <= i < s.len() && 0 <= j < s.len() && i != j ==> s[i].0 != s[j].0
}

/// A key is in the map of a list of pairs exactly when some pair has it.
pub proof fn lemma_assoc_dom<A>(s: Seq<(Seq<u8>, A)>, k: Seq<u8>)
    ensures
        assoc_to_map(s).contains_key(k) <==> exists|j: int| 0 <= j < s.len() && s[j].0 == k,
    decreases s.len(),
{
    if s.len() > 0 {
        lemma_assoc_dom(s.drop_last(), k);
        if assoc_to_map(s).contains_key(k) {
            if k == s.last().0 {
                assert(s[s.len() - 1].0 == k);
            } else {
                let j = choose|j: int| 0 <= j < s.drop_last().len() && s.drop_last()[j].0 == k;
                assert(s[j].0 == k);
            }
        }
        if exists|j: int| 0 <= j < s.len() && s[j].0 == k {
            let j = choose|j: int| 0 <= j < s.len() && s[j].0 == k;
            if j < s.len() - 1 {
                assert(s.drop_last()[j].0 == k);
            }
        }
    }
}

/// With unique keys, each pair of the list is in its map.
pub proof fn lemma_assoc_value<A>(s: Seq<(Seq<u8>, A)>, j: int)
    requires
        keys_unique(s),
        0 <= j < s.len(),
    ensures
        assoc_to_map(s).contains_key(s[j].0),
        assoc_to_map(s)[s[j].0] == s[j].1,
    decreases s.len(),
{
    if j < s.len() - 1 {
        let t = s.drop_last();
        assert(keys_unique(t)) by {
            assert forall|a: int, b: int| 0 <= a < t.len() && 0 <= b < t.len() && a != b implies t[a].0
                != t[b].0 by {
                assert(t[a] == s[a] && t[b] == s[b]);
            }
        }
        lemma_assoc_value(t, j);
        assert(s[j].0 != s[s.len() - 1].0);
        assert(t[j] == s[j]);
    }
}

/// Replacing the value of a pair updates the map and keeps the keys unique.
pub proof fn lemma_assoc_update<A>(s: Seq<(Seq<u8>, A)>, j: int, v: A)
    requires
        keys_unique(s),
        0 <= j < s.len(),
    ensures
        assoc_to_map(s.update(j, (s[j].0, v))) == assoc_to_map(s).insert(s[j].0, v),
        keys_unique(s.update(j, (s[j].0, v))),
    decreases s.len(),
{
    let u = s.update(j, (s[j].0, v));
    let k = s[j].0;
    if j == s.len() - 1 {
        assert(u.drop_last() =~= s.drop_last());
        assert(assoc_to_map(u) =~= assoc_to_map(s).insert(k, v));
    } else {
        let t = s.drop_last();
        assert(keys_unique(t)) by {
            assert forall|a: int, b: int| 0 <= a < t.len() && 0 <= b < t.len() && a != b implies t[a].0
                != t[b].0 by {
                assert(t[a] == s[a] && t[b] == s[b]);
            }
        }
        lemma_assoc_update(t, j, v);
        assert(u.drop_last() =~= t.update(j, (t[j].0, v)));
        assert(s.last().0 != k);
        assert(assoc_to_map(u) =~= assoc_to_map(s).insert(k, v));
    }
    assert(keys_unique(u)) by {
        assert forall|a: int, b: int| 0 <= a < u.len() && 0 <= b < u.len() && a != b implies u[a].0
            != u[b].0 by {
            assert(u[a].0 == s[a].0 && u[b].0 == s[b].0);
        }
    }
}

/// Appending a pair with a new key inserts it in the map and keeps the keys unique.
pub proof fn lemma_assoc_push<A>(s: Seq<(Seq<u8>, A)>, k: Seq<u8>, v: A)
    requires
        keys_unique(s),
        forall|j: int| 0 <= j < s.len() ==> s[j].0 != k,
    ensures
        assoc_to_map(s.push((k, v))) == assoc_to_map(s).insert(k, v),
        keys_unique(s.push((k, v))),
{
    assert(s.push((k, v)).drop_last() =~= s);
}

/// Whether the two byte strings are equal.
pub fn bytes_eq(a: &[u8], b: &[u8]) -> (r: bool)
    ensures
        r == (a@ == b@),
{
    if a.len() != b.len() {
        return false;
    }
    let n = a.len();
    let mut i: usize = 0;
    while i < n
        invariant
            n == a@.len(),
            n == b@.len(),
            i <= n,
            forall|j: int| 0 <= j < i ==> a@[j] == b@[j],
        decreases n - i,
    {
        if a[i] != b[i] {
            return false;
        }
        i = i + 1;
    }
    assert(a@ =~= b@);
    true
}

/// The position of the pair named `key`, if any.
pub fn find_key<T>(entries: &Vec<(Vec<u8>, T)>, key: &[u8]) -> (r: Option<usize>)
    ensures
        r matches Some(j) ==> j < entries@.len() && entries@[j as int].0@ == key@,
        r is None ==> forall|j: int| 0 <= j < entries@.len() ==> entries@[j].0@ != key@,
{
    let n = entries.len();
    let mut i: usize = 0;
    while i < n
        invariant
            n == entries@.len(),
            i <= n,
            forall|j: int| 0 <= j < i ==> entries@[j].0@ != key@,
        decreases n - i,
    {
        if bytes_eq(entries[i].0.as_slice(), key) {
            return Some(i);
        }
        i = i + 1;
    }
    None
}

} // verus!
