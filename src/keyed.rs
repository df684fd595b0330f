//! Small association lists keyed by account address.
use vstd::prelude::*;

verus! {

/// One account's entry in an association list.
pub struct Entry<V> {
    pub key: String,
    pub val: V,
}

/// Position of the last entry whose key is `k`, or -1 when there is none.
pub open spec fn index_of<V>(s: Seq<Entry<V>>, k: Seq<char>) -> int
    decreases s.len(),
{
    if s.len() == 0 {
        -1
    } else if s.last().key@ == k {
        s.len() - 1
    } else {
        index_of(s.drop_last(), k)
    }
}

/// No two entries share a key.
pub open spec fn keys_unique<V>(s: Seq<Entry<V>>) -> bool {
    forall|i: int, j: int|
        0 <= i < s.len() && 0 <= j < s.len() && i != j ==> s[i].key@ != s[j].key@
}

pub proof fn lemma_index_of_bounds<V>(s: Seq<Entry<V>>, k: Seq<char>)
    ensures
        -1 <= index_of(s, k) < s.len(),
        index_of(s, k) >= 0 ==> s[index_of(s, k)].key@ == k,
        index_of(s, k) == -1 ==> forall|i: int| 0 <= i < s.len() ==> s[i].key@ != k,
    decreases s.len(),
{
    if s.len() > 0 {
        lemma_index_of_bounds(s.drop_last(), k);
        assert forall|i: int| 0 <= i < s.len() - 1 implies s[i] == s.drop_last()[i] by {}
    }
}

pub proof fn lemma_index_of_unique<V>(s: Seq<Entry<V>>, i: int)
    requires
        keys_unique(s),
        0 <= i < s.len(),
    ensures
        index_of(s, s[i].key@) == i,
    decreases s.len(),
{
    if i < s.len() - 1 {
        lemma_index_of_unique(s.drop_last(), i);
    }
}

/// Replacing the value at a position keeps every key where it was.
pub proof fn lemma_index_of_update<V>(s: Seq<Entry<V>>, i: int, e: Entry<V>, k: Seq<char>)
    requires
        0 <= i < s.len(),
        e.key@ == s[i].key@,
    ensures
        index_of(s.update(i, e), k) == index_of(s, k),
    decreases s.len(),
{
    let t = s.update(i, e);
    if i < s.len() - 1 {
        assert(t.drop_last() =~= s.drop_last().update(i, e));
        lemma_index_of_update(s.drop_last(), i, e, k);
    } else {
        assert(t.drop_last() =~= s.drop_last());
    }
}

pub proof fn lemma_index_of_push<V>(s: Seq<Entry<V>>, e: Entry<V>, k: Seq<char>)
    ensures
        index_of(s.push(e), k) == if e.key@ == k { s.len() as int } else { index_of(s, k) },
{
    assert(s.push(e).drop_last() =~= s);
}

/// Finds the last entry whose key is `k`.
pub fn find<V>(v: &Vec<Entry<V>>, k: &String) -> (r: Option<usize>)
    ensures
        match r {
            Some(i) => i < v@.len() && i as int == index_of(v@, k@) && v@[i as int].key@ == k@,
            None => index_of(v@, k@) == -1,
        },
{
    let mut n: usize = v.len();
    proof {
        assert(v@.subrange(0, n as int) =~= v@);
    }
    while n > 0
        invariant
            n <= v.len(),
            index_of(v@, k@) == index_of(v@.subrange(0, n as int), k@),
        decreases n,
    {
        proof {
            assert(v@.subrange(0, n as int).drop_last() =~= v@.subrange(0, n - 1));
        }
        if v[n - 1].key == *k {
            proof {
                lemma_index_of_bounds(v@, k@);
            }
            return Some(n - 1);
        }
        n = n - 1;
    }
    proof {
        assert(v@.subrange(0, 0).len() == 0);
    }
    None
}

} // verus!
