//! The registry's entries are held as a list of key/value pairs; these spec
//! functions and lemmas relate such a list to the mapping it denotes.

use vstd::prelude::*;

verus! {

/// The mapping that a list of key/value pairs denotes; on a repeated key the
/// later entry wins, as repeated insertion would have it.
pub open spec fn assoc_map<V>(es: Seq<(Seq<char>, V)>) -> Map<Seq<char>, V>
    decreases es.len(),
{
    if es.len() == 0 {
        Map::empty()
    } else {
        assoc_map(es.drop_last()).insert(es.last().0, es.last().1)
    }
}

/// No key appears twice in the list.
pub open spec fn distinct_keys<V>(es: Seq<(Seq<char>, V)>) -> bool {
    forall|i: int, j: int| 0 <= i < j < es.len() ==> es[i].0 != es[j].0
}

/// The denoted mapping holds a key exactly when some entry carries it.
pub proof fn lemma_assoc_map_contains<V>(es: Seq<(Seq<char>, V)>, k: Seq<char>)
    ensures
        assoc_map(es).contains_key(k) <==> exists|i: int| 0 <= i < es.len() && es[i].0 == k,
    decreases es.len(),
{
    let n = es.len();
    if n == 0 {
    } else {
        let pre = es.drop_last();
        lemma_assoc_map_contains(pre, k);
        if es.last().0 == k {
            assert(es[n - 1].0 == k);
        } else {
            if assoc_map(es).contains_key(k) {
                let i = choose|i: int| 0 <= i < pre.len() && pre[i].0 == k;
                assert(es[i].0 == k);
            }
            if exists|i: int| 0 <= i < n && es[i].0 == k {
                let i = choose|i: int| 0 <= i < n && es[i].0 == k;
                assert(i != n - 1);
                assert(pre[i].0 == k);
            }
        }
    }
}

/// With distinct keys, the denoted mapping sends each entry's key to that
/// entry's value.
pub proof fn lemma_assoc_map_index<V>(es: Seq<(Seq<char>, V)>, i: int)
    requires
        distinct_keys(es),
        0 <= i < es.len(),
    ensures
        assoc_map(es).contains_key(es[i].0),
        assoc_map(es)[es[i].0] == es[i].1,
    decreases es.len(),
{
    let n = es.len();
    let pre = es.drop_last();
    if i == n - 1 {
    } else {
        assert(es[i].0 != es[n - 1].0);
        assert forall|p: int, q: int| 0 <= p < q < pre.len() implies pre[p].0 != pre[q].0 by {
            assert(es[p].0 != es[q].0);
        }
        lemma_assoc_map_index(pre, i);
        assert(pre[i] == es[i]);
    }
}

/// With distinct keys, removing the entry at `i` removes exactly its key from
/// the denoted mapping.
pub proof fn lemma_assoc_map_remove<V>(es: Seq<(Seq<char>, V)>, i: int)
    requires
        distinct_keys(es),
        0 <= i < es.len(),
    ensures
        assoc_map(es.remove(i)) == assoc_map(es).remove(es[i].0),
    decreases es.len(),
{
    let n = es.len();
    let pre = es.drop_last();
    let k = es[i].0;
    assert forall|p: int, q: int| 0 <= p < q < pre.len() implies pre[p].0 != pre[q].0 by {
        assert(es[p].0 != es[q].0);
    }
    if i == n - 1 {
        assert(es.remove(i) =~= pre);
        lemma_assoc_map_contains(pre, k);
        assert forall|j: int| 0 <= j < pre.len() implies pre[j].0 != k by {
            assert(es[j].0 != es[n - 1].0);
        }
        assert(!assoc_map(pre).contains_key(k));
        assert(assoc_map(pre).insert(k, es.last().1).remove(k) =~= assoc_map(pre));
    } else {
        lemma_assoc_map_remove(pre, i);
        assert(pre[i] == es[i]);
        let r = es.remove(i);
        assert(r.last() == es.last());
        assert(r.drop_last() =~= pre.remove(i));
        assert(assoc_map(r) == assoc_map(pre.remove(i)).insert(es.last().0, es.last().1));
        assert(es.last().0 != k);
        assert(assoc_map(pre).remove(k).insert(es.last().0, es.last().1) =~= assoc_map(
            pre,
        ).insert(es.last().0, es.last().1).remove(k));
    }
}

/// The list is empty exactly when the denoted mapping is.
pub proof fn lemma_assoc_map_is_empty<V>(es: Seq<(Seq<char>, V)>)
    ensures
        (es.len() == 0) <==> (assoc_map(es) == Map::<Seq<char>, V>::empty()),
{
    if es.len() > 0 {
        assert(assoc_map(es).contains_key(es.last().0));
        assert(!Map::<Seq<char>, V>::empty().contains_key(es.last().0));
    } else {
        assert(assoc_map(es) == Map::<Seq<char>, V>::empty());
    }
}

/// Appending an entry inserts its key/value pair into the denoted mapping.
pub proof fn lemma_assoc_map_push<V>(es: Seq<(Seq<char>, V)>, k: Seq<char>, v: V)
    ensures
        assoc_map(es.push((k, v))) == assoc_map(es).insert(k, v),
{
    assert(es.push((k, v)).drop_last() =~= es);
    assert(es.push((k, v)).last() == (k, v));
}

} // verus!
