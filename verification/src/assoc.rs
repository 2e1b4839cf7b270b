//! Association lists viewed as finite maps.
//!
//! The engine stores every keyed collection (verb tables, exit tables,
//! entity maps, the section graph) as a vector of key/value pairs with
//! pairwise-distinct keys. This module gives such a sequence its
//! mathematical reading as a `Map`, and proves how the map changes under
//! the sequence operations the collections use.

use vstd::prelude::*;

verus! {

/// The finite map denoted by an association list; later entries win,
/// which coincides with lookup by first match whenever keys are unique.
pub open spec fn assoc_map<K, V>(entries: Seq<(K, V)>) -> Map<K, V>
    decreases entries.len(),
{
    if entries.len() == 0 {
        Map::empty()
    } else {
        assoc_map(entries.drop_last()).insert(entries.last().0, entries.last().1)
    }
}

/// No two entries share a key.
pub open spec fn unique_keys<K, V>(entries: Seq<(K, V)>) -> bool {
    forall|i: int, j: int|
        0 <= i < j < entries.len() ==> (#[trigger] entries[i]).0 != (#[trigger] entries[j]).0
}

/// A key is in the map exactly when some entry carries it.
pub proof fn lemma_assoc_map_contains<K, V>(entries: Seq<(K, V)>, k: K)
    ensures
        assoc_map(entries).contains_key(k) <==> exists|i: int|
            0 <= i < entries.len() && (#[trigger] entries[i]).0 == k,
    decreases entries.len(),
{
    if entries.len() > 0 {
        lemma_assoc_map_contains(entries.drop_last(), k);
        if entries.last().0 == k {
            assert(entries[entries.len() - 1].0 == k);
        } else if assoc_map(entries).contains_key(k) {
            let i = choose|i: int| 0 <= i < entries.drop_last().len()
                && (#[trigger] entries.drop_last()[i]).0 == k;
            assert(entries[i].0 == k);
        } else {
            assert(forall|i: int| 0 <= i < entries.len() - 1
                ==> (#[trigger] entries[i]).0 == entries.drop_last()[i].0);
        }
    }
}

/// Under unique keys, the entry at index `i` gives the map's value at its key.
pub proof fn lemma_assoc_map_index<K, V>(entries: Seq<(K, V)>, i: int)
    requires
        unique_keys(entries),
        0 <= i < entries.len(),
    ensures
        assoc_map(entries).contains_key(entries[i].0),
        assoc_map(entries)[entries[i].0] == entries[i].1,
    decreases entries.len(),
{
    if i == entries.len() - 1 {
    } else {
        assert(unique_keys(entries.drop_last())) by {
            assert(forall|p: int, q: int| 0 <= p < q < entries.len() - 1
                ==> (#[trigger] entries.drop_last()[p]).0 == entries[p].0
                    && (#[trigger] entries.drop_last()[q]).0 == entries[q].0);
        }
        assert(entries.drop_last()[i] == entries[i]);
        lemma_assoc_map_index(entries.drop_last(), i);
        assert(entries[i].0 != entries.last().0);
    }
}

/// Pushing a fresh pair is map insertion.
pub proof fn lemma_assoc_map_push<K, V>(entries: Seq<(K, V)>, k: K, v: V)
    ensures
        assoc_map(entries.push((k, v))) == assoc_map(entries).insert(k, v),
{
    assert(entries.push((k, v)).drop_last() =~= entries);
}

/// Replacing the value at index `i` is map insertion at that entry's key.
pub proof fn lemma_assoc_map_update<K, V>(entries: Seq<(K, V)>, i: int, v: V)
    requires
        unique_keys(entries),
        0 <= i < entries.len(),
    ensures
        assoc_map(entries.update(i, (entries[i].0, v)))
            == assoc_map(entries).insert(entries[i].0, v),
    decreases entries.len(),
{
    let k = entries[i].0;
    let upd = entries.update(i, (k, v));
    if i == entries.len() - 1 {
        assert(upd.drop_last() =~= entries.drop_last());
        assert(upd.last() == (k, v));
    } else {
        assert(unique_keys(entries.drop_last())) by {
            assert(forall|p: int, q: int| 0 <= p < q < entries.len() - 1
                ==> (#[trigger] entries.drop_last()[p]).0 == entries[p].0
                    && (#[trigger] entries.drop_last()[q]).0 == entries[q].0);
        }
        assert(entries.drop_last()[i] == entries[i]);
        lemma_assoc_map_update(entries.drop_last(), i, v);
        assert(upd.drop_last() =~= entries.drop_last().update(i, (k, v)));
        assert(upd.last() == entries.last());
        assert(k != entries.last().0);
        assert(assoc_map(entries.drop_last()).insert(k, v).insert(entries.last().0, entries.last().1)
            =~= assoc_map(entries.drop_last()).insert(entries.last().0, entries.last().1).insert(k, v));
        lemma_assoc_map_index(entries, i);
    }
}

/// Removing the entry at index `i` is map removal of its key.
pub proof fn lemma_assoc_map_remove<K, V>(entries: Seq<(K, V)>, i: int)
    requires
        unique_keys(entries),
        0 <= i < entries.len(),
    ensures
        assoc_map(entries.remove(i)) == assoc_map(entries).remove(entries[i].0),
    decreases entries.len(),
{
    let k = entries[i].0;
    if i == entries.len() - 1 {
        assert(entries.remove(i) =~= entries.drop_last());
        lemma_assoc_map_contains(entries.drop_last(), k);
        assert(forall|j: int| 0 <= j < entries.len() - 1
            ==> (#[trigger] entries.drop_last()[j]).0 == entries[j].0);
        assert(!assoc_map(entries.drop_last()).contains_key(k));
        assert(assoc_map(entries.drop_last()).insert(k, entries.last().1).remove(k)
            =~= assoc_map(entries.drop_last()));
    } else {
        assert(unique_keys(entries.drop_last())) by {
            assert(forall|p: int, q: int| 0 <= p < q < entries.len() - 1
                ==> (#[trigger] entries.drop_last()[p]).0 == entries[p].0
                    && (#[trigger] entries.drop_last()[q]).0 == entries[q].0);
        }
        assert(entries.drop_last()[i] == entries[i]);
        lemma_assoc_map_remove(entries.drop_last(), i);
        assert(entries.remove(i).drop_last() =~= entries.drop_last().remove(i));
        assert(entries.remove(i).last() == entries.last());
        assert(k != entries.last().0);
        assert(assoc_map(entries.drop_last()).remove(k).insert(entries.last().0, entries.last().1)
            =~= assoc_map(entries.drop_last()).insert(entries.last().0, entries.last().1).remove(k));
    }
}

/// Under unique keys the map's domain is finite, with one key per entry.
pub proof fn lemma_assoc_map_dom_len<K, V>(entries: Seq<(K, V)>)
    requires
        unique_keys(entries),
    ensures
        assoc_map(entries).dom().finite(),
        assoc_map(entries).dom().len() == entries.len(),
    decreases entries.len(),
{
    if entries.len() > 0 {
        assert(unique_keys(entries.drop_last())) by {
            assert(forall|p: int, q: int| 0 <= p < q < entries.len() - 1
                ==> (#[trigger] entries.drop_last()[p]).0 == entries[p].0
                    && (#[trigger] entries.drop_last()[q]).0 == entries[q].0);
        }
        lemma_assoc_map_dom_len(entries.drop_last());
        lemma_assoc_map_contains(entries.drop_last(), entries.last().0);
        assert(forall|j: int| 0 <= j < entries.len() - 1
            ==> (#[trigger] entries.drop_last()[j]).0 == entries[j].0);
        assert(!assoc_map(entries.drop_last()).contains_key(entries.last().0));
    }
}

} // verus!
