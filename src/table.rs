//! Lookup tables built from a sequence of keys and a sequence of values.
use vstd::prelude::*;

verus! {

/// No key occurs twice in `keys`.
pub open spec fn distinct(keys: Seq<u64>) -> bool {
    forall|i: int, j: int| 0 <= i < j < keys.len() ==> keys[i] != keys[j]
}

/// The table that maps `keys[i]` to `vals[i]`, a later key overriding an
/// earlier equal one.
pub open spec fn table<V>(keys: Seq<u64>, vals: Seq<V>) -> Map<u64, V>
    decreases keys.len(),
{
    if keys.len() == 0 {
        Map::empty()
    } else {
        table(keys.drop_last(), vals).insert(keys.last(), vals[keys.len() - 1])
    }
}

/// The keys of the table are exactly the keys it was built from.
pub proof fn lemma_table_dom<V>(keys: Seq<u64>, vals: Seq<V>)
    ensures
        table(keys, vals).dom() =~= keys.to_set(),
    decreases keys.len(),
{
    if keys.len() > 0 {
        lemma_table_dom(keys.drop_last(), vals);
        assert(keys =~= keys.drop_last().push(keys.last()));
        assert(keys.to_set() =~= keys.drop_last().to_set().insert(keys.last())) by {
            assert forall|k: u64| keys.to_set().contains(k) implies
                keys.drop_last().to_set().insert(keys.last()).contains(k) by {
                let i = choose|i: int| 0 <= i < keys.len() && keys[i] == k;
                if i < keys.len() - 1 {
                    assert(keys.drop_last()[i] == k);
                }
            }
            assert forall|k: u64| keys.drop_last().to_set().insert(keys.last()).contains(k)
                implies keys.to_set().contains(k) by {
                if k != keys.last() {
                    let i = choose|i: int| 0 <= i < keys.len() - 1 && keys.drop_last()[i] == k;
                    assert(keys[i] == k);
                } else {
                    assert(keys[keys.len() - 1] == k);
                }
            }
        }
    }
}

/// A key that does not occur is absent from the table.
pub proof fn lemma_table_absent<V>(keys: Seq<u64>, vals: Seq<V>, k: u64)
    requires
        forall|i: int| 0 <= i < keys.len() ==> keys[i] != k,
    ensures
        !table(keys, vals).contains_key(k),
    decreases keys.len(),
{
    if keys.len() > 0 {
        lemma_table_absent(keys.drop_last(), vals, k);
    }
}

/// With distinct keys, the table maps `keys[i]` to `vals[i]`.
pub proof fn lemma_table_index<V>(keys: Seq<u64>, vals: Seq<V>, i: int)
    requires
        distinct(keys),
        0 <= i < keys.len(),
    ensures
        table(keys, vals).contains_key(keys[i]),
        table(keys, vals)[keys[i]] == vals[i],
    decreases keys.len(),
{
    if i < keys.len() - 1 {
        lemma_table_index(keys.drop_last(), vals, i);
        assert(keys.drop_last()[i] == keys[i]);
    }
}

} // verus!
