//! Name-keyed tables, the shape of the registry's two levels.
//!
//! A table is a sequence of `(name, value)` entries whose names are
//! pairwise distinct; lookup finds the first entry with a name,
//! replacement rewrites it, removal drops it.  The registry keeps rooms
//! and devices in such tables, in insertion order.

use vstd::prelude::*;

verus! {

/// The names of the entries, in order.
pub open spec fn table_keys<V>(es: Seq<(Seq<char>, V)>) -> Seq<Seq<char>> {
    es.map_values(|e: (Seq<char>, V)| e.0)
}

/// The values of the entries, in order.
pub open spec fn table_vals<V>(es: Seq<(Seq<char>, V)>) -> Seq<V> {
    es.map_values(|e: (Seq<char>, V)| e.1)
}

/// The value entered under `name`, if any.
pub open spec fn table_lookup<V>(es: Seq<(Seq<char>, V)>, name: Seq<char>) -> Option<V>
    decreases es.len(),
{
    if es.len() == 0 {
        None
    } else if es[0].0 == name {
        Some(es[0].1)
    } else {
        table_lookup(es.drop_first(), name)
    }
}

/// The table with the value under `name` replaced by `v`; without an
/// entry under `name` it is unchanged.
pub open spec fn table_set<V>(es: Seq<(Seq<char>, V)>, name: Seq<char>, v: V) -> Seq<
    (Seq<char>, V),
> {
    es.map_values(
        |e: (Seq<char>, V)|
            if e.0 == name {
                (e.0, v)
            } else {
                e
            },
    )
}

/// The table with the first entry under `name` dropped; without one it
/// is unchanged.
pub open spec fn table_remove<V>(es: Seq<(Seq<char>, V)>, name: Seq<char>) -> Seq<(Seq<char>, V)>
    decreases es.len(),
{
    if es.len() == 0 {
        es
    } else if es[0].0 == name {
        es.drop_first()
    } else {
        seq![es[0]] + table_remove(es.drop_first(), name)
    }
}

/// Entry names are pairwise distinct.
pub open spec fn table_unique<V>(es: Seq<(Seq<char>, V)>) -> bool {
    forall|i: int, j: int| 0 <= i < j < es.len() ==> es[i].0 != es[j].0
}

/// Lookup finds the entry at the first index holding `name`.
pub proof fn lemma_table_lookup_at<V>(es: Seq<(Seq<char>, V)>, name: Seq<char>, i: int)
    requires
        0 <= i < es.len(),
        es[i].0 == name,
        forall|m: int| 0 <= m < i ==> es[m].0 != name,
    ensures
        table_lookup(es, name) == Some(es[i].1),
    decreases i,
{
    if i == 0 {
    } else {
        lemma_table_lookup_at(es.drop_first(), name, i - 1);
    }
}

/// Without an entry under `name`, lookup finds nothing.
pub proof fn lemma_table_lookup_none<V>(es: Seq<(Seq<char>, V)>, name: Seq<char>)
    requires
        forall|m: int| 0 <= m < es.len() ==> es[m].0 != name,
    ensures
        table_lookup(es, name) is None,
    decreases es.len(),
{
    if es.len() > 0 {
        lemma_table_lookup_none(es.drop_first(), name);
    }
}

/// Removing the entry at the first index holding `name` is dropping
/// that index.
pub proof fn lemma_table_remove_at<V>(es: Seq<(Seq<char>, V)>, name: Seq<char>, i: int)
    requires
        0 <= i < es.len(),
        es[i].0 == name,
        forall|m: int| 0 <= m < i ==> es[m].0 != name,
    ensures
        table_remove(es, name) =~= es.subrange(0, i) + es.subrange(i + 1, es.len() as int),
    decreases i,
{
    if i == 0 {
        assert(es.drop_first() =~= es.subrange(0, 0) + es.subrange(1, es.len() as int));
    } else {
        lemma_table_remove_at(es.drop_first(), name, i - 1);
        assert(es.drop_first().subrange(0, i - 1) =~= es.subrange(1, i));
        assert(es.drop_first().subrange(i, es.drop_first().len() as int) =~= es.subrange(
            i + 1,
            es.len() as int,
        ));
        assert(table_remove(es, name) =~= seq![es[0]] + table_remove(es.drop_first(), name));
    }
}

/// Without an entry under `name`, removal changes nothing.
pub proof fn lemma_table_remove_absent<V>(es: Seq<(Seq<char>, V)>, name: Seq<char>)
    requires
        forall|m: int| 0 <= m < es.len() ==> es[m].0 != name,
    ensures
        table_remove(es, name) =~= es,
    decreases es.len(),
{
    if es.len() > 0 {
        lemma_table_remove_absent(es.drop_first(), name);
        assert(seq![es[0]] + es.drop_first() =~= es);
    }
}

/// What lookup finds after a replacement: the new value under the
/// replaced name where it was entered, and the old answers elsewhere.
pub proof fn lemma_table_set_lookup<V>(es: Seq<(Seq<char>, V)>, name: Seq<char>, v: V, q: Seq<char>)
    ensures
        table_lookup(table_set(es, name, v), q) == (if q == name {
            match table_lookup(es, name) {
                Some(old_v) => Some(v),
                None => None::<V>,
            }
        } else {
            table_lookup(es, q)
        }),
    decreases es.len(),
{
    if es.len() == 0 {
        assert(table_set(es, name, v) =~= Seq::<(Seq<char>, V)>::empty());
    } else {
        assert(table_set(es, name, v).drop_first() =~= table_set(es.drop_first(), name, v));
        lemma_table_set_lookup(es.drop_first(), name, v, q);
    }
}

} // verus!
