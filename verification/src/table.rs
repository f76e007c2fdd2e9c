//! The keyed table that every interner stores its entries in, and the
//! mathematical model that the interners' contracts are written over.
//!
//! A table maps a 128-bit fingerprint to the one shared allocation interned
//! under it. The model of a table is a `Map<u128, V>`, where `V` is the shared
//! pointer type; a reading of the reference counts of its entries, a census,
//! is a sequence of `(fingerprint, count)` pairs.
//!
//! The table is a `std::collections::HashMap` whose buckets are hashed by
//! `twox_hash::XxHash64`. The contracts that vstd gives `HashMap`'s methods
//! hold only for the hashers that vstd knows, so the methods used here are
//! called through functions of this module that state, unproved, what the
//! standard library documents of them.
use std::collections::hash_map::Iter;
use std::collections::HashMap;
use std::hash::BuildHasherDefault;
use twox_hash::XxHash64;
use vstd::prelude::*;
use vstd::std_specs::hash::*;
use vstd::std_specs::iter::IteratorSpec;

verus! {

/// `twox_hash::XxHash64`, the hasher that spreads fingerprints over the
/// buckets of a [`Table`]. Nothing is read from a value of it.
#[verifier::external_type_specification]
#[verifier::external_body]
pub struct ExXxHash64(XxHash64);

/// `std::hash::BuildHasherDefault`, which builds each hasher of a [`Table`]
/// with `Default::default()`.
#[verifier::external_type_specification]
#[verifier::external_body]
#[verifier::reject_recursive_types(H)]
pub struct ExBuildHasherDefault<H>(BuildHasherDefault<H>);

/// A hash table from fingerprints to shared allocations.
pub type Table<V> = HashMap<u128, V, BuildHasherDefault<XxHash64>>;

/// The table after `value` has been interned under `key`: a key that is
/// already present keeps its entry, an absent one gets `value`.
pub open spec fn interned<V>(table: Map<u128, V>, key: u128, value: V) -> Map<u128, V> {
    if table.contains_key(key) {
        table
    } else {
        table.insert(key, value)
    }
}

/// What the handle returned by interning `value` under `key` shares: the
/// entry already stored under `key`, or else `value` itself.
pub open spec fn resolved<V>(table: Map<u128, V>, key: u128, value: V) -> V {
    if table.contains_key(key) {
        table[key]
    } else {
        value
    }
}

/// `after` is `before` with `shared` interned under `key`, and `shared` is
/// what `key` maps to since: the entry that was there, or else a new one.
pub open spec fn interned_as<V>(
    before: Map<u128, V>,
    key: u128,
    shared: V,
    after: Map<u128, V>,
) -> bool {
    &&& after == interned(before, key, shared)
    &&& shared == resolved(before, key, shared)
}

/// A count that leaves no reference but the table's own: the entry has no
/// holder outside the table.
pub open spec fn reclaimable(count: usize) -> bool {
    count <= 1
}

/// Position `i` of `census` speaks of `key`.
pub open spec fn lists(census: Seq<(u128, usize)>, i: int, key: u128) -> bool {
    0 <= i < census.len() && census[i].0 == key
}

/// The keys that `census` lists with a reclaimable count.
pub open spec fn unreferenced(census: Seq<(u128, usize)>) -> Set<u128> {
    Set::new(
        |key: u128| exists|i: int| #[trigger] lists(census, i, key) && reclaimable(census[i].1),
    )
}

/// The table after a sweep that goes by `census`: exactly the entries whose
/// keys are in `unreferenced(census)` are gone.
pub open spec fn swept<V>(table: Map<u128, V>, census: Seq<(u128, usize)>) -> Map<u128, V> {
    table.remove_keys(unreferenced(census))
}

/// `census` is a reading of `table`: it lists every key of the table exactly
/// once and no other key, each with a count of at least one.
pub open spec fn is_census<V>(census: Seq<(u128, usize)>, table: Map<u128, V>) -> bool {
    &&& forall|i: int|
        0 <= i < census.len() ==> table.contains_key(#[trigger] census[i].0) && census[i].1 >= 1
    &&& forall|i: int, j: int|
        0 <= i < j < census.len() ==> (#[trigger] census[i]).0 != (#[trigger] census[j]).0
    &&& forall|key: u128|
        table.contains_key(key) ==> exists|i: int| #[trigger] lists(census, i, key)
}

/// Interning is deterministic. Whatever is interned under one key twice in
/// a row, the second call leaves the table as the first left it and hands
/// out what the first handed out.
pub proof fn law_interning_again_changes_nothing<V>(
    before: Map<u128, V>,
    key: u128,
    first: V,
    between: Map<u128, V>,
    second: V,
    after: Map<u128, V>,
)
    requires
        interned_as(before, key, first, between),
        interned_as(between, key, second, after),
    ensures
        after == between,
        second == first,
        after[key] == first,
{
}

/// An interned value comes back as itself, unless another value took its
/// key before: where the table holds nothing under `key`, or holds `value`
/// there, interning `value` under `key` hands out `value`.
pub proof fn law_interned_value_comes_back<V>(table: Map<u128, V>, key: u128, value: V)
    requires
        !table.contains_key(key) || table[key] == value,
    ensures
        resolved(table, key, value) == value,
        interned_as(table, key, value, interned(table, key, value)),
{
}

/// Interning is injective where fingerprints are. Two values that differ,
/// interned one after the other under keys that differ, into a table in
/// which no other value took either key before, come back as handles to
/// values that differ, and both are in the table afterwards.
pub proof fn law_distinct_values_stay_distinct<V>(
    before: Map<u128, V>,
    first_key: u128,
    first: V,
    second_key: u128,
    second: V,
)
    requires
        first != second,
        first_key != second_key,
        !before.contains_key(first_key) || before[first_key] == first,
        !before.contains_key(second_key) || before[second_key] == second,
    ensures
        ({
            let between = interned(before, first_key, first);
            let after = interned(between, second_key, second);
            &&& resolved(before, first_key, first) == first
            &&& resolved(between, second_key, second) == second
            &&& resolved(before, first_key, first) != resolved(between, second_key, second)
            &&& after[first_key] == first
            &&& after[second_key] == second
        }),
{
}

/// A sweep goes by liveness. Of a table and a census of it, the sweep
/// removes each entry that the census lists with a count of one and keeps,
/// unchanged, each entry that it lists with a larger count.
pub proof fn law_sweep_goes_by_count<V>(table: Map<u128, V>, census: Seq<(u128, usize)>, i: int)
    requires
        is_census(census, table),
        0 <= i < census.len(),
    ensures
        census[i].1 == 1 ==> !swept(table, census).contains_key(census[i].0),
        census[i].1 > 1 ==> swept(table, census).contains_key(census[i].0) && swept(
            table,
            census,
        )[census[i].0] == table[census[i].0],
{
    let key = census[i].0;
    assert(lists(census, i, key));
    if census[i].1 > 1 && unreferenced(census).contains(key) {
        let j = choose|j: int| #[trigger] lists(census, j, key) && reclaimable(census[j].1);
        if j < i {
            assert(census[j].0 != census[i].0);
        } else if i < j {
            assert(census[i].0 != census[j].0);
        }
    }
}

/// A sweep only removes. Whatever the census says, what is left is part of
/// what was there, so the table does not grow.
pub proof fn law_sweep_only_removes<V>(table: Map<u128, V>, census: Seq<(u128, usize)>)
    requires
        table.dom().finite(),
    ensures
        swept(table, census).submap_of(table),
        swept(table, census).dom().finite(),
        swept(table, census).len() <= table.len(),
{
    let left = swept(table, census);
    assert(left.dom().subset_of(table.dom()));
    vstd::set_lib::lemma_len_subset(left.dom(), table.dom());
}

/// A sweep of a table in which no entry is referenced from outside empties
/// it: where the census of a table lists every key with a count of one,
/// nothing is left.
pub proof fn law_sweep_of_unreferenced_table_empties_it<V>(
    table: Map<u128, V>,
    census: Seq<(u128, usize)>,
)
    requires
        is_census(census, table),
        forall|i: int| 0 <= i < census.len() ==> (#[trigger] census[i]).1 == 1,
    ensures
        swept(table, census) == Map::<u128, V>::empty(),
{
    assert forall|key: u128| !swept(table, census).contains_key(key) by {
        if table.contains_key(key) {
            let i = choose|i: int| #[trigger] lists(census, i, key);
            assert(reclaimable(census[i].1));
        }
    }
    assert(swept(table, census) =~= Map::<u128, V>::empty());
}

/// `HashMap::len` on a [`Table`]: the number of entries.
#[verifier::external_body]
pub(crate) fn table_len<V>(table: &Table<V>) -> (n: usize)
    ensures
        n == table@.len(),
{
    table.len()
}

/// `HashMap::get` on a [`Table`]: the entry stored under `key`, if there is
/// one.
#[verifier::external_body]
pub(crate) fn table_get<'a, V>(table: &'a Table<V>, key: u128) -> (found: Option<&'a V>)
    ensures
        found == (if table@.contains_key(key) {
            Some(&table@[key])
        } else {
            None
        }),
{
    table.get(&key)
}

/// `HashMap::insert` on a [`Table`]: afterwards `key` maps to `value` and
/// every other key is as before.
#[verifier::external_body]
pub(crate) fn table_insert<V>(table: &mut Table<V>, key: u128, value: V)
    ensures
        final(table)@ == old(table)@.insert(key, value),
{
    table.insert(key, value);
}

/// `HashMap::remove` on a [`Table`]: afterwards `key` is absent and every
/// other key is as before.
#[verifier::external_body]
pub(crate) fn table_remove<V>(table: &mut Table<V>, key: u128)
    ensures
        final(table)@ == old(table)@.remove(key),
{
    table.remove(&key);
}

/// The iterator that [`table_iter`] returns, for use in loop invariants.
pub open spec fn table_iter_spec<'a, V>(table: &'a Table<V>) -> Iter<'a, u128, V> {
    spec_hash_map_iter(table)
}

/// `HashMap::iter` on a [`Table`]: an iterator that ends, and that yields
/// each entry of the table once, in an order that is not stated.
#[verifier::external_body]
#[verifier::when_used_as_spec(table_iter_spec)]
pub(crate) fn table_iter<'a, V>(table: &'a Table<V>) -> (iter: Iter<'a, u128, V>)
    ensures
        iter == spec_hash_map_iter(table),
        iter.remaining().no_duplicates(),
        IteratorSpec::decrease(&iter) is Some,
        IteratorSpec::initial_value_relation(&iter, &iter),
{
    table.iter()
}

/// A table has finitely many entries: an iteration lists them all.
pub proof fn lemma_table_is_finite<V>(table: &Table<V>)
    ensures
        table@.dom().finite(),
{
    broadcast use axiom_spec_hash_map_iter;

    let pairs = spec_hash_map_iter(table).remaining().unref();
    vstd::seq_lib::seq_to_set_is_finite(pairs);
    let key_of = |pair: (u128, V)| pair.0;
    pairs.to_set().lemma_map_finite(key_of);
    assert forall|key: u128| table@.dom().contains(key) implies pairs.to_set().map(
        key_of,
    ).contains(key) by {
        assert(table@.kv_pairs().contains((key, table@[key])));
        assert(key_of((key, table@[key])) == key);
    }
    assert forall|key: u128| pairs.to_set().map(key_of).contains(key) implies table@.dom().contains(
        key,
    ) by {
        let pair = choose|pair: (u128, V)| pairs.to_set().contains(pair) && key == key_of(pair);
        assert(table@.kv_pairs().contains(pair));
    }
    assert(table@.dom() =~= pairs.to_set().map(key_of));
}

/// Reads, with `count`, the reference count of every entry of `table`.
pub(crate) fn census<V, F: Fn(&V) -> usize>(table: &Table<V>, count: F) -> (census: Vec<
    (u128, usize),
>)
    requires
        forall|item: &V| call_requires(count, (item,)),
        forall|item: &V, n: usize| call_ensures(count, (item,), n) ==> n >= 1,
    ensures
        is_census(census@, table@),
{
    let mut census: Vec<(u128, usize)> = Vec::new();
    let ghost listed = spec_hash_map_iter(table).remaining();
    for entry in iter: table_iter(table)
        invariant
            iter.seq() == listed,
            census@.len() == iter.index(),
            forall|item: &V| call_requires(count, (item,)),
            forall|item: &V, n: usize| call_ensures(count, (item,), n) ==> n >= 1,
            forall|i: int|
                0 <= i < census@.len() ==> (#[trigger] census@[i]).0 == *listed[i].0
                    && census@[i].1 >= 1,
    {
        let (key, item) = entry;
        census.push((*key, count(item)));
    }
    proof {
        broadcast use axiom_spec_hash_map_iter;

        assert forall|i: int, j: int| 0 <= i < j < census@.len() implies (#[trigger] census@[i]).0
            != (#[trigger] census@[j]).0 by {
            if census@[i].0 == census@[j].0 {
                assert(table@.contains_key(*listed[i].0));
                assert(table@.contains_key(*listed[j].0));
                assert(*listed[i].1 == *listed[j].1);
                assert(listed[i] == listed[j]);
            }
        }
        assert forall|key: u128| table@.contains_key(key) implies exists|i: int| #[trigger]
            lists(census@, i, key) by {
            let pair = (&key, &table@[key]);
            assert(listed.contains(pair));
            let i = choose|i: int| 0 <= i < listed.len() && listed[i] == pair;
            assert(lists(census@, i, key));
        }
        assert forall|i: int| 0 <= i < census@.len() implies table@.contains_key(
            #[trigger] census@[i].0,
        ) && census@[i].1 >= 1 by {
            assert(table@.contains_key(*listed[i].0));
        }
    }
    census
}

/// Removes from `table` every entry that `census` lists with a reclaimable
/// count, and no other.
pub(crate) fn sweep<V>(table: &mut Table<V>, census: &Vec<(u128, usize)>)
    ensures
        final(table)@ == swept(old(table)@, census@),
{
    let mut at: usize = 0;
    while at < census.len()
        invariant
            at <= census.len(),
            table@ == swept(old(table)@, census@.take(at as int)),
        decreases census.len() - at,
    {
        let (key, count) = census[at];
        if count <= 1 {
            table_remove(table, key);
        }
        proof {
            let before = census@.take(at as int);
            let after = census@.take(at + 1);
            assert forall|k: u128| unreferenced(after).contains(k) <==> (unreferenced(
                before,
            ).contains(k) || (k == key && reclaimable(count))) by {
                if unreferenced(after).contains(k) {
                    let i = choose|i: int| #[trigger] lists(after, i, k) && reclaimable(after[i].1);
                    if i < at {
                        assert(lists(before, i, k));
                    }
                }
                if unreferenced(before).contains(k) {
                    let i = choose|i: int|
                        #[trigger] lists(before, i, k) && reclaimable(before[i].1);
                    assert(lists(after, i, k));
                }
                if k == key && reclaimable(count) {
                    assert(lists(after, at as int, k));
                }
            }
            assert(table@ =~= swept(old(table)@, after));
        }
        at += 1;
    }
    proof {
        assert(census@.take(census.len() as int) =~= census@);
    }
}

} // verus!
