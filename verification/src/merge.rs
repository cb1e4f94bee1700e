//! Merge strategies: how a previous and a next value of a setting combine.

use crate::config::merger::{MergeError, MergeResult};
use std::collections::{BTreeMap, BTreeSet, HashMap, HashSet};
use std::hash::Hash;
use vstd::prelude::*;
use vstd::std_specs::hash::obeys_key_model;

verus! {

/// The ordering of `K` obeys the comparison laws that ordered collections rely on.
pub open spec fn ordered_keys<K: Ord>() -> bool {
    vstd::laws_cmp::obeys_cmp::<K>()
}

/// The map `m` after inserting each pair of `s`, first to last.
pub open spec fn insert_all<K, V>(m: Map<K, V>, s: Seq<(K, V)>) -> Map<K, V>
    decreases s.len(),
{
    if s.len() == 0 {
        m
    } else {
        insert_all(m, s.drop_last()).insert(s.last().0, s.last().1)
    }
}

/// The set `m` after inserting each item of `s`.
pub open spec fn insert_all_items<T>(m: Set<T>, s: Seq<T>) -> Set<T> {
    m.union(s.to_set())
}

/// `s` lists the entries of `n`: each pair of `s` is an entry of `n`, and each key of `n`
/// appears in `s`.
pub open spec fn lists_entries<K, V>(n: Map<K, V>, s: Seq<(K, V)>) -> bool {
    &&& forall|i: int| 0 <= i < s.len() ==> #[trigger] n.contains_key(s[i].0) && n[s[i].0] == s[i].1
    &&& forall|k: K| #[trigger] n.contains_key(k) ==> exists|i: int| 0 <= i < s.len() && s[i].0 == k
}

/// `s` lists the items of `n`: they hold the same items.
pub open spec fn lists_items<T>(n: Set<T>, s: Seq<T>) -> bool {
    s.to_set() == n
}

proof fn lemma_insert_all_union<K, V>(m: Map<K, V>, s: Seq<(K, V)>)
    ensures
        insert_all(m, s) == m.union_prefer_right(insert_all(Map::empty(), s)),
    decreases s.len(),
{
    if s.len() > 0 {
        lemma_insert_all_union(m, s.drop_last());
        lemma_insert_all_union(Map::<K, V>::empty(), s.drop_last());
        assert(insert_all(m, s) =~= m.union_prefer_right(insert_all(Map::empty(), s)));
    }
}

proof fn lemma_insert_all_keys<K, V>(s: Seq<(K, V)>, k: K)
    ensures
        insert_all(Map::<K, V>::empty(), s).contains_key(k) <==> exists|i: int|
            0 <= i < s.len() && s[i].0 == k,
        insert_all(Map::<K, V>::empty(), s).contains_key(k) ==> exists|i: int|
            0 <= i < s.len() && s[i].0 == k && insert_all(Map::<K, V>::empty(), s)[k] == s[i].1,
    decreases s.len(),
{
    if s.len() > 0 {
        lemma_insert_all_keys(s.drop_last(), k);
        if k != s.last().0 {
            if exists|i: int| 0 <= i < s.len() && s[i].0 == k {
                let i = choose|i: int| 0 <= i < s.len() && s[i].0 == k;
                assert(s.drop_last()[i].0 == k);
            }
            if insert_all(Map::<K, V>::empty(), s.drop_last()).contains_key(k) {
                let i = choose|i: int|
                    0 <= i < s.drop_last().len() && s.drop_last()[i].0 == k && insert_all(
                        Map::<K, V>::empty(),
                        s.drop_last(),
                    )[k] == s.drop_last()[i].1;
                assert(s[i].0 == k);
            }
        } else {
            assert(s[s.len() - 1].0 == k);
        }
    }
}

proof fn lemma_listing_builds<K, V>(n: Map<K, V>, s: Seq<(K, V)>)
    requires
        lists_entries(n, s),
    ensures
        insert_all(Map::<K, V>::empty(), s) == n,
{
    let b = insert_all(Map::<K, V>::empty(), s);
    assert forall|k: K| b.contains_key(k) <==> n.contains_key(k) by {
        lemma_insert_all_keys(s, k);
        if b.contains_key(k) {
            let i = choose|i: int| 0 <= i < s.len() && s[i].0 == k;
            assert(n.contains_key(s[i].0));
        }
    }
    assert forall|k: K| b.contains_key(k) implies b[k] == n[k] by {
        lemma_insert_all_keys(s, k);
        let i = choose|i: int| 0 <= i < s.len() && s[i].0 == k && b[k] == s[i].1;
        assert(n.contains_key(s[i].0));
    }
    assert(b =~= n);
}

proof fn lemma_take_to_set<T>(s: Seq<T>, i: int)
    requires
        0 <= i < s.len(),
    ensures
        s.take(i + 1).to_set() == s.take(i).to_set().insert(s[i]),
{
    let long = s.take(i + 1);
    let short = s.take(i);
    assert forall|a: T| long.to_set().contains(a) implies short.to_set().insert(s[i]).contains(a) by {
        let j = choose|j: int| 0 <= j < long.len() && #[trigger] long[j] == a;
        if j < i {
            assert(short[j] == a);
        }
    }
    assert forall|a: T| short.to_set().insert(s[i]).contains(a) implies long.to_set().contains(a) by {
        if a == s[i] {
            assert(long[i] == a);
        } else {
            let j = choose|j: int| 0 <= j < short.len() && #[trigger] short[j] == a;
            assert(long[j] == a);
        }
    }
    assert(long.to_set() =~= short.to_set().insert(s[i]));
}

/// Calls `HashMap::into_iter` and collects the pairs it moves out. Claims, for keys that obey
/// the hash model, that the pairs list the entries of the map; their order is left unsaid,
/// as the documentation calls it arbitrary.
#[verifier::external_body]
fn hash_map_entries<K, V>(m: HashMap<K, V>) -> (r: Vec<(K, V)>)
    ensures
        obeys_key_model::<K>() ==> lists_entries(m@, r@),
{
    m.into_iter().collect()
}

/// Calls `HashSet::into_iter` and collects the items it moves out. Claims, for items that obey
/// the hash model, that they are the items of the set; their order is left unsaid.
#[verifier::external_body]
fn hash_set_items<T>(m: HashSet<T>) -> (r: Vec<T>)
    ensures
        obeys_key_model::<T>() ==> lists_items(m@, r@),
{
    m.into_iter().collect()
}

/// Calls `BTreeMap::into_iter` and collects the pairs it moves out. Claims, for keys whose
/// ordering obeys the comparison laws, that the pairs list the entries of the map.
#[verifier::external_body]
fn btree_map_entries<K: Ord, V>(m: BTreeMap<K, V>) -> (r: Vec<(K, V)>)
    ensures
        ordered_keys::<K>() ==> lists_entries(m@, r@),
{
    m.into_iter().collect()
}

/// Calls `BTreeSet::into_iter` and collects the items it moves out. Claims, for items whose
/// ordering obeys the comparison laws, that they are the items of the set.
#[verifier::external_body]
fn btree_set_items<T: Ord>(m: BTreeSet<T>) -> (r: Vec<T>)
    ensures
        ordered_keys::<T>() ==> lists_items(m@, r@),
{
    m.into_iter().collect()
}

/// Discard both previous and next values and return [`None`].
pub fn discard<T, C>(prev: T, next: T, context: &C) -> (r: MergeResult<T>)
    ensures
        r == Ok::<Option<T>, MergeError>(None),
{
    Ok(None)
}

/// Always preserve the previous value over the next value.
pub fn preserve<T, C>(prev: T, next: T, context: &C) -> (r: MergeResult<T>)
    ensures
        r == Ok::<Option<T>, MergeError>(Some(prev)),
{
    Ok(Some(prev))
}

/// Always replace the previous value with the next value.
pub fn replace<T, C>(prev: T, next: T, context: &C) -> (r: MergeResult<T>)
    ensures
        r == Ok::<Option<T>, MergeError>(Some(next)),
{
    Ok(Some(next))
}

/// Append the items from the next vector to the end of the previous vector.
pub fn append_vec<T, C>(prev: Vec<T>, next: Vec<T>, context: &C) -> (r: MergeResult<Vec<T>>)
    ensures
        r matches Ok(Some(v)) && v@ == prev@ + next@,
{
    let mut prev = prev;
    let mut next = next;
    prev.append(&mut next);
    Ok(Some(prev))
}

/// Prepend the items from the next vector to the start of the previous vector.
pub fn prepend_vec<T, C>(prev: Vec<T>, next: Vec<T>, context: &C) -> (r: MergeResult<Vec<T>>)
    ensures
        r matches Ok(Some(v)) && v@ == next@ + prev@,
{
    let mut prev = prev;
    let mut next = next;
    let mut new: Vec<T> = Vec::new();
    new.append(&mut next);
    new.append(&mut prev);
    Ok(Some(new))
}

/// Shallow merge the next [`HashMap`] into the previous [`HashMap`]. Any items in the
/// next [`HashMap`] will overwrite items in the previous [`HashMap`] of the same key.
pub fn merge_hashmap<K: Eq + Hash, V, C>(
    prev: HashMap<K, V>,
    next: HashMap<K, V>,
    context: &C,
) -> (r: MergeResult<HashMap<K, V>>)
    ensures
        r matches Ok(Some(m)) && (obeys_key_model::<K>() ==> m@ == prev@.union_prefer_right(
            next@,
        )),
{
    broadcast use vstd::std_specs::hash::group_hash_axioms;

    let ghost n = next@;
    let ghost p0 = prev@;
    let entries = hash_map_entries(next);
    let ghost s = entries@;
    let mut prev = prev;
    for pair in it: entries
        invariant
            it.seq() == s,
            obeys_key_model::<K>() ==> prev@ == insert_all(p0, s.take(it.index() as int)),
    {
        let (key, value) = pair;
        proof {
            assert(s.take(it.index() + 1).drop_last() =~= s.take(it.index() as int));
        }
        prev.insert(key, value);
    }
    proof {
        if obeys_key_model::<K>() {
            assert(s.take(s.len() as int) =~= s);
            lemma_insert_all_union(p0, s);
            lemma_listing_builds(n, s);
        }
    }
    Ok(Some(prev))
}

/// Shallow merge the next [`HashSet`] into the previous [`HashSet`], overwriting duplicates.
pub fn merge_hashset<T: Eq + Hash, C>(prev: HashSet<T>, next: HashSet<T>, context: &C) -> (r:
    MergeResult<HashSet<T>>)
    ensures
        r matches Ok(Some(m)) && (obeys_key_model::<T>() ==> m@ == prev@.union(next@)),
{
    broadcast use vstd::std_specs::hash::group_hash_axioms;

    let ghost n = next@;
    let ghost p0 = prev@;
    let items = hash_set_items(next);
    let ghost s = items@;
    let mut prev = prev;
    for item in it: items
        invariant
            it.seq() == s,
            obeys_key_model::<T>() ==> prev@ == p0.union(s.take(it.index() as int).to_set()),
    {
        proof {
            lemma_take_to_set(s, it.index() as int);
        }
        prev.insert(item);
    }
    proof {
        assert(s.take(s.len() as int) =~= s);
    }
    Ok(Some(prev))
}

/// Shallow merge the next [`BTreeMap`] into the previous [`BTreeMap`]. Any items in the
/// next [`BTreeMap`] will overwrite items in the previous [`BTreeMap`] of the same key.
pub fn merge_btreemap<K: Eq + Hash + Ord, V, C>(
    prev: BTreeMap<K, V>,
    next: BTreeMap<K, V>,
    context: &C,
) -> (r: MergeResult<BTreeMap<K, V>>)
    ensures
        r matches Ok(Some(m)) && (ordered_keys::<K>() ==> m@ == prev@.union_prefer_right(
            next@,
        )),
{
    let ghost n = next@;
    let ghost p0 = prev@;
    let entries = btree_map_entries(next);
    let ghost s = entries@;
    let mut prev = prev;
    for pair in it: entries
        invariant
            it.seq() == s,
            ordered_keys::<K>() ==> prev@ == insert_all(p0, s.take(it.index() as int)),
    {
        let (key, value) = pair;
        proof {
            assert(s.take(it.index() + 1).drop_last() =~= s.take(it.index() as int));
        }
        prev.insert(key, value);
    }
    proof {
        if ordered_keys::<K>() {
            assert(s.take(s.len() as int) =~= s);
            lemma_insert_all_union(p0, s);
            lemma_listing_builds(n, s);
        }
    }
    Ok(Some(prev))
}

/// Shallow merge the next [`BTreeSet`] into the previous [`BTreeSet`], overwriting duplicates.
pub fn merge_btreeset<T: Eq + Hash + Ord, C>(
    prev: BTreeSet<T>,
    next: BTreeSet<T>,
    context: &C,
) -> (r: MergeResult<BTreeSet<T>>)
    ensures
        r matches Ok(Some(m)) && (ordered_keys::<T>() ==> m@ == prev@.union(next@)),
{
    let ghost n = next@;
    let ghost p0 = prev@;
    let items = btree_set_items(next);
    let ghost s = items@;
    let mut prev = prev;
    for item in it: items
        invariant
            it.seq() == s,
            ordered_keys::<T>() ==> prev@ == p0.union(s.take(it.index() as int).to_set()),
    {
        proof {
            lemma_take_to_set(s, it.index() as int);
        }
        prev.insert(item);
    }
    proof {
        assert(s.take(s.len() as int) =~= s);
    }
    Ok(Some(prev))
}

} // verus!
