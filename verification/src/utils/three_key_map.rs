//! Values that are found by keys of three kinds.
use crate::utils::simple_map::{key_list, SimpleMap};
use std::hash::Hash;
use vstd::prelude::*;

verus! {

broadcast use vstd::std_specs::hash::group_hash_axioms;

/// What became of an attempt to link a key to the value of another.
#[derive(Debug, Clone, Copy, PartialEq, Eq, Structural)]
pub enum LinkResult {
    Success,
    NewKeyAlreadyExists,
    ExistingKeyDoesNotExist,
}

/// The map with `index` wherever it had `last`.
pub open spec fn remapped<K>(m: Map<K, usize>, last: usize, index: usize) -> Map<K, usize> {
    m.map_values(
        |i: usize|
            if i == last {
                index
            } else {
                i
            },
    )
}

/// The sequence without the element at `index`, whose place the last takes.
pub open spec fn swap_removed<T>(s: Seq<T>, index: int) -> Seq<T> {
    s.update(index, s.last()).drop_last()
}

/// The entries of the map that `keep` holds of.
pub open spec fn kept<K>(m: Map<K, usize>, keep: spec_fn(K, usize) -> bool) -> Map<K, usize> {
    m.restrict(Set::new(|k: K| m.contains_key(k) && keep(k, m[k])))
}

/// The map without the entries with `index`, but for that of the key `except`.
pub open spec fn without_links<K>(m: Map<K, usize>, index: usize, except: Option<K>) -> Map<
    K,
    usize,
> {
    kept(m, |k: K, i: usize| i != index || Some(k) == except)
}

/// Puts `index` wherever the map has `last`.
pub(crate) fn remap<K: Copy + Hash + Eq>(m: &mut SimpleMap<K, usize>, last: usize, index: usize)
    requires
        vstd::std_specs::hash::obeys_key_model::<K>(),
    ensures
        final(m)@ == remapped(old(m)@, last, index),
{
    let keys = key_list(m);
    let n: usize = keys.len();
    let mut i: usize = 0;
    let ghost before = m@;
    while i < n
        invariant
            vstd::std_specs::hash::obeys_key_model::<K>(),
            n == keys@.len(),
            i <= n,
            keys@.no_duplicates(),
            keys@.to_set() == before.dom(),
            m@.dom() == before.dom(),
            forall|j: int|
                0 <= j < i ==> m@[#[trigger] keys@[j]] == remapped(before, last, index)[keys@[j]],
            forall|j: int| i <= j < n ==> m@[#[trigger] keys@[j]] == before[keys@[j]],
        decreases n - i,
    {
        let k = keys[i];
        proof {
            assert(keys@.to_set().contains(keys@[i as int]));
        }
        let at: usize = match m.get(&k) {
            Some(at) => *at,
            None => last,
        };
        if at == last {
            m.insert(k, index);
            assert(m@.dom() =~= before.dom());
        }
        i = i + 1;
    }
    proof {
        assert forall|k: K| #[trigger] before.contains_key(k) implies m@[k] == remapped(
            before,
            last,
            index,
        )[k] by {
            assert(keys@.to_set().contains(k));
            let j = choose|j: int| 0 <= j < keys@.len() && keys@[j] == k;
            assert(keys@[j] == k);
        }
        assert(m@ =~= remapped(before, last, index));
    }
}

/// Drops the entries with `index`, but for that of the key `except`.
pub(crate) fn drop_links<K: Copy + Hash + Eq>(
    m: &mut SimpleMap<K, usize>,
    index: usize,
    except: Option<K>,
)
    requires
        vstd::std_specs::hash::obeys_key_model::<K>(),
    ensures
        final(m)@ == without_links(old(m)@, index, except),
{
    let keys = key_list(m);
    let n: usize = keys.len();
    let mut i: usize = 0;
    let ghost before = m@;
    let saved: Option<K> = match except {
        Some(k) => match m.get(&k) {
            Some(at) => if *at == index {
                Some(k)
            } else {
                None
            },
            None => None,
        },
        None => None,
    };
    while i < n
        invariant
            vstd::std_specs::hash::obeys_key_model::<K>(),
            n == keys@.len(),
            i <= n,
            keys@.no_duplicates(),
            keys@.to_set() == before.dom(),
            forall|k: K| #[trigger] m@.contains_key(k) ==> before.contains_key(k) && m@[k] == before[k],
            forall|j: int|
                0 <= j < i ==> (m@.contains_key(#[trigger] keys@[j]) <==> before[keys@[j]] != index),
            forall|j: int| i <= j < n ==> m@.contains_key(#[trigger] keys@[j]),
        decreases n - i,
    {
        let k = keys[i];
        proof {
            assert(keys@.to_set().contains(keys@[i as int]));
        }
        let at: Option<usize> = match m.get(&k) {
            Some(at) => Some(*at),
            None => None,
        };
        if at == Some(index) {
            m.remove(&k);
        }
        i = i + 1;
    }
    proof {
        assert forall|k: K| #[trigger] before.contains_key(k) implies (m@.contains_key(k)
            <==> before[k] != index) by {
            assert(keys@.to_set().contains(k));
            let j = choose|j: int| 0 <= j < keys@.len() && keys@[j] == k;
            assert(keys@[j] == k);
        }
    }
    match saved {
        Some(k) => {
            m.insert(k, index);
        },
        None => {},
    }
    assert(m@ =~= without_links(before, index, except));
}

/// Adds a value under a key. Where the key is there already, the new value comes back, and the
/// key is left without one.
fn insert_by_key<K: Copy + Hash + Eq, V>(
    map: &mut SimpleMap<K, usize>,
    values: &mut Vec<(V, usize)>,
    k: K,
    v: V,
) -> (r: Option<V>)
    requires
        vstd::std_specs::hash::obeys_key_model::<K>(),
    ensures
        final(map)@ == old(map)@.insert(k, old(values)@.len() as usize),
        !old(map)@.contains_key(k) ==> r is None && final(values)@ == old(values)@.push(
            (v, 1usize),
        ),
        old(map)@.contains_key(k) ==> r == Some(v) && final(values)@ == old(values)@,
{
    values.push((v, 1));
    let index: usize = values.len() - 1;
    match map.insert(k, index) {
        Some(_) => match values.pop() {
            Some(last) => {
                assert(values@ =~= old(values)@);
                Some(last.0)
            },
            None => None,
        },
        None => None,
    }
}

/// Takes a key away from its value; tells where the value is and how many keys it has left.
fn remove_by_key<K: Copy + Hash + Eq, V>(
    map: &mut SimpleMap<K, usize>,
    values: &mut Vec<(V, usize)>,
    k: &K,
) -> (r: Option<(usize, usize)>)
    requires
        vstd::std_specs::hash::obeys_key_model::<K>(),
        old(map)@.contains_key(*k) && old(map)@[*k] < old(values)@.len() ==> old(values)@[old(
            map,
        )@[*k] as int].1 >= 1,
    ensures
        final(map)@ == old(map)@.remove(*k),
        r is Some <==> old(map)@.contains_key(*k) && old(map)@[*k] < old(values)@.len(),
        r is None ==> final(values)@ == old(values)@,
        r matches Some((index, count)) ==> {
            let (v, c) = old(values)@[index as int];
            &&& index == old(map)@[*k]
            &&& count == c - 1
            &&& final(values)@ == old(values)@.update(index as int, (v, count))
        },
{
    match map.remove(k) {
        Some(index) => {
            if index < values.len() {
                let count: usize = values[index].1 - 1;
                set_count(values, index, count);
                Some((index, count))
            } else {
                None
            }
        },
        None => {
            assert(old(map)@.remove(*k) =~= old(map)@);
            None
        },
    }
}

fn set_count<V>(values: &mut Vec<(V, usize)>, index: usize, count: usize)
    requires
        index < old(values)@.len(),
    ensures
        final(values)@ == old(values)@.update(index as int, (old(values)@[index as int].0, count)),
{
    values[index].1 = count;
    assert(values@ =~= old(values)@.update(index as int, (old(values)@[index as int].0, count)));
}

/// Links a new key to the value at `index`.
fn add_link<K: Copy + Hash + Eq, V>(
    map: &mut SimpleMap<K, usize>,
    values: &mut Vec<(V, usize)>,
    new_key: K,
    index: usize,
)
    requires
        vstd::std_specs::hash::obeys_key_model::<K>(),
        index < old(values)@.len(),
        old(values)@[index as int].1 < usize::MAX,
    ensures
        final(map)@ == old(map)@.insert(new_key, index),
        final(values)@ == old(values)@.update(
            index as int,
            (old(values)@[index as int].0, (old(values)@[index as int].1 + 1) as usize),
        ),
{
    map.insert(new_key, index);
    let count: usize = values[index].1 + 1;
    set_count(values, index, count);
}

/// The keys hash and compare as equal where they are equal.
pub open spec fn obey_key_models<K1, K2, K3>() -> bool {
    &&& vstd::std_specs::hash::obeys_key_model::<K1>()
    &&& vstd::std_specs::hash::obeys_key_model::<K2>()
    &&& vstd::std_specs::hash::obeys_key_model::<K3>()
}

/// Values, each with the number of keys that were linked to it, and keys of three kinds by which
/// they are found.
pub struct ThreeKeyMap<K1, K2, K3, V> {
    pub key1_map: SimpleMap<K1, usize>,
    pub key2_map: SimpleMap<K2, usize>,
    pub key3_map: SimpleMap<K3, usize>,
    pub values: Vec<(V, usize)>,
}

/// A link to the value at `index` can be counted.
pub open spec fn linkable<V>(values: Seq<(V, usize)>, index: usize) -> bool {
    index < values.len() && values[index as int].1 < usize::MAX
}

/// The values with one more link to that at `index`.
pub open spec fn link_counted<V>(values: Seq<(V, usize)>, index: usize) -> Seq<(V, usize)> {
    values.update(
        index as int,
        (values[index as int].0, (values[index as int].1 + 1) as usize),
    )
}

/// The values with one link less to that at `index`.
pub open spec fn unlink_counted<V>(values: Seq<(V, usize)>, index: usize) -> Seq<(V, usize)> {
    values.update(
        index as int,
        (values[index as int].0, (values[index as int].1 - 1) as usize),
    )
}

/// What looking up a key gives.
pub open spec fn found<K, V>(map: Map<K, usize>, values: Seq<(V, usize)>, k: K) -> Option<V> {
    if map.contains_key(k) && map[k] < values.len() {
        Some(values[map[k] as int].0)
    } else {
        None
    }
}

/// What the keys and values of a map are.
pub open spec fn same<K1, K2, K3, V>(
    a: ThreeKeyMap<K1, K2, K3, V>,
    b: ThreeKeyMap<K1, K2, K3, V>,
) -> bool {
    &&& a.key1_map@ == b.key1_map@
    &&& a.key2_map@ == b.key2_map@
    &&& a.key3_map@ == b.key3_map@
    &&& a.values@ == b.values@
}

fn get_by_key<'a, K: Copy + Hash + Eq, V>(
    map: &SimpleMap<K, usize>,
    values: &'a Vec<(V, usize)>,
    k: &K,
) -> (r: Option<&'a V>)
    requires
        vstd::std_specs::hash::obeys_key_model::<K>(),
    ensures
        r is Some <==> found(map@, values@, *k) is Some,
        r matches Some(v) ==> Some(*v) == found(map@, values@, *k),
{
    match map.get(k) {
        Some(index) => if *index < values.len() {
            Some(&values[*index].0)
        } else {
            None
        },
        None => None,
    }
}

fn index_of<K: Copy + Hash + Eq>(map: &SimpleMap<K, usize>, k: &K) -> (r: Option<usize>)
    requires
        vstd::std_specs::hash::obeys_key_model::<K>(),
    ensures
        r == (if map@.contains_key(*k) {
            Some(map@[*k])
        } else {
            None
        }),
{
    match map.get(k) {
        Some(index) => Some(*index),
        None => None,
    }
}

impl<K1: Copy + Hash + Eq, K2: Copy + Hash + Eq, K3: Copy + Hash + Eq, V> ThreeKeyMap<K1, K2, K3, V> {
    pub fn with_capacities(
        values_cap: usize,
        k1_cap: usize,
        k2_cap: usize,
        k3_cap: usize,
    ) -> (m: Self)
        ensures
            m.key1_map@ == Map::<K1, usize>::empty(),
            m.key2_map@ == Map::<K2, usize>::empty(),
            m.key3_map@ == Map::<K3, usize>::empty(),
            m.values@ == Seq::<(V, usize)>::empty(),
            m.wf(),
            m.exact(),
    {
        ThreeKeyMap {
            key1_map: SimpleMap::with_capacity(k1_cap),
            key2_map: SimpleMap::with_capacity(k2_cap),
            key3_map: SimpleMap::with_capacity(k3_cap),
            values: Vec::with_capacity(values_cap),
        }
    }

    /// Tells whether there are neither keys nor values.
    pub fn is_empty(&self) -> (b: bool)
        requires
            obey_key_models::<K1, K2, K3>(),
        ensures
            b <==> self.key1_map@.is_empty() && self.key2_map@.is_empty()
                && self.key3_map@.is_empty() && self.values@.len() == 0,
    {
        self.key1_map.is_empty() && self.key2_map.is_empty() && self.key3_map.is_empty()
            && self.values.is_empty()
    }

    /// The keys of the first kind, each once.
    pub fn key1_iter(&self) -> (keys: Vec<K1>)
        requires
            obey_key_models::<K1, K2, K3>(),
        ensures
            keys@.no_duplicates(),
            keys@.to_set() == self.key1_map@.dom(),
    {
        key_list(&self.key1_map)
    }

    /// Takes out the value at `index`; the last value takes its place, and the keys of the last
    /// value follow it.
    fn swap_remove(&mut self, index: usize) -> (v: V)
        requires
            obey_key_models::<K1, K2, K3>(),
            index < old(self).values@.len(),
        ensures
            v == old(self).values@[index as int].0,
            final(self).values@ == swap_removed(old(self).values@, index as int),
            final(self).key1_map@ == remapped(
                old(self).key1_map@,
                (old(self).values@.len() - 1) as usize,
                index,
            ),
            final(self).key2_map@ == remapped(
                old(self).key2_map@,
                (old(self).values@.len() - 1) as usize,
                index,
            ),
            final(self).key3_map@ == remapped(
                old(self).key3_map@,
                (old(self).values@.len() - 1) as usize,
                index,
            ),
    {
        let last: usize = self.values.len() - 1;
        let (value, _) = self.values.swap_remove(index);
        assert(self.values@ =~= swap_removed(old(self).values@, index as int));
        remap(&mut self.key1_map, last, index);
        remap(&mut self.key2_map, last, index);
        remap(&mut self.key3_map, last, index);
        value
    }

    /// Takes every other key away from the value of `k`. The number of keys that the value is
    /// said to have stays as it is.
    pub fn unlink_all_but_key1(&mut self, k: &K1)
        requires
            obey_key_models::<K1, K2, K3>(),
        ensures
            final(self).values@ == old(self).values@,
            !old(self).key1_map@.contains_key(*k) ==> same(*final(self), *old(self)),
            old(self).key1_map@.contains_key(*k) ==> {
                let index = old(self).key1_map@[*k];
                &&& final(self).key1_map@ == without_links(old(self).key1_map@, index, Some(*k))
                &&& final(self).key2_map@ == without_links(old(self).key2_map@, index, None)
                &&& final(self).key3_map@ == without_links(old(self).key3_map@, index, None)
            },
    {
        match index_of(&self.key1_map, k) {
            Some(index) => {
                drop_links(&mut self.key1_map, index, Some(*k));
                drop_links(&mut self.key2_map, index, None);
                drop_links(&mut self.key3_map, index, None);
            },
            None => {},
        }
    }

    /// Adds a value under a key of the first kind. Where the key is there already, the value comes
    /// back, and the key is left without a value of its own.
    pub fn insert_by_key1(&mut self, k: K1, v: V) -> (r: Option<V>)
        requires
            obey_key_models::<K1, K2, K3>(),
        ensures
            final(self).key1_map@ == old(self).key1_map@.insert(
                k,
                old(self).values@.len() as usize,
            ),
            final(self).key2_map@ == old(self).key2_map@,
            final(self).key3_map@ == old(self).key3_map@,
            !old(self).key1_map@.contains_key(k) ==> r is None && final(self).values@ == old(
                self,
            ).values@.push((v, 1usize)),
            old(self).key1_map@.contains_key(k) ==> r == Some(v) && final(self).values@ == old(
                self,
            ).values@,
    {
        insert_by_key(&mut self.key1_map, &mut self.values, k, v)
    }

    pub fn get_by_key1(&self, k: &K1) -> (r: Option<&V>)
        requires
            obey_key_models::<K1, K2, K3>(),
        ensures
            r is Some <==> found(self.key1_map@, self.values@, *k) is Some,
            r matches Some(v) ==> Some(*v) == found(self.key1_map@, self.values@, *k),
    {
        get_by_key(&self.key1_map, &self.values, k)
    }

    /// What taking away a key of the first kind leaves: the value goes with its last key.
    pub open spec fn removed_by_key1(self, after: Self, k: K1, r: Option<V>) -> bool {
        let index = self.key1_map@[k];
        let last = (self.values@.len() - 1) as usize;
        if !self.key1_map@.contains_key(k) {
            r is None && same(after, self)
        } else if index < self.values@.len() && self.values@[index as int].1 == 1 {
            &&& r == Some(self.values@[index as int].0)
            &&& after.values@ == swap_removed(self.values@, index as int)
            &&& after.key1_map@ == remapped(self.key1_map@.remove(k), last, index)
            &&& after.key2_map@ == remapped(self.key2_map@, last, index)
            &&& after.key3_map@ == remapped(self.key3_map@, last, index)
        } else {
            &&& r is None
            &&& after.key1_map@ == self.key1_map@.remove(k)
            &&& after.key2_map@ == self.key2_map@
            &&& after.key3_map@ == self.key3_map@
            &&& after.values@ == (if index < self.values@.len() {
                unlink_counted(self.values@, index)
            } else {
                self.values@
            })
        }
    }

    /// Takes a key away; the value comes back where it was its last.
    pub fn remove_by_key1(&mut self, k: &K1) -> (r: Option<V>)
        requires
            obey_key_models::<K1, K2, K3>(),
            old(self).key1_map@.contains_key(*k) && old(self).key1_map@[*k] < old(
                self,
            ).values@.len() ==> old(self).values@[old(self).key1_map@[*k] as int].1 >= 1,
        ensures
            old(self).removed_by_key1(*final(self), *k, r),
    {
        match remove_by_key(&mut self.key1_map, &mut self.values, k) {
            Some((index, count)) => if count == 0 {
                let v = self.swap_remove(index);
                assert(self.values@ =~= swap_removed(old(self).values@, index as int));
                Some(v)
            } else {
                None
            },
            None => {
                assert(!old(self).key1_map@.contains_key(*k) ==> old(self).key1_map@.remove(*k)
                    =~= old(self).key1_map@);
                None
            },
        }
    }

    /// Adds a value under a key of the second kind. Where the key is there already, the value comes
    /// back, and the key is left without a value of its own.
    pub fn insert_by_key2(&mut self, k: K2, v: V) -> (r: Option<V>)
        requires
            obey_key_models::<K1, K2, K3>(),
        ensures
            final(self).key2_map@ == old(self).key2_map@.insert(
                k,
                old(self).values@.len() as usize,
            ),
            final(self).key1_map@ == old(self).key1_map@,
            final(self).key3_map@ == old(self).key3_map@,
            !old(self).key2_map@.contains_key(k) ==> r is None && final(self).values@ == old(
                self,
            ).values@.push((v, 1usize)),
            old(self).key2_map@.contains_key(k) ==> r == Some(v) && final(self).values@ == old(
                self,
            ).values@,
    {
        insert_by_key(&mut self.key2_map, &mut self.values, k, v)
    }

    pub fn get_by_key2(&self, k: &K2) -> (r: Option<&V>)
        requires
            obey_key_models::<K1, K2, K3>(),
        ensures
            r is Some <==> found(self.key2_map@, self.values@, *k) is Some,
            r matches Some(v) ==> Some(*v) == found(self.key2_map@, self.values@, *k),
    {
        get_by_key(&self.key2_map, &self.values, k)
    }

    /// What taking away a key of the second kind leaves: the value goes with its last key.
    pub open spec fn removed_by_key2(self, after: Self, k: K2, r: Option<V>) -> bool {
        let index = self.key2_map@[k];
        let last = (self.values@.len() - 1) as usize;
        if !self.key2_map@.contains_key(k) {
            r is None && same(after, self)
        } else if index < self.values@.len() && self.values@[index as int].1 == 1 {
            &&& r == Some(self.values@[index as int].0)
            &&& after.values@ == swap_removed(self.values@, index as int)
            &&& after.key2_map@ == remapped(self.key2_map@.remove(k), last, index)
            &&& after.key1_map@ == remapped(self.key1_map@, last, index)
            &&& after.key3_map@ == remapped(self.key3_map@, last, index)
        } else {
            &&& r is None
            &&& after.key2_map@ == self.key2_map@.remove(k)
            &&& after.key1_map@ == self.key1_map@
            &&& after.key3_map@ == self.key3_map@
            &&& after.values@ == (if index < self.values@.len() {
                unlink_counted(self.values@, index)
            } else {
                self.values@
            })
        }
    }

    /// Takes a key away; the value comes back where it was its last.
    pub fn remove_by_key2(&mut self, k: &K2) -> (r: Option<V>)
        requires
            obey_key_models::<K1, K2, K3>(),
            old(self).key2_map@.contains_key(*k) && old(self).key2_map@[*k] < old(
                self,
            ).values@.len() ==> old(self).values@[old(self).key2_map@[*k] as int].1 >= 1,
        ensures
            old(self).removed_by_key2(*final(self), *k, r),
    {
        match remove_by_key(&mut self.key2_map, &mut self.values, k) {
            Some((index, count)) => if count == 0 {
                let v = self.swap_remove(index);
                assert(self.values@ =~= swap_removed(old(self).values@, index as int));
                Some(v)
            } else {
                None
            },
            None => {
                assert(!old(self).key2_map@.contains_key(*k) ==> old(self).key2_map@.remove(*k)
                    =~= old(self).key2_map@);
                None
            },
        }
    }

    /// Adds a value under a key of the third kind. Where the key is there already, the value comes
    /// back, and the key is left without a value of its own.
    pub fn insert_by_key3(&mut self, k: K3, v: V) -> (r: Option<V>)
        requires
            obey_key_models::<K1, K2, K3>(),
        ensures
            final(self).key3_map@ == old(self).key3_map@.insert(
                k,
                old(self).values@.len() as usize,
            ),
            final(self).key1_map@ == old(self).key1_map@,
            final(self).key2_map@ == old(self).key2_map@,
            !old(self).key3_map@.contains_key(k) ==> r is None && final(self).values@ == old(
                self,
            ).values@.push((v, 1usize)),
            old(self).key3_map@.contains_key(k) ==> r == Some(v) && final(self).values@ == old(
                self,
            ).values@,
    {
        insert_by_key(&mut self.key3_map, &mut self.values, k, v)
    }

    pub fn get_by_key3(&self, k: &K3) -> (r: Option<&V>)
        requires
            obey_key_models::<K1, K2, K3>(),
        ensures
            r is Some <==> found(self.key3_map@, self.values@, *k) is Some,
            r matches Some(v) ==> Some(*v) == found(self.key3_map@, self.values@, *k),
    {
        get_by_key(&self.key3_map, &self.values, k)
    }

    /// What taking away a key of the third kind leaves: the value goes with its last key.
    pub open spec fn removed_by_key3(self, after: Self, k: K3, r: Option<V>) -> bool {
        let index = self.key3_map@[k];
        let last = (self.values@.len() - 1) as usize;
        if !self.key3_map@.contains_key(k) {
            r is None && same(after, self)
        } else if index < self.values@.len() && self.values@[index as int].1 == 1 {
            &&& r == Some(self.values@[index as int].0)
            &&& after.values@ == swap_removed(self.values@, index as int)
            &&& after.key3_map@ == remapped(self.key3_map@.remove(k), last, index)
            &&& after.key1_map@ == remapped(self.key1_map@, last, index)
            &&& after.key2_map@ == remapped(self.key2_map@, last, index)
        } else {
            &&& r is None
            &&& after.key3_map@ == self.key3_map@.remove(k)
            &&& after.key1_map@ == self.key1_map@
            &&& after.key2_map@ == self.key2_map@
            &&& after.values@ == (if index < self.values@.len() {
                unlink_counted(self.values@, index)
            } else {
                self.values@
            })
        }
    }

    /// Takes a key away; the value comes back where it was its last.
    pub fn remove_by_key3(&mut self, k: &K3) -> (r: Option<V>)
        requires
            obey_key_models::<K1, K2, K3>(),
            old(self).key3_map@.contains_key(*k) && old(self).key3_map@[*k] < old(
                self,
            ).values@.len() ==> old(self).values@[old(self).key3_map@[*k] as int].1 >= 1,
        ensures
            old(self).removed_by_key3(*final(self), *k, r),
    {
        match remove_by_key(&mut self.key3_map, &mut self.values, k) {
            Some((index, count)) => if count == 0 {
                let v = self.swap_remove(index);
                assert(self.values@ =~= swap_removed(old(self).values@, index as int));
                Some(v)
            } else {
                None
            },
            None => {
                assert(!old(self).key3_map@.contains_key(*k) ==> old(self).key3_map@.remove(*k)
                    =~= old(self).key3_map@);
                None
            },
        }
    }

    /// Links a new key of the first kind to the value of a key of the first.
    pub fn link_key1_to_key1(&mut self, new_k: K1, existing_k: &K1) -> (r: LinkResult)
        requires
            obey_key_models::<K1, K2, K3>(),
            !old(self).key1_map@.contains_key(new_k) && old(self).key1_map@.contains_key(
                *existing_k,
            ) ==> linkable(old(self).values@, old(self).key1_map@[*existing_k]),
        ensures
            r == link_result(
                old(self).key1_map@.contains_key(new_k),
                old(self).key1_map@.contains_key(*existing_k),
            ),
            r != LinkResult::Success ==> same(*final(self), *old(self)),
            r == LinkResult::Success ==> {
                let index = old(self).key1_map@[*existing_k];
                &&& final(self).key1_map@ == old(self).key1_map@.insert(new_k, index)
                &&& final(self).values@ == link_counted(old(self).values@, index)
            },
            final(self).key2_map@ == old(self).key2_map@,
            final(self).key3_map@ == old(self).key3_map@,
    {
        if self.key1_map.contains_key(&new_k) {
            return LinkResult::NewKeyAlreadyExists;
        }
        match index_of(&self.key1_map, existing_k) {
            Some(index) => {
                add_link(&mut self.key1_map, &mut self.values, new_k, index);
                LinkResult::Success
            },
            None => LinkResult::ExistingKeyDoesNotExist,
        }
    }

    /// Links a new key of the first kind to the value of a key of the second.
    pub fn link_key1_to_key2(&mut self, new_k: K1, existing_k: &K2) -> (r: LinkResult)
        requires
            obey_key_models::<K1, K2, K3>(),
            !old(self).key1_map@.contains_key(new_k) && old(self).key2_map@.contains_key(
                *existing_k,
            ) ==> linkable(old(self).values@, old(self).key2_map@[*existing_k]),
        ensures
            r == link_result(
                old(self).key1_map@.contains_key(new_k),
                old(self).key2_map@.contains_key(*existing_k),
            ),
            r != LinkResult::Success ==> same(*final(self), *old(self)),
            r == LinkResult::Success ==> {
                let index = old(self).key2_map@[*existing_k];
                &&& final(self).key1_map@ == old(self).key1_map@.insert(new_k, index)
                &&& final(self).values@ == link_counted(old(self).values@, index)
            },
            final(self).key2_map@ == old(self).key2_map@,
            final(self).key3_map@ == old(self).key3_map@,
    {
        if self.key1_map.contains_key(&new_k) {
            return LinkResult::NewKeyAlreadyExists;
        }
        match index_of(&self.key2_map, existing_k) {
            Some(index) => {
                add_link(&mut self.key1_map, &mut self.values, new_k, index);
                LinkResult::Success
            },
            None => LinkResult::ExistingKeyDoesNotExist,
        }
    }

    /// Links a new key of the first kind to the value of a key of the third.
    pub fn link_key1_to_key3(&mut self, new_k: K1, existing_k: &K3) -> (r: LinkResult)
        requires
            obey_key_models::<K1, K2, K3>(),
            !old(self).key1_map@.contains_key(new_k) && old(self).key3_map@.contains_key(
                *existing_k,
            ) ==> linkable(old(self).values@, old(self).key3_map@[*existing_k]),
        ensures
            r == link_result(
                old(self).key1_map@.contains_key(new_k),
                old(self).key3_map@.contains_key(*existing_k),
            ),
            r != LinkResult::Success ==> same(*final(self), *old(self)),
            r == LinkResult::Success ==> {
                let index = old(self).key3_map@[*existing_k];
                &&& final(self).key1_map@ == old(self).key1_map@.insert(new_k, index)
                &&& final(self).values@ == link_counted(old(self).values@, index)
            },
            final(self).key2_map@ == old(self).key2_map@,
            final(self).key3_map@ == old(self).key3_map@,
    {
        if self.key1_map.contains_key(&new_k) {
            return LinkResult::NewKeyAlreadyExists;
        }
        match index_of(&self.key3_map, existing_k) {
            Some(index) => {
                add_link(&mut self.key1_map, &mut self.values, new_k, index);
                LinkResult::Success
            },
            None => LinkResult::ExistingKeyDoesNotExist,
        }
    }

    /// Links a new key of the second kind to the value of a key of the first.
    pub fn link_key2_to_key1(&mut self, new_k: K2, existing_k: &K1) -> (r: LinkResult)
        requires
            obey_key_models::<K1, K2, K3>(),
            !old(self).key2_map@.contains_key(new_k) && old(self).key1_map@.contains_key(
                *existing_k,
            ) ==> linkable(old(self).values@, old(self).key1_map@[*existing_k]),
        ensures
            r == link_result(
                old(self).key2_map@.contains_key(new_k),
                old(self).key1_map@.contains_key(*existing_k),
            ),
            r != LinkResult::Success ==> same(*final(self), *old(self)),
            r == LinkResult::Success ==> {
                let index = old(self).key1_map@[*existing_k];
                &&& final(self).key2_map@ == old(self).key2_map@.insert(new_k, index)
                &&& final(self).values@ == link_counted(old(self).values@, index)
            },
            final(self).key1_map@ == old(self).key1_map@,
            final(self).key3_map@ == old(self).key3_map@,
    {
        if self.key2_map.contains_key(&new_k) {
            return LinkResult::NewKeyAlreadyExists;
        }
        match index_of(&self.key1_map, existing_k) {
            Some(index) => {
                add_link(&mut self.key2_map, &mut self.values, new_k, index);
                LinkResult::Success
            },
            None => LinkResult::ExistingKeyDoesNotExist,
        }
    }

    /// Links a new key of the second kind to the value of a key of the second.
    pub fn link_key2_to_key2(&mut self, new_k: K2, existing_k: &K2) -> (r: LinkResult)
        requires
            obey_key_models::<K1, K2, K3>(),
            !old(self).key2_map@.contains_key(new_k) && old(self).key2_map@.contains_key(
                *existing_k,
            ) ==> linkable(old(self).values@, old(self).key2_map@[*existing_k]),
        ensures
            r == link_result(
                old(self).key2_map@.contains_key(new_k),
                old(self).key2_map@.contains_key(*existing_k),
            ),
            r != LinkResult::Success ==> same(*final(self), *old(self)),
            r == LinkResult::Success ==> {
                let index = old(self).key2_map@[*existing_k];
                &&& final(self).key2_map@ == old(self).key2_map@.insert(new_k, index)
                &&& final(self).values@ == link_counted(old(self).values@, index)
            },
            final(self).key1_map@ == old(self).key1_map@,
            final(self).key3_map@ == old(self).key3_map@,
    {
        if self.key2_map.contains_key(&new_k) {
            return LinkResult::NewKeyAlreadyExists;
        }
        match index_of(&self.key2_map, existing_k) {
            Some(index) => {
                add_link(&mut self.key2_map, &mut self.values, new_k, index);
                LinkResult::Success
            },
            None => LinkResult::ExistingKeyDoesNotExist,
        }
    }

    /// Links a new key of the second kind to the value of a key of the third.
    pub fn link_key2_to_key3(&mut self, new_k: K2, existing_k: &K3) -> (r: LinkResult)
        requires
            obey_key_models::<K1, K2, K3>(),
            !old(self).key2_map@.contains_key(new_k) && old(self).key3_map@.contains_key(
                *existing_k,
            ) ==> linkable(old(self).values@, old(self).key3_map@[*existing_k]),
        ensures
            r == link_result(
                old(self).key2_map@.contains_key(new_k),
                old(self).key3_map@.contains_key(*existing_k),
            ),
            r != LinkResult::Success ==> same(*final(self), *old(self)),
            r == LinkResult::Success ==> {
                let index = old(self).key3_map@[*existing_k];
                &&& final(self).key2_map@ == old(self).key2_map@.insert(new_k, index)
                &&& final(self).values@ == link_counted(old(self).values@, index)
            },
            final(self).key1_map@ == old(self).key1_map@,
            final(self).key3_map@ == old(self).key3_map@,
    {
        if self.key2_map.contains_key(&new_k) {
            return LinkResult::NewKeyAlreadyExists;
        }
        match index_of(&self.key3_map, existing_k) {
            Some(index) => {
                add_link(&mut self.key2_map, &mut self.values, new_k, index);
                LinkResult::Success
            },
            None => LinkResult::ExistingKeyDoesNotExist,
        }
    }

    /// Links a new key of the third kind to the value of a key of the first.
    pub fn link_key3_to_key1(&mut self, new_k: K3, existing_k: &K1) -> (r: LinkResult)
        requires
            obey_key_models::<K1, K2, K3>(),
            !old(self).key3_map@.contains_key(new_k) && old(self).key1_map@.contains_key(
                *existing_k,
            ) ==> linkable(old(self).values@, old(self).key1_map@[*existing_k]),
        ensures
            r == link_result(
                old(self).key3_map@.contains_key(new_k),
                old(self).key1_map@.contains_key(*existing_k),
            ),
            r != LinkResult::Success ==> same(*final(self), *old(self)),
            r == LinkResult::Success ==> {
                let index = old(self).key1_map@[*existing_k];
                &&& final(self).key3_map@ == old(self).key3_map@.insert(new_k, index)
                &&& final(self).values@ == link_counted(old(self).values@, index)
            },
            final(self).key1_map@ == old(self).key1_map@,
            final(self).key2_map@ == old(self).key2_map@,
    {
        if self.key3_map.contains_key(&new_k) {
            return LinkResult::NewKeyAlreadyExists;
        }
        match index_of(&self.key1_map, existing_k) {
            Some(index) => {
                add_link(&mut self.key3_map, &mut self.values, new_k, index);
                LinkResult::Success
            },
            None => LinkResult::ExistingKeyDoesNotExist,
        }
    }

    /// Links a new key of the third kind to the value of a key of the second.
    pub fn link_key3_to_key2(&mut self, new_k: K3, existing_k: &K2) -> (r: LinkResult)
        requires
            obey_key_models::<K1, K2, K3>(),
            !old(self).key3_map@.contains_key(new_k) && old(self).key2_map@.contains_key(
                *existing_k,
            ) ==> linkable(old(self).values@, old(self).key2_map@[*existing_k]),
        ensures
            r == link_result(
                old(self).key3_map@.contains_key(new_k),
                old(self).key2_map@.contains_key(*existing_k),
            ),
            r != LinkResult::Success ==> same(*final(self), *old(self)),
            r == LinkResult::Success ==> {
                let index = old(self).key2_map@[*existing_k];
                &&& final(self).key3_map@ == old(self).key3_map@.insert(new_k, index)
                &&& final(self).values@ == link_counted(old(self).values@, index)
            },
            final(self).key1_map@ == old(self).key1_map@,
            final(self).key2_map@ == old(self).key2_map@,
    {
        if self.key3_map.contains_key(&new_k) {
            return LinkResult::NewKeyAlreadyExists;
        }
        match index_of(&self.key2_map, existing_k) {
            Some(index) => {
                add_link(&mut self.key3_map, &mut self.values, new_k, index);
                LinkResult::Success
            },
            None => LinkResult::ExistingKeyDoesNotExist,
        }
    }

    /// Links a new key of the third kind to the value of a key of the third.
    pub fn link_key3_to_key3(&mut self, new_k: K3, existing_k: &K3) -> (r: LinkResult)
        requires
            obey_key_models::<K1, K2, K3>(),
            !old(self).key3_map@.contains_key(new_k) && old(self).key3_map@.contains_key(
                *existing_k,
            ) ==> linkable(old(self).values@, old(self).key3_map@[*existing_k]),
        ensures
            r == link_result(
                old(self).key3_map@.contains_key(new_k),
                old(self).key3_map@.contains_key(*existing_k),
            ),
            r != LinkResult::Success ==> same(*final(self), *old(self)),
            r == LinkResult::Success ==> {
                let index = old(self).key3_map@[*existing_k];
                &&& final(self).key3_map@ == old(self).key3_map@.insert(new_k, index)
                &&& final(self).values@ == link_counted(old(self).values@, index)
            },
            final(self).key1_map@ == old(self).key1_map@,
            final(self).key2_map@ == old(self).key2_map@,
    {
        if self.key3_map.contains_key(&new_k) {
            return LinkResult::NewKeyAlreadyExists;
        }
        match index_of(&self.key3_map, existing_k) {
            Some(index) => {
                add_link(&mut self.key3_map, &mut self.values, new_k, index);
                LinkResult::Success
            },
            None => LinkResult::ExistingKeyDoesNotExist,
        }
    }
}

/// What becomes of an attempt to link a key.
pub open spec fn link_result(new_exists: bool, existing_exists: bool) -> LinkResult {
    if new_exists {
        LinkResult::NewKeyAlreadyExists
    } else if existing_exists {
        LinkResult::Success
    } else {
        LinkResult::ExistingKeyDoesNotExist
    }
}

/// A key is linked just where it is new and the other is there; a key that is not new comes first.
pub proof fn law_link_results(new_exists: bool, existing_exists: bool)
    ensures
        link_result(new_exists, existing_exists) == LinkResult::Success <==> !new_exists
            && existing_exists,
        link_result(new_exists, existing_exists) == LinkResult::NewKeyAlreadyExists <==> new_exists,
        link_result(new_exists, existing_exists) == LinkResult::ExistingKeyDoesNotExist
            <==> !new_exists && !existing_exists,
{
}

/// The keys of the map that have `i`.
pub open spec fn keys_of<K>(m: Map<K, usize>, i: usize) -> Set<K> {
    m.dom().filter(|k: K| m[k] == i)
}

/// Every key has a value, and no value has more keys than it is said to have.
pub open spec fn consistent<A, B, C, V>(
    a: Map<A, usize>,
    b: Map<B, usize>,
    c: Map<C, usize>,
    values: Seq<(V, usize)>,
) -> bool {
    &&& a.dom().finite() && b.dom().finite() && c.dom().finite()
    &&& forall|k: A| #[trigger] a.contains_key(k) ==> a[k] < values.len()
    &&& forall|k: B| #[trigger] b.contains_key(k) ==> b[k] < values.len()
    &&& forall|k: C| #[trigger] c.contains_key(k) ==> c[k] < values.len()
    &&& values.len() <= usize::MAX
    &&& forall|i: usize|
        i < values.len() ==> 1 <= (#[trigger] values[i as int]).1 && keys_of(a, i).len() + keys_of(
            b,
            i,
        ).len() + keys_of(c, i).len() <= values[i as int].1
}

impl<K1, K2, K3, V> ThreeKeyMap<K1, K2, K3, V> {
    pub open spec fn wf(&self) -> bool {
        consistent(self.key1_map@, self.key2_map@, self.key3_map@, self.values@)
    }
}

proof fn lemma_keys_insert<K>(m: Map<K, usize>, k: K, i: usize, j: usize)
    requires
        m.dom().finite(),
        !m.contains_key(k),
    ensures
        keys_of(m.insert(k, i), j).len() == keys_of(m, j).len() + if i == j {
            1nat
        } else {
            0nat
        },
{
    let after = keys_of(m.insert(k, i), j);
    if i == j {
        assert(after =~= keys_of(m, j).insert(k));
        assert(!keys_of(m, j).contains(k));
    } else {
        assert(after =~= keys_of(m, j));
    }
}

proof fn lemma_keys_remove<K>(m: Map<K, usize>, k: K, j: usize)
    requires
        m.dom().finite(),
        m.contains_key(k),
    ensures
        keys_of(m.remove(k), j).len() == keys_of(m, j).len() - if m[k] == j {
            1nat
        } else {
            0nat
        },
        m[k] == j ==> keys_of(m, j).len() >= 1,
{
    let after = keys_of(m.remove(k), j);
    if m[k] == j {
        assert(after =~= keys_of(m, j).remove(k));
        assert(keys_of(m, j).contains(k));
    } else {
        assert(after =~= keys_of(m, j));
    }
}

/// Where nothing has `index`, what had `last` has `index`, and what had another keeps it.
proof fn lemma_keys_remapped<K>(m: Map<K, usize>, last: usize, index: usize, j: usize)
    requires
        m.dom().finite(),
        index == last || keys_of(m, index).len() == 0,
    ensures
        remapped(m, last, index).dom() == m.dom(),
        j != last && j != index ==> keys_of(remapped(m, last, index), j).len() == keys_of(
            m,
            j,
        ).len(),
        keys_of(remapped(m, last, index), index).len() == keys_of(m, last).len(),
        index != last ==> !exists|k: K| #[trigger] m.contains_key(k) && m[k] == index,
{
    let r = remapped(m, last, index);
    assert(r.dom() =~= m.dom());
    if index != last {
        assert(keys_of(m, index) =~= Set::<K>::empty());
        assert forall|k: K| #[trigger] m.contains_key(k) implies m[k] != index by {
            if m[k] == index {
                assert(keys_of(m, index).contains(k));
            }
        }
    }
    assert(keys_of(r, index) =~= keys_of(m, last));
    if j != last && j != index {
        assert(keys_of(r, j) =~= keys_of(m, j));
    }
}

proof fn lemma_keys_kept<K>(m: Map<K, usize>, keep: spec_fn(K, usize) -> bool, j: usize)
    requires
        m.dom().finite(),
    ensures
        kept(m, keep).dom().finite(),
        keys_of(kept(m, keep), j).len() <= keys_of(m, j).len(),
{
    let r = kept(m, keep);
    assert(r.dom().subset_of(m.dom()));
    vstd::set_lib::lemma_set_subset_finite(m.dom(), r.dom());
    assert(keys_of(r, j).subset_of(keys_of(m, j)));
    vstd::set_lib::lemma_len_subset(keys_of(r, j), keys_of(m, j));
}

/// Adding a value under a new key keeps every key with a value, and changes no other lookup.
proof fn lemma_insert<A, B, C, V>(
    a: Map<A, usize>,
    b: Map<B, usize>,
    c: Map<C, usize>,
    values: Seq<(V, usize)>,
    k: A,
    v: V,
)
    requires
        consistent(a, b, c, values),
        values.len() < usize::MAX,
        !a.contains_key(k),
    ensures
        ({
            let a2 = a.insert(k, values.len() as usize);
            let values2 = values.push((v, 1usize));
            &&& consistent(a2, b, c, values2)
            &&& found(a2, values2, k) == Some(v)
            &&& forall|q: A| q != k ==> #[trigger] found(a2, values2, q) == found(a, values, q)
            &&& forall|q: B| #[trigger] found(b, values2, q) == found(b, values, q)
            &&& forall|q: C| #[trigger] found(c, values2, q) == found(c, values, q)
        }),
{
    let n = values.len() as usize;
    let a2 = a.insert(k, n);
    let values2 = values.push((v, 1usize));
    assert forall|i: usize| i < values2.len() implies 1 <= (#[trigger] values2[i as int]).1
        && keys_of(a2, i).len() + keys_of(b, i).len() + keys_of(c, i).len()
        <= values2[i as int].1 by {
        lemma_keys_insert(a, k, n, i);
        if i == n {
            assert(keys_of(a, i) =~= Set::<A>::empty());
            assert(keys_of(b, i) =~= Set::<B>::empty());
            assert(keys_of(c, i) =~= Set::<C>::empty());
        } else {
            assert(values2[i as int] == values[i as int]);
        }
    }
}

/// Linking a new key to a value keeps every key with a value, and changes no other lookup.
proof fn lemma_link<A, B, C, V>(
    a: Map<A, usize>,
    b: Map<B, usize>,
    c: Map<C, usize>,
    values: Seq<(V, usize)>,
    k: A,
    index: usize,
)
    requires
        consistent(a, b, c, values),
        !a.contains_key(k),
        linkable(values, index),
    ensures
        ({
            let a2 = a.insert(k, index);
            let values2 = link_counted(values, index);
            &&& consistent(a2, b, c, values2)
            &&& found(a2, values2, k) == Some(values[index as int].0)
            &&& forall|q: A| q != k ==> #[trigger] found(a2, values2, q) == found(a, values, q)
            &&& forall|q: B| #[trigger] found(b, values2, q) == found(b, values, q)
            &&& forall|q: C| #[trigger] found(c, values2, q) == found(c, values, q)
        }),
{
    let a2 = a.insert(k, index);
    let values2 = link_counted(values, index);
    assert forall|i: usize| i < values2.len() implies 1 <= (#[trigger] values2[i as int]).1
        && keys_of(a2, i).len() + keys_of(b, i).len() + keys_of(c, i).len()
        <= values2[i as int].1 by {
        lemma_keys_insert(a, k, index, i);
        assert(values[i as int].1 >= 1);
    }
}

/// Taking away a key keeps every other key with its value.
proof fn lemma_remove<A, B, C, V>(
    a: Map<A, usize>,
    b: Map<B, usize>,
    c: Map<C, usize>,
    values: Seq<(V, usize)>,
    k: A,
)
    requires
        consistent(a, b, c, values),
        a.contains_key(k),
    ensures
        ({
            let index = a[k];
            let last = (values.len() - 1) as usize;
            let a2 = a.remove(k);
            if values[index as int].1 == 1 {
                let values2 = swap_removed(values, index as int);
                let a3 = remapped(a2, last, index);
                let b3 = remapped(b, last, index);
                let c3 = remapped(c, last, index);
                &&& consistent(a3, b3, c3, values2)
                &&& found(a3, values2, k) is None
                &&& forall|q: A| q != k ==> #[trigger] found(a3, values2, q) == found(a, values, q)
                &&& forall|q: B| #[trigger] found(b3, values2, q) == found(b, values, q)
                &&& forall|q: C| #[trigger] found(c3, values2, q) == found(c, values, q)
            } else {
                let values2 = unlink_counted(values, index);
                &&& consistent(a2, b, c, values2)
                &&& found(a2, values2, k) is None
                &&& forall|q: A| q != k ==> #[trigger] found(a2, values2, q) == found(a, values, q)
                &&& forall|q: B| #[trigger] found(b, values2, q) == found(b, values, q)
                &&& forall|q: C| #[trigger] found(c, values2, q) == found(c, values, q)
            }
        }),
{
    let index = a[k];
    let last = (values.len() - 1) as usize;
    let a2 = a.remove(k);
    assert(values[index as int].1 >= 1);
    lemma_keys_remove(a, k, index);
    if values[index as int].1 == 1 {
        let values2 = swap_removed(values, index as int);
        let a3 = remapped(a2, last, index);
        let b3 = remapped(b, last, index);
        let c3 = remapped(c, last, index);
        lemma_keys_remapped(a2, last, index, index);
        lemma_keys_remapped(b, last, index, index);
        lemma_keys_remapped(c, last, index, index);
        assert forall|i: usize| i < values2.len() implies 1 <= (#[trigger] values2[i as int]).1
            && keys_of(a3, i).len() + keys_of(b3, i).len() + keys_of(c3, i).len()
            <= values2[i as int].1 by {
            lemma_keys_remapped(a2, last, index, i);
            lemma_keys_remapped(b, last, index, i);
            lemma_keys_remapped(c, last, index, i);
            lemma_keys_remove(a, k, i);
            lemma_keys_remove(a, k, last);
            if i == index {
                assert(values2[i as int] == values[last as int]);
            } else {
                assert(values2[i as int] == values[i as int]);
            }
        }
        if index == last {
            lemma_nothing_else(a, b, c, values, k);
        }
    } else {
        let values2 = unlink_counted(values, index);
        assert forall|i: usize| i < values2.len() implies 1 <= (#[trigger] values2[i as int]).1
            && keys_of(a2, i).len() + keys_of(b, i).len() + keys_of(c, i).len()
            <= values2[i as int].1 by {
            lemma_keys_remove(a, k, i);
            assert(values[i as int].1 >= 1);
        }
    }
}

/// A value that is said to have one key has no other than the one that it has.
pub proof fn lemma_nothing_else<A, B, C, V>(
    a: Map<A, usize>,
    b: Map<B, usize>,
    c: Map<C, usize>,
    values: Seq<(V, usize)>,
    k: A,
)
    requires
        consistent(a, b, c, values),
        a.contains_key(k),
        values[a[k] as int].1 == 1,
    ensures
        forall|q: A| q != k && #[trigger] a.contains_key(q) ==> a[q] != a[k],
        forall|q: B| #[trigger] b.contains_key(q) ==> b[q] != a[k],
        forall|q: C| #[trigger] c.contains_key(q) ==> c[q] != a[k],
{
    let index = a[k];
    lemma_keys_remove(a, k, index);
    let a2 = a.remove(k);
    assert(keys_of(a2, index).len() == 0);
    assert(keys_of(a2, index) =~= Set::<A>::empty());
    assert(keys_of(b, index) =~= Set::<B>::empty());
    assert(keys_of(c, index) =~= Set::<C>::empty());
    assert forall|q: A| q != k && #[trigger] a.contains_key(q) implies a[q] != a[k] by {
        if a[q] == index {
            assert(keys_of(a2, index).contains(q));
        }
    }
    assert forall|q: B| #[trigger] b.contains_key(q) implies b[q] != a[k] by {
        if b[q] == index {
            assert(keys_of(b, index).contains(q));
        }
    }
    assert forall|q: C| #[trigger] c.contains_key(q) implies c[q] != a[k] by {
        if c[q] == index {
            assert(keys_of(c, index).contains(q));
        }
    }
}

/// Looking up a key of the first kind gives the same in both maps.
pub open spec fn same_lookups1<K1, K2, K3, V>(
    a: ThreeKeyMap<K1, K2, K3, V>,
    b: ThreeKeyMap<K1, K2, K3, V>,
    except: Option<K1>,
) -> bool {
    forall|q: K1|
        Some(q) != except ==> #[trigger] found(b.key1_map@, b.values@, q) == found(
            a.key1_map@,
            a.values@,
            q,
        )
}

/// Looking up a key of the second kind gives the same in both maps.
pub open spec fn same_lookups2<K1, K2, K3, V>(
    a: ThreeKeyMap<K1, K2, K3, V>,
    b: ThreeKeyMap<K1, K2, K3, V>,
    except: Option<K2>,
) -> bool {
    forall|q: K2|
        Some(q) != except ==> #[trigger] found(b.key2_map@, b.values@, q) == found(
            a.key2_map@,
            a.values@,
            q,
        )
}

/// Looking up a key of the third kind gives the same in both maps.
pub open spec fn same_lookups3<K1, K2, K3, V>(
    a: ThreeKeyMap<K1, K2, K3, V>,
    b: ThreeKeyMap<K1, K2, K3, V>,
    except: Option<K3>,
) -> bool {
    forall|q: K3|
        Some(q) != except ==> #[trigger] found(b.key3_map@, b.values@, q) == found(
            a.key3_map@,
            a.values@,
            q,
        )
}

/// A value that was added under a new key of the first kind is found by it, every other lookup
/// gives what it gave, and every key has its value still.
pub proof fn law_insert_by_key1<K1: Copy + Hash + Eq, K2: Copy + Hash + Eq, K3: Copy + Hash + Eq, V>(
    before: ThreeKeyMap<K1, K2, K3, V>,
    after: ThreeKeyMap<K1, K2, K3, V>,
    k: K1,
    v: V,
)
    requires
        before.wf(),
        before.values@.len() < usize::MAX,
        !before.key1_map@.contains_key(k),
        after.key1_map@ == before.key1_map@.insert(k, before.values@.len() as usize),
        after.key2_map@ == before.key2_map@,
        after.key3_map@ == before.key3_map@,
        after.values@ == before.values@.push((v, 1usize)),
    ensures
        after.wf(),
        found(after.key1_map@, after.values@, k) == Some(v),
        same_lookups1(before, after, Some(k)),
        same_lookups2(before, after, None),
        same_lookups3(before, after, None),
{
    lemma_insert(before.key1_map@, before.key2_map@, before.key3_map@, before.values@, k, v);
}

/// A key of the first kind that was linked finds the value that it was linked to, every other
/// lookup gives what it gave, and every key has its value still.
pub proof fn law_link_key1<K1: Copy + Hash + Eq, K2: Copy + Hash + Eq, K3: Copy + Hash + Eq, V>(
    before: ThreeKeyMap<K1, K2, K3, V>,
    after: ThreeKeyMap<K1, K2, K3, V>,
    new_k: K1,
    index: usize,
)
    requires
        before.wf(),
        !before.key1_map@.contains_key(new_k),
        linkable(before.values@, index),
        after.key1_map@ == before.key1_map@.insert(new_k, index),
        after.key2_map@ == before.key2_map@,
        after.key3_map@ == before.key3_map@,
        after.values@ == link_counted(before.values@, index),
    ensures
        after.wf(),
        found(after.key1_map@, after.values@, new_k) == Some(before.values@[index as int].0),
        same_lookups1(before, after, Some(new_k)),
        same_lookups2(before, after, None),
        same_lookups3(before, after, None),
{
    lemma_link(
        before.key1_map@,
        before.key2_map@,
        before.key3_map@,
        before.values@,
        new_k,
        index,
    );
}

/// Taking away a key of the first kind never fails, every other lookup gives what it gave, though
/// values may have moved, and every key has its value still.
pub proof fn law_remove_by_key1<K1: Copy + Hash + Eq, K2: Copy + Hash + Eq, K3: Copy + Hash + Eq, V>(
    before: ThreeKeyMap<K1, K2, K3, V>,
    after: ThreeKeyMap<K1, K2, K3, V>,
    k: K1,
    r: Option<V>,
)
    requires
        before.wf(),
        before.removed_by_key1(after, k, r),
    ensures
        before.key1_map@.contains_key(k) ==> before.key1_map@[k] < before.values@.len()
            && before.values@[before.key1_map@[k] as int].1 >= 1,
        after.wf(),
        found(after.key1_map@, after.values@, k) is None,
        r matches Some(v) ==> found(before.key1_map@, before.values@, k) == Some(v),
        same_lookups1(before, after, Some(k)),
        same_lookups2(before, after, None),
        same_lookups3(before, after, None),
{
    if before.key1_map@.contains_key(k) {
        lemma_remove(before.key1_map@, before.key2_map@, before.key3_map@, before.values@, k);
    }
}

/// Adding a value under a new key of the first kind and taking the key away gives the value back
/// and leaves everything as it was.
pub proof fn law_insert_remove_by_key1<
    K1: Copy + Hash + Eq,
    K2: Copy + Hash + Eq,
    K3: Copy + Hash + Eq,
    V,
>(
    before: ThreeKeyMap<K1, K2, K3, V>,
    between: ThreeKeyMap<K1, K2, K3, V>,
    after: ThreeKeyMap<K1, K2, K3, V>,
    k: K1,
    v: V,
    r: Option<V>,
)
    requires
        before.wf(),
        before.values@.len() < usize::MAX,
        !before.key1_map@.contains_key(k),
        between.key1_map@ == before.key1_map@.insert(k, before.values@.len() as usize),
        between.key2_map@ == before.key2_map@,
        between.key3_map@ == before.key3_map@,
        between.values@ == before.values@.push((v, 1usize)),
        between.removed_by_key1(after, k, r),
    ensures
        r == Some(v),
        same(after, before),
{
    let n = before.values@.len() as usize;
    assert(between.key1_map@[k] == n);
    assert(between.values@[n as int] == (v, 1usize));
    assert(after.values@ =~= before.values@);
    assert(after.key1_map@ =~= before.key1_map@);
    assert(after.key2_map@ =~= before.key2_map@);
    assert(after.key3_map@ =~= before.key3_map@);
}

/// A value that was added under a new key of the second kind is found by it, every other lookup
/// gives what it gave, and every key has its value still.
pub proof fn law_insert_by_key2<K1: Copy + Hash + Eq, K2: Copy + Hash + Eq, K3: Copy + Hash + Eq, V>(
    before: ThreeKeyMap<K1, K2, K3, V>,
    after: ThreeKeyMap<K1, K2, K3, V>,
    k: K2,
    v: V,
)
    requires
        before.wf(),
        before.values@.len() < usize::MAX,
        !before.key2_map@.contains_key(k),
        after.key2_map@ == before.key2_map@.insert(k, before.values@.len() as usize),
        after.key1_map@ == before.key1_map@,
        after.key3_map@ == before.key3_map@,
        after.values@ == before.values@.push((v, 1usize)),
    ensures
        after.wf(),
        found(after.key2_map@, after.values@, k) == Some(v),
        same_lookups1(before, after, None),
        same_lookups2(before, after, Some(k)),
        same_lookups3(before, after, None),
{
    lemma_insert(before.key2_map@, before.key1_map@, before.key3_map@, before.values@, k, v);
}

/// A key of the second kind that was linked finds the value that it was linked to, every other
/// lookup gives what it gave, and every key has its value still.
pub proof fn law_link_key2<K1: Copy + Hash + Eq, K2: Copy + Hash + Eq, K3: Copy + Hash + Eq, V>(
    before: ThreeKeyMap<K1, K2, K3, V>,
    after: ThreeKeyMap<K1, K2, K3, V>,
    new_k: K2,
    index: usize,
)
    requires
        before.wf(),
        !before.key2_map@.contains_key(new_k),
        linkable(before.values@, index),
        after.key2_map@ == before.key2_map@.insert(new_k, index),
        after.key1_map@ == before.key1_map@,
        after.key3_map@ == before.key3_map@,
        after.values@ == link_counted(before.values@, index),
    ensures
        after.wf(),
        found(after.key2_map@, after.values@, new_k) == Some(before.values@[index as int].0),
        same_lookups1(before, after, None),
        same_lookups2(before, after, Some(new_k)),
        same_lookups3(before, after, None),
{
    lemma_link(
        before.key2_map@,
        before.key1_map@,
        before.key3_map@,
        before.values@,
        new_k,
        index,
    );
}

/// Taking away a key of the second kind never fails, every other lookup gives what it gave, though
/// values may have moved, and every key has its value still.
pub proof fn law_remove_by_key2<K1: Copy + Hash + Eq, K2: Copy + Hash + Eq, K3: Copy + Hash + Eq, V>(
    before: ThreeKeyMap<K1, K2, K3, V>,
    after: ThreeKeyMap<K1, K2, K3, V>,
    k: K2,
    r: Option<V>,
)
    requires
        before.wf(),
        before.removed_by_key2(after, k, r),
    ensures
        before.key2_map@.contains_key(k) ==> before.key2_map@[k] < before.values@.len()
            && before.values@[before.key2_map@[k] as int].1 >= 1,
        after.wf(),
        found(after.key2_map@, after.values@, k) is None,
        r matches Some(v) ==> found(before.key2_map@, before.values@, k) == Some(v),
        same_lookups1(before, after, None),
        same_lookups2(before, after, Some(k)),
        same_lookups3(before, after, None),
{
    if before.key2_map@.contains_key(k) {
        lemma_remove(before.key2_map@, before.key1_map@, before.key3_map@, before.values@, k);
    }
}

/// Adding a value under a new key of the second kind and taking the key away gives the value back
/// and leaves everything as it was.
pub proof fn law_insert_remove_by_key2<
    K1: Copy + Hash + Eq,
    K2: Copy + Hash + Eq,
    K3: Copy + Hash + Eq,
    V,
>(
    before: ThreeKeyMap<K1, K2, K3, V>,
    between: ThreeKeyMap<K1, K2, K3, V>,
    after: ThreeKeyMap<K1, K2, K3, V>,
    k: K2,
    v: V,
    r: Option<V>,
)
    requires
        before.wf(),
        before.values@.len() < usize::MAX,
        !before.key2_map@.contains_key(k),
        between.key2_map@ == before.key2_map@.insert(k, before.values@.len() as usize),
        between.key1_map@ == before.key1_map@,
        between.key3_map@ == before.key3_map@,
        between.values@ == before.values@.push((v, 1usize)),
        between.removed_by_key2(after, k, r),
    ensures
        r == Some(v),
        same(after, before),
{
    let n = before.values@.len() as usize;
    assert(between.key2_map@[k] == n);
    assert(between.values@[n as int] == (v, 1usize));
    assert(after.values@ =~= before.values@);
    assert(after.key2_map@ =~= before.key2_map@);
    assert(after.key1_map@ =~= before.key1_map@);
    assert(after.key3_map@ =~= before.key3_map@);
}

/// A value that was added under a new key of the third kind is found by it, every other lookup
/// gives what it gave, and every key has its value still.
pub proof fn law_insert_by_key3<K1: Copy + Hash + Eq, K2: Copy + Hash + Eq, K3: Copy + Hash + Eq, V>(
    before: ThreeKeyMap<K1, K2, K3, V>,
    after: ThreeKeyMap<K1, K2, K3, V>,
    k: K3,
    v: V,
)
    requires
        before.wf(),
        before.values@.len() < usize::MAX,
        !before.key3_map@.contains_key(k),
        after.key3_map@ == before.key3_map@.insert(k, before.values@.len() as usize),
        after.key1_map@ == before.key1_map@,
        after.key2_map@ == before.key2_map@,
        after.values@ == before.values@.push((v, 1usize)),
    ensures
        after.wf(),
        found(after.key3_map@, after.values@, k) == Some(v),
        same_lookups1(before, after, None),
        same_lookups2(before, after, None),
        same_lookups3(before, after, Some(k)),
{
    lemma_insert(before.key3_map@, before.key1_map@, before.key2_map@, before.values@, k, v);
}

/// A key of the third kind that was linked finds the value that it was linked to, every other
/// lookup gives what it gave, and every key has its value still.
pub proof fn law_link_key3<K1: Copy + Hash + Eq, K2: Copy + Hash + Eq, K3: Copy + Hash + Eq, V>(
    before: ThreeKeyMap<K1, K2, K3, V>,
    after: ThreeKeyMap<K1, K2, K3, V>,
    new_k: K3,
    index: usize,
)
    requires
        before.wf(),
        !before.key3_map@.contains_key(new_k),
        linkable(before.values@, index),
        after.key3_map@ == before.key3_map@.insert(new_k, index),
        after.key1_map@ == before.key1_map@,
        after.key2_map@ == before.key2_map@,
        after.values@ == link_counted(before.values@, index),
    ensures
        after.wf(),
        found(after.key3_map@, after.values@, new_k) == Some(before.values@[index as int].0),
        same_lookups1(before, after, None),
        same_lookups2(before, after, None),
        same_lookups3(before, after, Some(new_k)),
{
    lemma_link(
        before.key3_map@,
        before.key1_map@,
        before.key2_map@,
        before.values@,
        new_k,
        index,
    );
}

/// Taking away a key of the third kind never fails, every other lookup gives what it gave, though
/// values may have moved, and every key has its value still.
pub proof fn law_remove_by_key3<K1: Copy + Hash + Eq, K2: Copy + Hash + Eq, K3: Copy + Hash + Eq, V>(
    before: ThreeKeyMap<K1, K2, K3, V>,
    after: ThreeKeyMap<K1, K2, K3, V>,
    k: K3,
    r: Option<V>,
)
    requires
        before.wf(),
        before.removed_by_key3(after, k, r),
    ensures
        before.key3_map@.contains_key(k) ==> before.key3_map@[k] < before.values@.len()
            && before.values@[before.key3_map@[k] as int].1 >= 1,
        after.wf(),
        found(after.key3_map@, after.values@, k) is None,
        r matches Some(v) ==> found(before.key3_map@, before.values@, k) == Some(v),
        same_lookups1(before, after, None),
        same_lookups2(before, after, None),
        same_lookups3(before, after, Some(k)),
{
    if before.key3_map@.contains_key(k) {
        lemma_remove(before.key3_map@, before.key1_map@, before.key2_map@, before.values@, k);
    }
}

/// Adding a value under a new key of the third kind and taking the key away gives the value back
/// and leaves everything as it was.
pub proof fn law_insert_remove_by_key3<
    K1: Copy + Hash + Eq,
    K2: Copy + Hash + Eq,
    K3: Copy + Hash + Eq,
    V,
>(
    before: ThreeKeyMap<K1, K2, K3, V>,
    between: ThreeKeyMap<K1, K2, K3, V>,
    after: ThreeKeyMap<K1, K2, K3, V>,
    k: K3,
    v: V,
    r: Option<V>,
)
    requires
        before.wf(),
        before.values@.len() < usize::MAX,
        !before.key3_map@.contains_key(k),
        between.key3_map@ == before.key3_map@.insert(k, before.values@.len() as usize),
        between.key1_map@ == before.key1_map@,
        between.key2_map@ == before.key2_map@,
        between.values@ == before.values@.push((v, 1usize)),
        between.removed_by_key3(after, k, r),
    ensures
        r == Some(v),
        same(after, before),
{
    let n = before.values@.len() as usize;
    assert(between.key3_map@[k] == n);
    assert(between.values@[n as int] == (v, 1usize));
    assert(after.values@ =~= before.values@);
    assert(after.key3_map@ =~= before.key3_map@);
    assert(after.key1_map@ =~= before.key1_map@);
    assert(after.key2_map@ =~= before.key2_map@);
}

/// Taking every other key away from the value of a key leaves that key with it, and every key
/// that is left has its value still.
pub proof fn law_unlink_all_but_key1<K1, K2, K3, V>(
    before: ThreeKeyMap<K1, K2, K3, V>,
    after: ThreeKeyMap<K1, K2, K3, V>,
    k: K1,
)
    requires
        before.wf(),
        before.key1_map@.contains_key(k),
        after.values@ == before.values@,
        after.key1_map@ == without_links(before.key1_map@, before.key1_map@[k], Some(k)),
        after.key2_map@ == without_links(before.key2_map@, before.key1_map@[k], None),
        after.key3_map@ == without_links(before.key3_map@, before.key1_map@[k], None),
    ensures
        after.wf(),
        found(after.key1_map@, after.values@, k) == found(before.key1_map@, before.values@, k),
        forall|q: K1|
            q != k && #[trigger] before.key1_map@.contains_key(q) && before.key1_map@[q]
                == before.key1_map@[k] ==> !after.key1_map@.contains_key(q),
        forall|q: K2| #[trigger]
            before.key2_map@.contains_key(q) && before.key2_map@[q] == before.key1_map@[k]
                ==> !after.key2_map@.contains_key(q),
        forall|q: K3| #[trigger]
            before.key3_map@.contains_key(q) && before.key3_map@[q] == before.key1_map@[k]
                ==> !after.key3_map@.contains_key(q),
{
    let index = before.key1_map@[k];
    let keep1 = |q: K1, i: usize| i != index || Some(q) == Some(k);
    let keep2 = |q: K2, i: usize| i != index || Some(q) == None::<K2>;
    let keep3 = |q: K3, i: usize| i != index || Some(q) == None::<K3>;
    lemma_keys_kept(before.key1_map@, keep1, index);
    lemma_keys_kept(before.key2_map@, keep2, index);
    lemma_keys_kept(before.key3_map@, keep3, index);
    assert(after.key1_map@ =~= kept(before.key1_map@, keep1));
    assert(after.key2_map@ =~= kept(before.key2_map@, keep2));
    assert(after.key3_map@ =~= kept(before.key3_map@, keep3));
    assert forall|i: usize| i < after.values@.len() implies 1 <= (
    #[trigger] after.values@[i as int]).1 && keys_of(after.key1_map@, i).len() + keys_of(
        after.key2_map@,
        i,
    ).len() + keys_of(after.key3_map@, i).len() <= after.values@[i as int].1 by {
        lemma_keys_kept(before.key1_map@, keep1, i);
        lemma_keys_kept(before.key2_map@, keep2, i);
        lemma_keys_kept(before.key3_map@, keep3, i);
        assert(before.values@[i as int].1 >= 1);
    }
}

/// Every key has a value, and every value has just as many keys as it is said to have.
pub open spec fn exact<A, B, C, V>(
    a: Map<A, usize>,
    b: Map<B, usize>,
    c: Map<C, usize>,
    values: Seq<(V, usize)>,
) -> bool {
    &&& consistent(a, b, c, values)
    &&& forall|i: usize|
        i < values.len() ==> keys_of(a, i).len() + keys_of(b, i).len() + keys_of(c, i).len() == (
        #[trigger] values[i as int]).1
}

/// No other key has the value of `k`.
pub open spec fn only_key<A, B, C>(
    a: Map<A, usize>,
    b: Map<B, usize>,
    c: Map<C, usize>,
    k: A,
) -> bool {
    &&& forall|q: A| q != k && #[trigger] a.contains_key(q) ==> a[q] != a[k]
    &&& forall|q: B| #[trigger] b.contains_key(q) ==> b[q] != a[k]
    &&& forall|q: C| #[trigger] c.contains_key(q) ==> c[q] != a[k]
}

proof fn lemma_exact_insert<A, B, C, V>(
    a: Map<A, usize>,
    b: Map<B, usize>,
    c: Map<C, usize>,
    values: Seq<(V, usize)>,
    k: A,
    v: V,
)
    requires
        exact(a, b, c, values),
        values.len() < usize::MAX,
        !a.contains_key(k),
    ensures
        exact(a.insert(k, values.len() as usize), b, c, values.push((v, 1usize))),
{
    let n = values.len() as usize;
    let a2 = a.insert(k, n);
    let values2 = values.push((v, 1usize));
    lemma_insert(a, b, c, values, k, v);
    assert forall|i: usize| i < values2.len() implies keys_of(a2, i).len() + keys_of(b, i).len()
        + keys_of(c, i).len() == (#[trigger] values2[i as int]).1 by {
        lemma_keys_insert(a, k, n, i);
        if i == n {
            assert(keys_of(a, i) =~= Set::<A>::empty());
            assert(keys_of(b, i) =~= Set::<B>::empty());
            assert(keys_of(c, i) =~= Set::<C>::empty());
        } else {
            assert(values2[i as int] == values[i as int]);
        }
    }
}

proof fn lemma_exact_link<A, B, C, V>(
    a: Map<A, usize>,
    b: Map<B, usize>,
    c: Map<C, usize>,
    values: Seq<(V, usize)>,
    k: A,
    index: usize,
)
    requires
        exact(a, b, c, values),
        !a.contains_key(k),
        linkable(values, index),
    ensures
        exact(a.insert(k, index), b, c, link_counted(values, index)),
{
    let a2 = a.insert(k, index);
    let values2 = link_counted(values, index);
    lemma_link(a, b, c, values, k, index);
    assert forall|i: usize| i < values2.len() implies keys_of(a2, i).len() + keys_of(b, i).len()
        + keys_of(c, i).len() == (#[trigger] values2[i as int]).1 by {
        lemma_keys_insert(a, k, index, i);
        assert(values[i as int].1 >= 1);
    }
}

/// The value of a key is said to have one key just where no other key has it.
proof fn lemma_only_key<A, B, C, V>(
    a: Map<A, usize>,
    b: Map<B, usize>,
    c: Map<C, usize>,
    values: Seq<(V, usize)>,
    k: A,
)
    requires
        exact(a, b, c, values),
        a.contains_key(k),
    ensures
        values[a[k] as int].1 == 1 <==> only_key(a, b, c, k),
{
    let index = a[k];
    if values[index as int].1 == 1 {
        lemma_nothing_else(a, b, c, values, k);
    }
    if only_key(a, b, c, k) {
        assert(keys_of(a, index) =~= Set::<A>::empty().insert(k));
        assert(keys_of(b, index) =~= Set::<B>::empty());
        assert(keys_of(c, index) =~= Set::<C>::empty());
    }
}

proof fn lemma_exact_remove<A, B, C, V>(
    a: Map<A, usize>,
    b: Map<B, usize>,
    c: Map<C, usize>,
    values: Seq<(V, usize)>,
    k: A,
)
    requires
        exact(a, b, c, values),
        a.contains_key(k),
    ensures
        ({
            let index = a[k];
            let last = (values.len() - 1) as usize;
            let a2 = a.remove(k);
            if values[index as int].1 == 1 {
                exact(
                    remapped(a2, last, index),
                    remapped(b, last, index),
                    remapped(c, last, index),
                    swap_removed(values, index as int),
                )
            } else {
                exact(a2, b, c, unlink_counted(values, index))
            }
        }),
{
    let index = a[k];
    let last = (values.len() - 1) as usize;
    let a2 = a.remove(k);
    lemma_remove(a, b, c, values, k);
    assert(values[index as int].1 >= 1);
    lemma_keys_remove(a, k, index);
    if values[index as int].1 == 1 {
        let values2 = swap_removed(values, index as int);
        let a3 = remapped(a2, last, index);
        let b3 = remapped(b, last, index);
        let c3 = remapped(c, last, index);
        lemma_keys_remapped(a2, last, index, index);
        lemma_keys_remapped(b, last, index, index);
        lemma_keys_remapped(c, last, index, index);
        assert forall|i: usize| i < values2.len() implies keys_of(a3, i).len() + keys_of(
            b3,
            i,
        ).len() + keys_of(c3, i).len() == (#[trigger] values2[i as int]).1 by {
            lemma_keys_remapped(a2, last, index, i);
            lemma_keys_remapped(b, last, index, i);
            lemma_keys_remapped(c, last, index, i);
            lemma_keys_remove(a, k, i);
            lemma_keys_remove(a, k, last);
            if i == index {
                assert(values2[i as int] == values[last as int]);
            } else {
                assert(values2[i as int] == values[i as int]);
            }
        }
    } else {
        let values2 = unlink_counted(values, index);
        assert forall|i: usize| i < values2.len() implies keys_of(a2, i).len() + keys_of(
            b,
            i,
        ).len() + keys_of(c, i).len() == (#[trigger] values2[i as int]).1 by {
            lemma_keys_remove(a, k, i);
            assert(values[i as int].1 >= 1);
        }
    }
}

impl<K1, K2, K3, V> ThreeKeyMap<K1, K2, K3, V> {
    /// Every value has just as many keys as it is said to have. A new map is so, and adding values
    /// under new keys, linking keys and taking them away keeps it. Adding under a key that is there
    /// already does not, since the key is left without a value; nor does `unlink_all_but_key1`,
    /// which leaves a count too high.
    pub open spec fn exact(&self) -> bool {
        exact(self.key1_map@, self.key2_map@, self.key3_map@, self.values@)
    }
}

/// Adding a value under a new key of the first kind keeps the counts of keys exact.
pub proof fn law_insert_by_key1_keeps_exact<K1, K2, K3, V>(
    before: ThreeKeyMap<K1, K2, K3, V>,
    after: ThreeKeyMap<K1, K2, K3, V>,
    k: K1,
    v: V,
)
    requires
        before.exact(),
        before.values@.len() < usize::MAX,
        !before.key1_map@.contains_key(k),
        after.key1_map@ == before.key1_map@.insert(k, before.values@.len() as usize),
        after.key2_map@ == before.key2_map@,
        after.key3_map@ == before.key3_map@,
        after.values@ == before.values@.push((v, 1usize)),
    ensures
        after.exact(),
{
    lemma_exact_insert(before.key1_map@, before.key2_map@, before.key3_map@, before.values@, k, v);
}

/// Linking a new key of the first kind keeps the counts of keys exact.
pub proof fn law_link_key1_keeps_exact<K1, K2, K3, V>(
    before: ThreeKeyMap<K1, K2, K3, V>,
    after: ThreeKeyMap<K1, K2, K3, V>,
    new_k: K1,
    index: usize,
)
    requires
        before.exact(),
        !before.key1_map@.contains_key(new_k),
        linkable(before.values@, index),
        after.key1_map@ == before.key1_map@.insert(new_k, index),
        after.key2_map@ == before.key2_map@,
        after.key3_map@ == before.key3_map@,
        after.values@ == link_counted(before.values@, index),
    ensures
        after.exact(),
{
    lemma_exact_link(
        before.key1_map@,
        before.key2_map@,
        before.key3_map@,
        before.values@,
        new_k,
        index,
    );
}

/// Where the counts of keys are exact, taking away a key of the first kind gives the value back just
/// where no other key of any kind has it, and keeps the counts exact. The key is then gone, and every
/// other key finds what it found.
pub proof fn law_last_key1_gives_value<
    K1: Copy + Hash + Eq,
    K2: Copy + Hash + Eq,
    K3: Copy + Hash + Eq,
    V,
>(
    before: ThreeKeyMap<K1, K2, K3, V>,
    after: ThreeKeyMap<K1, K2, K3, V>,
    k: K1,
    r: Option<V>,
)
    requires
        before.exact(),
        before.removed_by_key1(after, k, r),
    ensures
        after.exact(),
        !before.key1_map@.contains_key(k) ==> r is None && same(after, before),
        before.key1_map@.contains_key(k) ==> r == (if only_key(
            before.key1_map@,
            before.key2_map@,
            before.key3_map@,
            k,
        ) {
            found(before.key1_map@, before.values@, k)
        } else {
            None
        }),
        found(after.key1_map@, after.values@, k) is None,
        same_lookups1(before, after, Some(k)),
        same_lookups2(before, after, None),
        same_lookups3(before, after, None),
{
    law_remove_by_key1(before, after, k, r);
    if before.key1_map@.contains_key(k) {
        lemma_only_key(before.key1_map@, before.key2_map@, before.key3_map@, before.values@, k);
        lemma_exact_remove(before.key1_map@, before.key2_map@, before.key3_map@, before.values@, k);
    }
}

/// Adding a value under a new key of the second kind keeps the counts of keys exact.
pub proof fn law_insert_by_key2_keeps_exact<K1, K2, K3, V>(
    before: ThreeKeyMap<K1, K2, K3, V>,
    after: ThreeKeyMap<K1, K2, K3, V>,
    k: K2,
    v: V,
)
    requires
        before.exact(),
        before.values@.len() < usize::MAX,
        !before.key2_map@.contains_key(k),
        after.key2_map@ == before.key2_map@.insert(k, before.values@.len() as usize),
        after.key1_map@ == before.key1_map@,
        after.key3_map@ == before.key3_map@,
        after.values@ == before.values@.push((v, 1usize)),
    ensures
        after.exact(),
{
    lemma_exact_insert(before.key2_map@, before.key1_map@, before.key3_map@, before.values@, k, v);
}

/// Linking a new key of the second kind keeps the counts of keys exact.
pub proof fn law_link_key2_keeps_exact<K1, K2, K3, V>(
    before: ThreeKeyMap<K1, K2, K3, V>,
    after: ThreeKeyMap<K1, K2, K3, V>,
    new_k: K2,
    index: usize,
)
    requires
        before.exact(),
        !before.key2_map@.contains_key(new_k),
        linkable(before.values@, index),
        after.key2_map@ == before.key2_map@.insert(new_k, index),
        after.key1_map@ == before.key1_map@,
        after.key3_map@ == before.key3_map@,
        after.values@ == link_counted(before.values@, index),
    ensures
        after.exact(),
{
    lemma_exact_link(
        before.key2_map@,
        before.key1_map@,
        before.key3_map@,
        before.values@,
        new_k,
        index,
    );
}

/// Where the counts of keys are exact, taking away a key of the second kind gives the value back just
/// where no other key of any kind has it, and keeps the counts exact. The key is then gone, and every
/// other key finds what it found.
pub proof fn law_last_key2_gives_value<
    K1: Copy + Hash + Eq,
    K2: Copy + Hash + Eq,
    K3: Copy + Hash + Eq,
    V,
>(
    before: ThreeKeyMap<K1, K2, K3, V>,
    after: ThreeKeyMap<K1, K2, K3, V>,
    k: K2,
    r: Option<V>,
)
    requires
        before.exact(),
        before.removed_by_key2(after, k, r),
    ensures
        after.exact(),
        !before.key2_map@.contains_key(k) ==> r is None && same(after, before),
        before.key2_map@.contains_key(k) ==> r == (if only_key(
            before.key2_map@,
            before.key1_map@,
            before.key3_map@,
            k,
        ) {
            found(before.key2_map@, before.values@, k)
        } else {
            None
        }),
        found(after.key2_map@, after.values@, k) is None,
        same_lookups2(before, after, Some(k)),
        same_lookups1(before, after, None),
        same_lookups3(before, after, None),
{
    law_remove_by_key2(before, after, k, r);
    if before.key2_map@.contains_key(k) {
        lemma_only_key(before.key2_map@, before.key1_map@, before.key3_map@, before.values@, k);
        lemma_exact_remove(before.key2_map@, before.key1_map@, before.key3_map@, before.values@, k);
    }
}

/// Adding a value under a new key of the third kind keeps the counts of keys exact.
pub proof fn law_insert_by_key3_keeps_exact<K1, K2, K3, V>(
    before: ThreeKeyMap<K1, K2, K3, V>,
    after: ThreeKeyMap<K1, K2, K3, V>,
    k: K3,
    v: V,
)
    requires
        before.exact(),
        before.values@.len() < usize::MAX,
        !before.key3_map@.contains_key(k),
        after.key3_map@ == before.key3_map@.insert(k, before.values@.len() as usize),
        after.key1_map@ == before.key1_map@,
        after.key2_map@ == before.key2_map@,
        after.values@ == before.values@.push((v, 1usize)),
    ensures
        after.exact(),
{
    lemma_exact_insert(before.key3_map@, before.key1_map@, before.key2_map@, before.values@, k, v);
}

/// Linking a new key of the third kind keeps the counts of keys exact.
pub proof fn law_link_key3_keeps_exact<K1, K2, K3, V>(
    before: ThreeKeyMap<K1, K2, K3, V>,
    after: ThreeKeyMap<K1, K2, K3, V>,
    new_k: K3,
    index: usize,
)
    requires
        before.exact(),
        !before.key3_map@.contains_key(new_k),
        linkable(before.values@, index),
        after.key3_map@ == before.key3_map@.insert(new_k, index),
        after.key1_map@ == before.key1_map@,
        after.key2_map@ == before.key2_map@,
        after.values@ == link_counted(before.values@, index),
    ensures
        after.exact(),
{
    lemma_exact_link(
        before.key3_map@,
        before.key1_map@,
        before.key2_map@,
        before.values@,
        new_k,
        index,
    );
}

/// Where the counts of keys are exact, taking away a key of the third kind gives the value back just
/// where no other key of any kind has it, and keeps the counts exact. The key is then gone, and every
/// other key finds what it found.
pub proof fn law_last_key3_gives_value<
    K1: Copy + Hash + Eq,
    K2: Copy + Hash + Eq,
    K3: Copy + Hash + Eq,
    V,
>(
    before: ThreeKeyMap<K1, K2, K3, V>,
    after: ThreeKeyMap<K1, K2, K3, V>,
    k: K3,
    r: Option<V>,
)
    requires
        before.exact(),
        before.removed_by_key3(after, k, r),
    ensures
        after.exact(),
        !before.key3_map@.contains_key(k) ==> r is None && same(after, before),
        before.key3_map@.contains_key(k) ==> r == (if only_key(
            before.key3_map@,
            before.key1_map@,
            before.key2_map@,
            k,
        ) {
            found(before.key3_map@, before.values@, k)
        } else {
            None
        }),
        found(after.key3_map@, after.values@, k) is None,
        same_lookups3(before, after, Some(k)),
        same_lookups1(before, after, None),
        same_lookups2(before, after, None),
{
    law_remove_by_key3(before, after, k, r);
    if before.key3_map@.contains_key(k) {
        lemma_only_key(before.key3_map@, before.key1_map@, before.key2_map@, before.values@, k);
        lemma_exact_remove(before.key3_map@, before.key1_map@, before.key2_map@, before.values@, k);
    }
}

/// The keys and values of a map, as mathematical objects.
#[verifier::ext_equal]
#[verifier::reject_recursive_types(K1)]
#[verifier::reject_recursive_types(K2)]
#[verifier::reject_recursive_types(K3)]
pub struct Links<K1, K2, K3, V> {
    pub keys1: Map<K1, usize>,
    pub keys2: Map<K2, usize>,
    pub keys3: Map<K3, usize>,
    pub values: Seq<(V, usize)>,
}

impl<K1, K2, K3, V> View for ThreeKeyMap<K1, K2, K3, V> {
    type V = Links<K1, K2, K3, V>;

    open spec fn view(&self) -> Links<K1, K2, K3, V> {
        Links {
            keys1: self.key1_map@,
            keys2: self.key2_map@,
            keys3: self.key3_map@,
            values: self.values@,
        }
    }
}

impl<K1, K2, K3, V> Links<K1, K2, K3, V> {
    pub open spec fn get1(self, k: K1) -> Option<V> {
        found(self.keys1, self.values, k)
    }

    pub open spec fn get2(self, k: K2) -> Option<V> {
        found(self.keys2, self.values, k)
    }

    pub open spec fn get3(self, k: K3) -> Option<V> {
        found(self.keys3, self.values, k)
    }

    /// With a value under a new key of the first kind.
    pub open spec fn insert1(self, k: K1, v: V) -> Self {
        Links {
            keys1: self.keys1.insert(k, self.values.len() as usize),
            values: self.values.push((v, 1usize)),
            ..self
        }
    }

    /// Without the other keys of the value of `k`.
    pub open spec fn unlink_all_but1(self, k: K1) -> Self {
        if self.keys1.contains_key(k) {
            let index = self.keys1[k];
            Links {
                keys1: without_links(self.keys1, index, Some(k)),
                keys2: without_links(self.keys2, index, None),
                keys3: without_links(self.keys3, index, None),
                ..self
            }
        } else {
            self
        }
    }

    /// With `k` linked to the value of a key of the first kind, where that can be.
    pub open spec fn link2_to1(self, k: K2, existing: K1) -> Self {
        if !self.keys2.contains_key(k) && self.keys1.contains_key(existing) {
            Links {
                keys2: self.keys2.insert(k, self.keys1[existing]),
                values: link_counted(self.values, self.keys1[existing]),
                ..self
            }
        } else {
            self
        }
    }

    /// With `k` linked to the value of a key of the first kind, where that can be.
    pub open spec fn link3_to1(self, k: K3, existing: K1) -> Self {
        if !self.keys3.contains_key(k) && self.keys1.contains_key(existing) {
            Links {
                keys3: self.keys3.insert(k, self.keys1[existing]),
                values: link_counted(self.values, self.keys1[existing]),
                ..self
            }
        } else {
            self
        }
    }

    /// With `k` linked to the value of a key of the second kind, where that can be.
    pub open spec fn link3_to2(self, k: K3, existing: K2) -> Self {
        if !self.keys3.contains_key(k) && self.keys2.contains_key(existing) {
            Links {
                keys3: self.keys3.insert(k, self.keys2[existing]),
                values: link_counted(self.values, self.keys2[existing]),
                ..self
            }
        } else {
            self
        }
    }

    /// The last value in place of that at `index`, and its keys with it.
    pub open spec fn value_removed(self, index: usize) -> Self {
        let last = (self.values.len() - 1) as usize;
        Links {
            keys1: remapped(self.keys1, last, index),
            keys2: remapped(self.keys2, last, index),
            keys3: remapped(self.keys3, last, index),
            values: swap_removed(self.values, index as int),
        }
    }

    /// With one key less to the value at `index`, which goes with its last key.
    pub open spec fn key_removed(self, index: usize) -> Self {
        if index >= self.values.len() {
            self
        } else if self.values[index as int].1 == 1 {
            self.value_removed(index)
        } else {
            Links { values: unlink_counted(self.values, index), ..self }
        }
    }

    /// Without a key of the first kind.
    pub open spec fn remove1(self, k: K1) -> Self {
        if self.keys1.contains_key(k) {
            Links { keys1: self.keys1.remove(k), ..self }.key_removed(self.keys1[k])
        } else {
            self
        }
    }

    /// Without a key of the second kind.
    pub open spec fn remove2(self, k: K2) -> Self {
        if self.keys2.contains_key(k) {
            Links { keys2: self.keys2.remove(k), ..self }.key_removed(self.keys2[k])
        } else {
            self
        }
    }

    /// Without a key of the third kind.
    pub open spec fn remove3(self, k: K3) -> Self {
        if self.keys3.contains_key(k) {
            Links { keys3: self.keys3.remove(k), ..self }.key_removed(self.keys3[k])
        } else {
            self
        }
    }

    /// Every key has a value, and no value has more keys than it is said to have.
    pub open spec fn wf(self) -> bool {
        consistent(self.keys1, self.keys2, self.keys3, self.values)
    }

    /// Lookups of the keys of the other kinds, and of the other keys of the second kind, give what
    /// they gave before `k` was taken away.
    pub proof fn lemma_remove2(self, k: K2)
        requires
            self.wf(),
        ensures
            self.remove2(k).wf(),
            self.remove2(k).keys1.dom() == self.keys1.dom(),
            self.remove2(k).keys2.dom() == self.keys2.dom().remove(k),
            self.remove2(k).keys3.dom() == self.keys3.dom(),
            forall|q: K1| #[trigger] self.remove2(k).get1(q) == self.get1(q),
            forall|q: K2| q != k ==> #[trigger] self.remove2(k).get2(q) == self.get2(q),
            forall|q: K3| #[trigger] self.remove2(k).get3(q) == self.get3(q),
    {
        if self.keys2.contains_key(k) {
            lemma_remove(self.keys2, self.keys1, self.keys3, self.values, k);
        }
        assert(self.remove2(k).keys1.dom() =~= self.keys1.dom());
        assert(self.remove2(k).keys2.dom() =~= self.keys2.dom().remove(k));
        assert(self.remove2(k).keys3.dom() =~= self.keys3.dom());
    }

    /// Lookups of the keys of the other kinds, and of the other keys of the third kind, give what
    /// they gave before `k` was taken away.
    pub proof fn lemma_remove3(self, k: K3)
        requires
            self.wf(),
        ensures
            self.remove3(k).wf(),
            self.remove3(k).keys1.dom() == self.keys1.dom(),
            self.remove3(k).keys2.dom() == self.keys2.dom(),
            self.remove3(k).keys3.dom() == self.keys3.dom().remove(k),
            forall|q: K1| #[trigger] self.remove3(k).get1(q) == self.get1(q),
            forall|q: K2| #[trigger] self.remove3(k).get2(q) == self.get2(q),
            forall|q: K3| q != k ==> #[trigger] self.remove3(k).get3(q) == self.get3(q),
    {
        if self.keys3.contains_key(k) {
            lemma_remove(self.keys3, self.keys1, self.keys2, self.values, k);
        }
        assert(self.remove3(k).keys1.dom() =~= self.keys1.dom());
        assert(self.remove3(k).keys2.dom() =~= self.keys2.dom());
        assert(self.remove3(k).keys3.dom() =~= self.keys3.dom().remove(k));
    }

    /// Lookups of all other keys give what they gave before `k` was taken away.
    pub proof fn lemma_remove1(self, k: K1)
        requires
            self.wf(),
        ensures
            self.remove1(k).wf(),
            self.remove1(k).keys1.dom() == self.keys1.dom().remove(k),
            self.remove1(k).keys2.dom() == self.keys2.dom(),
            self.remove1(k).keys3.dom() == self.keys3.dom(),
            forall|q: K1| q != k ==> #[trigger] self.remove1(k).get1(q) == self.get1(q),
            forall|q: K2| #[trigger] self.remove1(k).get2(q) == self.get2(q),
            forall|q: K3| #[trigger] self.remove1(k).get3(q) == self.get3(q),
    {
        if self.keys1.contains_key(k) {
            lemma_remove(self.keys1, self.keys2, self.keys3, self.values, k);
        }
        assert(self.remove1(k).keys1.dom() =~= self.keys1.dom().remove(k));
        assert(self.remove1(k).keys2.dom() =~= self.keys2.dom());
        assert(self.remove1(k).keys3.dom() =~= self.keys3.dom());
    }

    /// A value under a new key of the first kind changes no other lookup.
    pub proof fn lemma_insert1(self, k: K1, v: V)
        requires
            self.wf(),
            !self.keys1.contains_key(k),
            self.values.len() < usize::MAX,
        ensures
            self.insert1(k, v).wf(),
            forall|q: K2| #[trigger] self.insert1(k, v).get2(q) == self.get2(q),
            forall|q: K3| #[trigger] self.insert1(k, v).get3(q) == self.get3(q),
    {
        lemma_insert(self.keys1, self.keys2, self.keys3, self.values, k, v);
    }

    /// A new link of a key of the second kind changes no other lookup.
    pub proof fn lemma_link2_to1(self, k: K2, existing: K1)
        requires
            self.wf(),
            self.keys1.contains_key(existing) ==> linkable(self.values, self.keys1[existing]),
        ensures
            self.link2_to1(k, existing).wf(),
            forall|q: K1| #[trigger] self.link2_to1(k, existing).get1(q) == self.get1(q),
            forall|q: K3| #[trigger] self.link2_to1(k, existing).get3(q) == self.get3(q),
    {
        if !self.keys2.contains_key(k) && self.keys1.contains_key(existing) {
            lemma_link(
                self.keys2,
                self.keys1,
                self.keys3,
                self.values,
                k,
                self.keys1[existing],
            );
        }
    }

    /// A new link of a key of the third kind to a value that can have one more changes no other
    /// lookup.
    proof fn lemma_link3(self, k: K3, index: usize)
        requires
            self.wf(),
            !self.keys3.contains_key(k),
            linkable(self.values, index),
        ensures
            ({
                let after = Links {
                    keys3: self.keys3.insert(k, index),
                    values: link_counted(self.values, index),
                    ..self
                };
                &&& after.wf()
                &&& forall|q: K3| q != k ==> #[trigger] after.get3(q) == self.get3(q)
            }),
    {
        lemma_link(self.keys3, self.keys1, self.keys2, self.values, k, index);
    }

    /// A new link of a key of the third kind changes no other lookup of such keys.
    pub proof fn lemma_link3_to1(self, k: K3, existing: K1)
        requires
            self.wf(),
            self.keys1.contains_key(existing) ==> linkable(self.values, self.keys1[existing]),
        ensures
            self.link3_to1(k, existing).wf(),
            forall|q: K3| q != k ==> #[trigger] self.link3_to1(k, existing).get3(q) == self.get3(q),
    {
        if !self.keys3.contains_key(k) && self.keys1.contains_key(existing) {
            self.lemma_link3(k, self.keys1[existing]);
        }
    }

    /// A new link of a key of the third kind changes no other lookup of such keys.
    pub proof fn lemma_link3_to2(self, k: K3, existing: K2)
        requires
            self.wf(),
            !self.keys3.contains_key(k) && self.keys2.contains_key(existing) ==> linkable(
                self.values,
                self.keys2[existing],
            ),
        ensures
            self.link3_to2(k, existing).wf(),
            forall|q: K3| q != k ==> #[trigger] self.link3_to2(k, existing).get3(q) == self.get3(q),
    {
        if !self.keys3.contains_key(k) && self.keys2.contains_key(existing) {
            self.lemma_link3(k, self.keys2[existing]);
        }
    }

    /// Taking the other keys away from a value keeps every key with a value.
    pub proof fn lemma_unlink_all_but1(self, k: K1)
        requires
            self.wf(),
        ensures
            self.unlink_all_but1(k).wf(),
    {
        if self.keys1.contains_key(k) {
            let index = self.keys1[k];
            let after = self.unlink_all_but1(k);
            let keep1 = |q: K1, i: usize| i != index || Some(q) == Some(k);
            let keep2 = |q: K2, i: usize| i != index || Some(q) == None::<K2>;
            let keep3 = |q: K3, i: usize| i != index || Some(q) == None::<K3>;
            lemma_keys_kept(self.keys1, keep1, index);
            lemma_keys_kept(self.keys2, keep2, index);
            lemma_keys_kept(self.keys3, keep3, index);
            assert(after.keys1 =~= kept(self.keys1, keep1));
            assert(after.keys2 =~= kept(self.keys2, keep2));
            assert(after.keys3 =~= kept(self.keys3, keep3));
            assert forall|i: usize| i < after.values.len() implies 1 <= (
            #[trigger] after.values[i as int]).1 && keys_of(after.keys1, i).len() + keys_of(
                after.keys2,
                i,
            ).len() + keys_of(after.keys3, i).len() <= after.values[i as int].1 by {
                lemma_keys_kept(self.keys1, keep1, i);
                lemma_keys_kept(self.keys2, keep2, i);
                lemma_keys_kept(self.keys3, keep3, i);
                assert(self.values[i as int].1 >= 1);
            }
        }
    }
}

} // verus!
