//! Transfers that are under way, and transfers that are kept to be used again.
use crate::utils::simple_map::{key_list, SimpleMap};
use std::collections::BTreeMap;
use vstd::prelude::*;

verus! {

broadcast use {
    vstd::std_specs::hash::group_hash_axioms,
    vstd::std_specs::btree::group_btree_axioms,
};

/// One transfer, or a stack of them.
pub enum OneOrMany<T> {
    One(T),
    Many(Vec<T>),
}

impl<T> OneOrMany<T> {
    /// The transfers; the last is used first.
    pub open spec fn items(self) -> Seq<T> {
        match self {
            OneOrMany::One(t) => seq![t],
            OneOrMany::Many(v) => v@,
        }
    }
}

/// Transfers that are kept, by the number of packets that they have room for.
pub struct BigTransfers<T> {
    pub inner: BTreeMap<u16, OneOrMany<T>>,
}

/// The least key from `n` on.
pub open spec fn least_from<V>(m: Map<u16, V>, n: u16, k: u16) -> bool {
    &&& m.contains_key(k)
    &&& n <= k
    &&& forall|j: u16| #[trigger] m.contains_key(j) && n <= j ==> k <= j
}

/// The last transfer was taken from the stack at `k`, which is gone where it was the only one.
pub open spec fn top_taken<T>(
    before: Map<u16, OneOrMany<T>>,
    after: Map<u16, OneOrMany<T>>,
    k: u16,
    t: T,
) -> bool {
    let items = before[k].items();
    &&& t == items.last()
    &&& items.len() == 1 ==> after == before.remove(k)
    &&& items.len() > 1 ==> {
        &&& after.dom() == before.dom()
        &&& after[k] is Many
        &&& after[k].items() == items.drop_last()
        &&& forall|j: u16| j != k && #[trigger] before.contains_key(j) ==> after[j] == before[j]
    }
}

impl<T> BigTransfers<T> {
    /// No stack is empty.
    pub open spec fn wf(&self) -> bool {
        forall|k: u16| #[trigger]
            self.inner@.contains_key(k) ==> self.inner@[k].items().len() > 0
    }

    pub fn new() -> (b: Self)
        ensures
            b.wf(),
            b.inner@ == Map::<u16, OneOrMany<T>>::empty(),
    {
        BigTransfers { inner: BTreeMap::new() }
    }

    /// Keeps a transfer that has room for `max_iso_packets` packets. A second one goes below the
    /// first, later ones go on top.
    pub fn insert(&mut self, max_iso_packets: u16, transfer: T)
        requires
            old(self).wf(),
        ensures
            final(self).wf(),
            final(self).inner@.dom() == old(self).inner@.dom().insert(max_iso_packets),
            forall|k: u16|
                k != max_iso_packets && #[trigger] old(self).inner@.contains_key(k)
                    ==> final(self).inner@[k] == old(self).inner@[k],
            ({
                let after = final(self).inner@[max_iso_packets];
                if !old(self).inner@.contains_key(max_iso_packets) {
                    after == OneOrMany::One(transfer)
                } else {
                    match old(self).inner@[max_iso_packets] {
                        OneOrMany::One(other) => after is Many && after.items() == seq![
                            transfer,
                            other,
                        ],
                        OneOrMany::Many(v) => after is Many && after.items() == v@.push(transfer),
                    }
                }
            }),
    {
        let entry = self.inner.remove(&max_iso_packets);
        let value = match entry {
            Some(OneOrMany::One(other)) => {
                let v = vec![transfer, other];
                assert(v@ =~= seq![transfer, other]);
                OneOrMany::Many(v)
            },
            Some(OneOrMany::Many(mut v)) => {
                v.push(transfer);
                OneOrMany::Many(v)
            },
            None => OneOrMany::One(transfer),
        };
        self.inner.insert(max_iso_packets, value);
        assert(self.inner@.dom() =~= old(self).inner@.dom().insert(max_iso_packets));
    }

    /// Takes a transfer that has room for `num_iso_packets` packets, of those with the least
    /// room.
    pub fn remove(&mut self, num_iso_packets: u16) -> (r: Option<T>)
        requires
            old(self).wf(),
        ensures
            final(self).wf(),
            r is None <==> forall|k: u16| #[trigger]
                old(self).inner@.contains_key(k) ==> k < num_iso_packets,
            r is None ==> final(self).inner@ == old(self).inner@,
            r matches Some(t) ==> exists|k: u16|
                least_from(old(self).inner@, num_iso_packets, k) && #[trigger] top_taken(
                    old(self).inner@,
                    final(self).inner@,
                    k,
                    t,
                ),
    {
        let key: u16 = match self.least_key_from(num_iso_packets) {
            Some(key) => key,
            None => return None,
        };
        let ghost before = self.inner@;
        assert(least_from(before, num_iso_packets, key));
        let r = match self.inner.remove(&key) {
            Some(OneOrMany::One(transfer)) => {
                assert(top_taken(before, self.inner@, key, transfer));
                Some(transfer)
            },
            Some(OneOrMany::Many(mut v)) => {
                let ghost items = v@;
                match v.pop() {
                    Some(transfer) => {
                        if !v.is_empty() {
                            self.inner.insert(key, OneOrMany::Many(v));
                            assert(self.inner@.dom() =~= before.dom());
                        }
                        assert(before[key].items() == items);
                        assert(top_taken(before, self.inner@, key, transfer));
                        Some(transfer)
                    },
                    None => None,
                }
            },
            None => None,
        };
        assert(top_taken(old(self).inner@, self.inner@, key, r->0));
        r
    }

    fn least_key_from(&self, n: u16) -> (r: Option<u16>)
        ensures
            match r {
                Some(k) => least_from(self.inner@, n, k),
                None => forall|k: u16| #[trigger] self.inner@.contains_key(k) ==> k < n,
            },
    {
        let mut best: Option<u16> = None;
        for k in it: self.inner.keys()
            invariant
                match best {
                    Some(b) => {
                        &&& n <= b
                        &&& exists|i: int| 0 <= i < it.index() && *(#[trigger] it.seq()[i]) == b
                        &&& forall|i: int|
                            0 <= i < it.index() && n <= *(#[trigger] it.seq()[i]) ==> b
                                <= *it.seq()[i]
                    },
                    None => forall|i: int| 0 <= i < it.index() ==> *(#[trigger] it.seq()[i]) < n,
                },
        {
            if *k >= n {
                best = match best {
                    Some(b) => if *k < b {
                        Some(*k)
                    } else {
                        Some(b)
                    },
                    None => Some(*k),
                };
            }
        }
        let ghost all = vstd::std_specs::iter::IteratorSpec::remaining(
            &vstd::std_specs::btree::spec_keys_iter(&self.inner),
        );
        proof {
            assert forall|j: u16| #[trigger] self.inner@.contains_key(j) implies exists|i: int|
                0 <= i < all.len() && *(#[trigger] all[i]) == j by {
                assert(all.unref().to_set().contains(j));
            }
            assert forall|i: int| 0 <= i < all.len() implies self.inner@.contains_key(
                *(#[trigger] all[i]),
            ) by {
                assert(all.unref()[i] == *all[i]);
                assert(all.unref().to_set().contains(*all[i]));
            }
        }
        best
    }
}

/// Transfers without packets that are kept.
pub struct SmallTransfers<T> {
    pub inner: Vec<T>,
}

impl<T> SmallTransfers<T> {
    pub fn from_vec(inner: Vec<T>) -> (s: Self)
        ensures
            s.inner == inner,
    {
        SmallTransfers { inner }
    }

    /// Takes the transfer that was kept last.
    pub fn remove(&mut self) -> (r: Option<T>)
        ensures
            old(self).inner@.len() == 0 ==> r is None && final(self).inner@ == old(self).inner@,
            old(self).inner@.len() > 0 ==> r == Some(old(self).inner@.last())
                && final(self).inner@ == old(self).inner@.drop_last(),
    {
        self.inner.pop()
    }

    pub fn insert(&mut self, transfer: T)
        ensures
            final(self).inner@ == old(self).inner@.push(transfer),
    {
        self.inner.push(transfer);
    }
}

/// `v` is what the map has for its keys, of which `keys` lists each once.
pub open spec fn lists_all<T>(m: Map<u32, T>, keys: Seq<u32>, v: Seq<T>) -> bool {
    &&& keys.no_duplicates()
    &&& keys.to_set() == m.dom()
    &&& v.len() == keys.len()
    &&& forall|i: int| 0 <= i < v.len() ==> #[trigger] v[i] == m[keys[i]]
}

/// The tokens by which transfers that are under way can be cancelled, and tokens that are kept.
pub struct CancelTokens<T> {
    pub active: SimpleMap<u32, T>,
    pub cached: Vec<T>,
}

impl<T> CancelTokens<T> {
    pub fn new() -> (t: Self)
        ensures
            t.active@ == Map::<u32, T>::empty(),
            t.cached@ == Seq::<T>::empty(),
    {
        CancelTokens { active: SimpleMap::new(), cached: Vec::new() }
    }

    /// Takes a token that is kept; where none is, the caller makes a new one.
    pub fn take_cached(&mut self) -> (r: Option<T>)
        ensures
            final(self).active == old(self).active,
            old(self).cached@.len() == 0 ==> r is None && final(self).cached@ == old(self).cached@,
            old(self).cached@.len() > 0 ==> r == Some(old(self).cached@.last())
                && final(self).cached@ == old(self).cached@.drop_last(),
    {
        self.cached.pop()
    }

    /// Takes note of the token of a transfer that starts.
    pub fn register(&mut self, seqnum: u32, token: T)
        ensures
            final(self).active@ == old(self).active@.insert(seqnum, token),
            final(self).cached@ == old(self).cached@,
    {
        self.active.insert(seqnum, token);
    }

    /// Takes the token of a transfer that is to be cancelled.
    pub fn cancel(&mut self, seqnum: u32) -> (r: Option<T>)
        ensures
            r is Some <==> old(self).active@.contains_key(seqnum),
            r matches Some(t) ==> t == old(self).active@[seqnum],
            final(self).active@ == old(self).active@.remove(seqnum),
            final(self).cached@ == old(self).cached@,
    {
        let r = self.active.remove(&seqnum);
        assert(!old(self).active@.contains_key(seqnum) ==> old(self).active@.remove(seqnum)
            =~= old(self).active@);
        r
    }

    /// Keeps the token of a transfer that is complete.
    pub fn deregister(&mut self, seqnum: u32)
        ensures
            final(self).active@ == old(self).active@.remove(seqnum),
            final(self).cached@ == (if old(self).active@.contains_key(seqnum) {
                old(self).cached@.push(old(self).active@[seqnum])
            } else {
                old(self).cached@
            }),
    {
        match self.cancel(seqnum) {
            Some(token) => self.cached.push(token),
            None => {},
        }
    }

    /// Takes the tokens of all transfers that are under way.
    pub fn take_all(&mut self) -> (v: Vec<T>)
        ensures
            final(self).active@ == Map::<u32, T>::empty(),
            final(self).cached@ == old(self).cached@,
            exists|keys: Seq<u32>| #[trigger] lists_all(old(self).active@, keys, v@),
    {
        let keys = key_list(&self.active);
        let mut v: Vec<T> = Vec::new();
        let n: usize = keys.len();
        let mut i: usize = 0;
        let ghost before = self.active@;
        proof {
            assert(before.remove_keys(keys@.take(0).to_set()) =~= before);
        }
        while i < n
            invariant
                n == keys@.len(),
                i <= n,
                keys@.no_duplicates(),
                keys@.to_set() == before.dom(),
                self.cached@ == old(self).cached@,
                self.active@ == before.remove_keys(keys@.take(i as int).to_set()),
                v@.len() == i,
                forall|j: int|
                    0 <= j < i ==> before.contains_key(keys@[j]) && #[trigger] v@[j]
                        == before[keys@[j]],
            decreases n - i,
        {
            let k: u32 = keys[i];
            proof {
                assert(keys@.to_set().contains(k));
                assert(!keys@.take(i as int).to_set().contains(k)) by {
                    if keys@.take(i as int).to_set().contains(k) {
                        let j = choose|j: int| 0 <= j < i && keys@.take(i as int)[j] == k;
                        assert(keys@[j] == keys@[i as int]);
                    }
                }
                assert(keys@.take(i + 1) =~= keys@.take(i as int).push(k));
                keys@.take(i as int).lemma_push_to_set_commute(k);
            }
            match self.active.remove(&k) {
                Some(token) => v.push(token),
                None => {},
            }
            assert(self.active@ =~= before.remove_keys(keys@.take(i + 1).to_set()));
            i = i + 1;
        }
        proof {
            assert(keys@.take(n as int) =~= keys@);
            assert(self.active@ =~= Map::<u32, T>::empty());
            assert(lists_all(before, keys@, v@));
        }
        v
    }
}

/// A token that was registered comes back, once the transfer is complete, as the next that is
/// handed out.
pub proof fn law_token_is_reused<T>(
    before: CancelTokens<T>,
    registered: CancelTokens<T>,
    complete: CancelTokens<T>,
    seqnum: u32,
    token: T,
)
    requires
        registered.active@ == before.active@.insert(seqnum, token),
        registered.cached@ == before.cached@,
        complete.active@ == registered.active@.remove(seqnum),
        complete.cached@ == (if registered.active@.contains_key(seqnum) {
            registered.cached@.push(registered.active@[seqnum])
        } else {
            registered.cached@
        }),
    ensures
        complete.cached@.last() == token,
        complete.cached@.drop_last() == before.cached@,
        !before.active@.contains_key(seqnum) ==> complete.active@ == before.active@,
{
    assert(complete.cached@.drop_last() =~= before.cached@);
    if !before.active@.contains_key(seqnum) {
        assert(complete.active@ =~= before.active@);
    }
}

} // verus!
