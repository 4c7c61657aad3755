//! The largest, the smallest and the mean of the last of many measurements.
use std::collections::{BTreeMap, BTreeSet, VecDeque};
use vstd::prelude::*;

verus! {

broadcast use {
    vstd::std_specs::btree::group_btree_axioms,
    vstd::laws_cmp::group_laws_cmp,
};

/// A span of time, in nanoseconds.
#[derive(Debug, Clone, Copy, PartialEq, Eq, PartialOrd, Ord, Hash, Structural)]
pub struct Duration {
    pub nanos: u128,
}

/// The longest span of time: so many seconds as can be counted with sixty-four bits, and all but
/// a nanosecond of another one.
pub open spec fn longest() -> int {
    0x1_0000_0000_0000_0000 * 1_000_000_000 - 1
}

/// Removes the entry with the smallest key.
///
/// Trusted: `std::collections::BTreeMap::pop_first`, which takes the entry with the minimum key
/// out of the map, and gives nothing only where the map is empty.
#[verifier::external_body]
fn pop_smallest<V>(m: &mut BTreeMap<u128, V>) -> (r: Option<(u128, V)>)
    ensures
        match r {
            Some((k, v)) => {
                &&& old(m)@.contains_key(k)
                &&& v == old(m)@[k]
                &&& forall|k2: u128| old(m)@.contains_key(k2) ==> k <= k2
                &&& final(m)@ == old(m)@.remove(k)
            },
            None => old(m)@ == Map::<u128, V>::empty() && final(m)@ == old(m)@,
        },
{
    m.pop_first()
}

/// Removes the largest element.
///
/// Trusted: `std::collections::BTreeSet::pop_last`, which takes the maximum out of the set, and
/// gives nothing only where the set is empty.
#[verifier::external_body]
fn pop_largest(s: &mut BTreeSet<u128>) -> (r: Option<u128>)
    ensures
        match r {
            Some(k) => {
                &&& old(s)@.contains(k)
                &&& forall|k2: u128| old(s)@.contains(k2) ==> k2 <= k
                &&& final(s)@ == old(s)@.remove(k)
            },
            None => old(s)@ == Set::<u128>::empty() && final(s)@ == old(s)@,
        },
{
    s.pop_last()
}

/// `k` is a smallest key.
pub open spec fn smallest<V>(m: Map<u128, V>, k: u128) -> bool {
    m.contains_key(k) && forall|k2: u128| m.contains_key(k2) ==> k <= k2
}

/// `k` is a largest element.
pub open spec fn largest(s: Set<u128>, k: u128) -> bool {
    s.contains(k) && forall|k2: u128| s.contains(k2) ==> k2 <= k
}

/// `after` is what is kept of the `n` largest measurements once another was pushed: where there are
/// too many then, the smallest goes.
pub open spec fn max_pushed<V>(
    before: Map<u128, V>,
    after: Map<u128, V>,
    n: nat,
    item: u128,
    data: V,
) -> bool {
    let pushed = before.insert(item, data);
    if pushed.dom().len() > n {
        exists|k: u128| #[trigger] smallest(pushed, k) && after == pushed.remove(k)
    } else {
        after == pushed
    }
}

/// `after` is what is kept of the `n` smallest measurements once another was pushed: where there are
/// too many then, the largest goes.
pub open spec fn min_pushed(before: Set<u128>, after: Set<u128>, n: nat, item: u128) -> bool {
    let pushed = before.insert(item);
    if pushed.len() > n {
        exists|k: u128| #[trigger] largest(pushed, k) && after == pushed.remove(k)
    } else {
        after == pushed
    }
}

/// The `N` largest measurements, each once, with something that is to be known of each.
pub struct Max<const N: usize, V> {
    inner: BTreeMap<u128, V>,
}

impl<const N: usize, V> View for Max<N, V> {
    type V = Map<u128, V>;

    closed spec fn view(&self) -> Map<u128, V> {
        self.inner@
    }
}

impl<const N: usize, V> Max<N, V> {
    pub open spec fn wf(&self) -> bool {
        &&& self@.dom().finite()
        &&& self@.dom().len() <= N
    }

    pub fn new() -> (m: Self)
        ensures
            m.wf(),
            m@ == Map::<u128, V>::empty(),
    {
        Max { inner: BTreeMap::new() }
    }

    /// Takes note of a measurement; where there are more than `N` then, the smallest goes.
    pub fn push(&mut self, item: Duration, data: V)
        requires
            old(self).wf(),
        ensures
            final(self).wf(),
            max_pushed(old(self)@, final(self)@, N as nat, item.nanos, data),
    {
        let _ = self.inner.insert(item.nanos, data);
        if self.inner.len() > N {
            let ghost pushed = self.inner@;
            let popped = pop_smallest(&mut self.inner);
            proof {
                match popped {
                    Some((k, _)) => assert(smallest(pushed, k)),
                    None => {},
                }
            }
        }
    }

    pub fn len(&self) -> (n: usize)
        ensures
            n == self@.dom().len(),
    {
        self.inner.len()
    }

    pub fn is_empty(&self) -> (b: bool)
        ensures
            b <==> self@ == Map::<u128, V>::empty(),
    {
        assert(self@.is_empty() <==> self@ =~= Map::<u128, V>::empty());
        self.inner.is_empty()
    }
}

/// The measurements that were pushed, each once.
pub open spec fn keys_pushed<V>(items: Seq<(u128, V)>) -> Set<u128> {
    items.map_values(|x: (u128, V)| x.0).to_set()
}

/// What was last pushed with a measurement.
pub open spec fn latest<V>(items: Seq<(u128, V)>, k: u128) -> Option<V>
    decreases items.len(),
{
    if items.len() == 0 {
        None
    } else if items.last().0 == k {
        Some(items.last().1)
    } else {
        latest(items.drop_last(), k)
    }
}

/// `m` holds the `n` largest of the measurements that were pushed, or all where there are fewer, each
/// with what was last pushed with it.
pub open spec fn holds_largest<V>(items: Seq<(u128, V)>, n: nat, m: Map<u128, V>) -> bool {
    let all = keys_pushed(items);
    &&& m.dom().subset_of(all)
    &&& m.dom().len() == (if all.len() < n {
        all.len()
    } else {
        n
    })
    &&& forall|k: u128, g: u128|
        #![trigger m.contains_key(k), all.contains(g)]
        m.contains_key(k) && all.contains(g) && !m.contains_key(g) ==> g < k
    &&& forall|k: u128| #[trigger] m.contains_key(k) ==> latest(items, k) == Some(m[k])
}

/// `states` is what was kept at first and after each push.
pub open spec fn max_run<V>(items: Seq<(u128, V)>, n: nat, states: Seq<Map<u128, V>>) -> bool {
    &&& states.len() == items.len() + 1
    &&& states[0] == Map::<u128, V>::empty()
    &&& forall|i: int|
        0 <= i < items.len() ==> max_pushed(
            #[trigger] states[i],
            states[i + 1],
            n,
            items[i].0,
            items[i].1,
        )
}

/// One push more.
proof fn lemma_max_step<V>(
    items: Seq<(u128, V)>,
    n: nat,
    before: Map<u128, V>,
    after: Map<u128, V>,
    item: u128,
    data: V,
)
    requires
        holds_largest(items, n, before),
        max_pushed(before, after, n, item, data),
    ensures
        holds_largest(items.push((item, data)), n, after),
{
    let more = items.push((item, data));
    let all = keys_pushed(items);
    let all2 = keys_pushed(more);
    let f = |x: (u128, V)| x.0;
    items.map_values(f).lemma_push_to_set_commute(item);
    assert(more.map_values(f) =~= items.map_values(f).push(item));
    assert(all2 == all.insert(item));
    vstd::seq_lib::seq_to_set_is_finite(items.map_values(f));
    vstd::set_lib::lemma_set_subset_finite(all, before.dom());
    let pushed = before.insert(item, data);
    assert(pushed.dom() =~= before.dom().insert(item));
    assert(more.drop_last() =~= items);
    assert forall|k: u128| #[trigger] pushed.contains_key(k) implies latest(more, k) == Some(
        pushed[k],
    ) by {
        if k != item {
            assert(before.contains_key(k));
        }
    }
    if before.dom().len() < n {
        // Nothing was ever let go.
        vstd::set_lib::lemma_subset_equality(before.dom(), all);
        assert(pushed.dom() =~= all2);
        assert(after == pushed);
    } else if before.contains_key(item) {
        assert(pushed.dom() =~= before.dom());
        assert(all2 =~= all);
        assert(after == pushed);
    } else {
        let k0 = choose|k: u128| #[trigger] smallest(pushed, k) && after == pushed.remove(k);
        assert(after.dom() =~= pushed.dom().remove(k0));
        assert(all2.len() >= n) by {
            vstd::set_lib::lemma_len_subset(before.dom(), all2);
        }
        assert forall|k: u128, g: u128|
            #![trigger after.contains_key(k), all2.contains(g)]
            after.contains_key(k) && all2.contains(g) && !after.contains_key(g) implies g < k by {
            assert(pushed.contains_key(k));
            if g != k0 {
                assert(all.contains(g) && !before.contains_key(g));
                if !before.contains_key(k) {
                    // `k` is the new one, and not the smallest: that was kept before.
                    assert(k == item && before.contains_key(k0));
                }
            }
        }
    }
}

/// Whatever is pushed, just the `n` largest of the measurements so far are kept, or all where there
/// are fewer, each once and with what was last pushed with it. So as many are kept as there are
/// different ones, up to `n`, and none only where nothing was pushed or none can be kept.
pub proof fn law_max_keeps_largest<V>(items: Seq<(u128, V)>, n: nat, states: Seq<Map<u128, V>>)
    requires
        max_run(items, n, states),
    ensures
        holds_largest(items, n, states.last()),
        states.last() == Map::<u128, V>::empty() <==> items.len() == 0 || n == 0,
    decreases items.len(),
{
    let f = |x: (u128, V)| x.0;
    if items.len() == 0 {
        assert(items.map_values(f) =~= Seq::<u128>::empty());
        assert(keys_pushed(items) =~= Set::<u128>::empty());
    } else {
        let fewer = items.drop_last();
        let earlier = states.drop_last();
        assert forall|i: int| 0 <= i < fewer.len() implies max_pushed(
            #[trigger] earlier[i],
            earlier[i + 1],
            n,
            fewer[i].0,
            fewer[i].1,
        ) by {
            assert(earlier[i] == states[i]);
        }
        law_max_keeps_largest(fewer, n, earlier);
        let last = items.len() - 1;
        assert(states[last] == earlier.last());
        lemma_max_step(fewer, n, states[last], states[last + 1], items[last].0, items[last].1);
        assert(fewer.push((items[last].0, items[last].1)) =~= items);
        assert(items.map_values(f)[last] == items[last].0);
        assert(keys_pushed(items).contains(items[last].0));
        vstd::seq_lib::seq_to_set_is_finite(items.map_values(f));
        assert(keys_pushed(items).len() > 0);
        vstd::set_lib::lemma_set_subset_finite(keys_pushed(items), states.last().dom());
        if n > 0 {
            assert(states.last().dom().len() > 0);
        } else {
            assert(states.last().dom() =~= Set::<u128>::empty());
            assert(states.last() =~= Map::<u128, V>::empty());
        }
    }
}

/// The `N` smallest measurements, each once.
pub struct Min<const N: usize> {
    inner: BTreeSet<u128>,
}

impl<const N: usize> View for Min<N> {
    type V = Set<u128>;

    closed spec fn view(&self) -> Set<u128> {
        self.inner@
    }
}

impl<const N: usize> Min<N> {
    pub open spec fn wf(&self) -> bool {
        &&& self@.finite()
        &&& self@.len() <= N
    }

    pub fn new() -> (m: Self)
        ensures
            m.wf(),
            m@ == Set::<u128>::empty(),
    {
        Min { inner: BTreeSet::new() }
    }

    /// Takes note of a measurement; where there are more than `N` then, the largest goes.
    pub fn push(&mut self, item: Duration)
        requires
            old(self).wf(),
        ensures
            final(self).wf(),
            min_pushed(old(self)@, final(self)@, N as nat, item.nanos),
    {
        let _ = self.inner.insert(item.nanos);
        if self.inner.len() > N {
            let ghost pushed = self.inner@;
            let popped = pop_largest(&mut self.inner);
            proof {
                match popped {
                    Some(k) => assert(largest(pushed, k)),
                    None => {},
                }
            }
        }
    }

    pub fn len(&self) -> (n: usize)
        ensures
            n == self@.len(),
    {
        self.inner.len()
    }

    pub fn is_empty(&self) -> (b: bool)
        ensures
            b <==> self@ == Set::<u128>::empty(),
    {
        assert(self@.is_empty() <==> self@ =~= Set::<u128>::empty());
        self.inner.is_empty()
    }
}

/// `s` holds the `n` smallest of the measurements that were pushed, or all where there are fewer.
pub open spec fn holds_smallest(items: Seq<u128>, n: nat, s: Set<u128>) -> bool {
    let all = items.to_set();
    &&& s.subset_of(all)
    &&& s.len() == (if all.len() < n {
        all.len()
    } else {
        n
    })
    &&& forall|k: u128, g: u128|
        #![trigger s.contains(k), all.contains(g)]
        s.contains(k) && all.contains(g) && !s.contains(g) ==> k < g
}

/// `states` is what was kept at first and after each push.
pub open spec fn min_run(items: Seq<u128>, n: nat, states: Seq<Set<u128>>) -> bool {
    &&& states.len() == items.len() + 1
    &&& states[0] == Set::<u128>::empty()
    &&& forall|i: int|
        0 <= i < items.len() ==> min_pushed(#[trigger] states[i], states[i + 1], n, items[i])
}

/// One push more.
proof fn lemma_min_step(
    items: Seq<u128>,
    n: nat,
    before: Set<u128>,
    after: Set<u128>,
    item: u128,
)
    requires
        holds_smallest(items, n, before),
        min_pushed(before, after, n, item),
    ensures
        holds_smallest(items.push(item), n, after),
{
    let all = items.to_set();
    let all2 = items.push(item).to_set();
    items.lemma_push_to_set_commute(item);
    assert(all2 == all.insert(item));
    vstd::seq_lib::seq_to_set_is_finite(items);
    vstd::set_lib::lemma_set_subset_finite(all, before);
    let pushed = before.insert(item);
    if before.len() < n {
        // Nothing was ever let go.
        vstd::set_lib::lemma_subset_equality(before, all);
        assert(pushed =~= all2);
    } else if before.contains(item) {
        assert(pushed =~= before);
        assert(all2 =~= all);
    } else {
        let k0 = choose|k: u128| #[trigger] largest(pushed, k) && after == pushed.remove(k);
        assert(all2.len() >= n) by {
            vstd::set_lib::lemma_len_subset(before, all2);
        }
        assert forall|k: u128, g: u128|
            #![trigger after.contains(k), all2.contains(g)]
            after.contains(k) && all2.contains(g) && !after.contains(g) implies k < g by {
            assert(pushed.contains(k));
            if g != k0 {
                assert(all.contains(g) && !before.contains(g));
                if !before.contains(k) {
                    // `k` is the new one, and not the largest: that was kept before.
                    assert(k == item && before.contains(k0));
                }
            }
        }
    }
}

/// Whatever is pushed, just the `n` smallest of the measurements so far are kept, or all where there
/// are fewer, each once. So as many are kept as there are different ones, up to `n`, and none only
/// where nothing was pushed or none can be kept.
pub proof fn law_min_keeps_smallest(items: Seq<u128>, n: nat, states: Seq<Set<u128>>)
    requires
        min_run(items, n, states),
    ensures
        holds_smallest(items, n, states.last()),
        states.last() == Set::<u128>::empty() <==> items.len() == 0 || n == 0,
    decreases items.len(),
{
    if items.len() == 0 {
        assert(items.to_set() =~= Set::<u128>::empty());
    } else {
        let fewer = items.drop_last();
        let earlier = states.drop_last();
        assert forall|i: int| 0 <= i < fewer.len() implies min_pushed(
            #[trigger] earlier[i],
            earlier[i + 1],
            n,
            fewer[i],
        ) by {
            assert(earlier[i] == states[i]);
        }
        law_min_keeps_smallest(fewer, n, earlier);
        let last = items.len() - 1;
        assert(states[last] == earlier.last());
        lemma_min_step(fewer, n, states[last], states[last + 1], items[last]);
        assert(fewer.push(items[last]) =~= items);
        assert(items.to_set().contains(items[last]));
        vstd::seq_lib::seq_to_set_is_finite(items);
        vstd::set_lib::lemma_set_subset_finite(items.to_set(), states.last());
        assert(items.to_set().len() > 0);
        if n > 0 {
            assert(states.last().len() > 0);
        } else {
            assert(states.last() =~= Set::<u128>::empty());
        }
    }
}

/// Which measurements are kept does not depend on the order in which they were pushed, nor on how
/// often.
pub proof fn law_min_ignores_order(
    items: Seq<u128>,
    states: Seq<Set<u128>>,
    reordered: Seq<u128>,
    other_states: Seq<Set<u128>>,
    n: nat,
)
    requires
        min_run(items, n, states),
        min_run(reordered, n, other_states),
        items.to_set() == reordered.to_set(),
    ensures
        states.last() == other_states.last(),
{
    law_min_keeps_smallest(items, n, states);
    law_min_keeps_smallest(reordered, n, other_states);
    let all = items.to_set();
    let s = states.last();
    let t = other_states.last();
    vstd::seq_lib::seq_to_set_is_finite(items);
    vstd::set_lib::lemma_set_subset_finite(all, s);
    vstd::set_lib::lemma_set_subset_finite(all, t);
    if !s.subset_of(t) && !t.subset_of(s) {
        let k = choose|k: u128| s.contains(k) && !t.contains(k);
        let g = choose|g: u128| t.contains(g) && !s.contains(g);
        assert(all.contains(k) && all.contains(g));
        assert(k < g && g < k);
    }
    if s.subset_of(t) {
        vstd::set_lib::lemma_subset_equality(s, t);
    } else {
        vstd::set_lib::lemma_subset_equality(t, s);
    }
}

/// `after` is what is kept of the last `n` measurements once another was pushed, in place of the oldest
/// where there are `n` already.
pub open spec fn rolled<T>(before: Seq<T>, after: Seq<T>, n: nat, item: T) -> bool {
    after == (if before.len() >= n && before.len() > 0 {
        before.drop_first()
    } else {
        before
    }).push(item)
}

/// The last `N` measurements.
pub struct RollingAvg<const N: usize, T> {
    inner: VecDeque<T>,
}

impl<const N: usize, T> View for RollingAvg<N, T> {
    type V = Seq<T>;

    closed spec fn view(&self) -> Seq<T> {
        self.inner@
    }
}

impl<const N: usize, T> RollingAvg<N, T> {
    pub fn new() -> (r: Self)
        ensures
            r@ == Seq::<T>::empty(),
    {
        RollingAvg { inner: VecDeque::new() }
    }

    pub fn preallocated() -> (r: Self)
        ensures
            r@ == Seq::<T>::empty(),
    {
        RollingAvg { inner: VecDeque::with_capacity(N) }
    }

    /// Takes note of a measurement, in place of the oldest where there are `N` already.
    pub fn push(&mut self, item: T)
        ensures
            rolled(old(self)@, final(self)@, N as nat, item),
    {
        if self.inner.len() >= N {
            let _ = self.inner.pop_front();
        }
        self.inner.push_back(item);
        assert(old(self)@.len() > 0 ==> old(self)@.drop_first() =~= old(self)@.subrange(
            1,
            old(self)@.len() as int,
        ));
    }

    pub fn len(&self) -> (n: usize)
        ensures
            n == self@.len(),
    {
        self.inner.len()
    }

    pub fn is_empty(&self) -> (b: bool)
        ensures
            b <==> self@.len() == 0,
    {
        self.inner.len() == 0
    }
}

/// `states` is what was kept at first and after each push.
pub open spec fn roll_run<T>(items: Seq<T>, n: nat, states: Seq<Seq<T>>) -> bool {
    &&& states.len() == items.len() + 1
    &&& states[0] == Seq::<T>::empty()
    &&& forall|i: int|
        0 <= i < items.len() ==> rolled(#[trigger] states[i], states[i + 1], n, items[i])
}

/// The last of the measurements that were pushed: as many as are kept, or all where there are fewer.
/// The last one is kept in any case.
pub open spec fn last_pushed<T>(items: Seq<T>, n: nat) -> Seq<T> {
    let kept = if n == 0 {
        1
    } else {
        n
    };
    if items.len() <= kept {
        items
    } else {
        items.skip(items.len() - kept)
    }
}

/// After any pushes the last measurements are kept, in the order in which they were pushed.
pub proof fn law_rolling_keeps_last<T>(items: Seq<T>, n: nat, states: Seq<Seq<T>>)
    requires
        roll_run(items, n, states),
    ensures
        states.last() == last_pushed(items, n),
        states.last().len() == 0 <==> items.len() == 0,
        items.len() <= n ==> states.last() == items,
        0 < n <= items.len() ==> states.last() == items.subrange(
            items.len() - n,
            items.len() as int,
        ),
    decreases items.len(),
{
    if items.len() == 0 {
        assert(states.last() =~= last_pushed(items, n));
    } else {
        let fewer = items.drop_last();
        let earlier = states.drop_last();
        assert forall|i: int| 0 <= i < fewer.len() implies rolled(
            #[trigger] earlier[i],
            earlier[i + 1],
            n,
            fewer[i],
        ) by {
            assert(earlier[i] == states[i]);
        }
        law_rolling_keeps_last(fewer, n, earlier);
        let last = items.len() - 1;
        assert(states[last] == earlier.last());
        assert(rolled(states[last], states[last + 1], n, items[last]));
        assert(states.last() =~= last_pushed(items, n));
    }
}

/// Measurements that can be added up and divided by their number.
pub trait Measure: Sized {
    /// The sum can be told.
    spec fn summable(items: Seq<Self>) -> bool;

    spec fn sum_of(items: Seq<Self>) -> Self;

    /// The quotient can be told.
    spec fn dividable(self, n: usize) -> bool;

    spec fn divided(self, n: usize) -> Self;

    fn sum(items: &VecDeque<Self>) -> (s: Self)
        requires
            Self::summable(items@),
        ensures
            s == Self::sum_of(items@),
    ;

    fn divide(self, n: usize) -> (q: Self)
        requires
            self.dividable(n),
        ensures
            q == self.divided(n),
    ;
}

/// The sum of some spans of time.
pub open spec fn total(s: Seq<Duration>) -> nat
    decreases s.len(),
{
    if s.len() == 0 {
        0
    } else {
        total(s.drop_last()) + s.last().nanos as nat
    }
}

proof fn lemma_total_grows(s: Seq<Duration>, i: int)
    requires
        0 <= i <= s.len(),
    ensures
        total(s.take(i)) <= total(s),
    decreases s.len() - i,
{
    if i < s.len() {
        assert(s.take(i + 1).drop_last() =~= s.take(i));
        lemma_total_grows(s, i + 1);
    } else {
        assert(s.take(i) =~= s);
    }
}

/// Spans of time are divided with the remainder let go of.
impl Measure for Duration {
    open spec fn summable(items: Seq<Self>) -> bool {
        total(items) <= longest()
    }

    open spec fn sum_of(items: Seq<Self>) -> Self {
        Duration { nanos: total(items) as u128 }
    }

    open spec fn dividable(self, n: usize) -> bool {
        0 < n <= u32::MAX
    }

    open spec fn divided(self, n: usize) -> Self {
        Duration { nanos: (self.nanos as nat / n as nat) as u128 }
    }

    fn sum(items: &VecDeque<Self>) -> (s: Self) {
        let len: usize = items.len();
        let mut sum: u128 = 0;
        let mut i: usize = 0;
        assert(items@.take(0) =~= Seq::<Duration>::empty());
        while i < len
            invariant
                len == items@.len(),
                i <= len,
                sum == total(items@.take(i as int)),
                total(items@) <= longest(),
            decreases len - i,
        {
            proof {
                lemma_total_grows(items@, i + 1);
                assert(items@.take(i + 1).drop_last() =~= items@.take(i as int));
            }
            sum = sum + items[i].nanos;
            i = i + 1;
        }
        assert(items@.take(len as int) =~= items@);
        Duration { nanos: sum }
    }

    fn divide(self, n: usize) -> (q: Self) {
        Duration { nanos: self.nanos / (n as u128) }
    }
}

/// The sum of some numbers.
pub open spec fn total_count(s: Seq<usize>) -> nat
    decreases s.len(),
{
    if s.len() == 0 {
        0
    } else {
        total_count(s.drop_last()) + s.last() as nat
    }
}

proof fn lemma_total_count_grows(s: Seq<usize>, i: int)
    requires
        0 <= i <= s.len(),
    ensures
        total_count(s.take(i)) <= total_count(s),
    decreases s.len() - i,
{
    if i < s.len() {
        assert(s.take(i + 1).drop_last() =~= s.take(i));
        lemma_total_count_grows(s, i + 1);
    } else {
        assert(s.take(i) =~= s);
    }
}

impl Measure for usize {
    open spec fn summable(items: Seq<Self>) -> bool {
        total_count(items) <= usize::MAX
    }

    open spec fn sum_of(items: Seq<Self>) -> Self {
        total_count(items) as usize
    }

    open spec fn dividable(self, n: usize) -> bool {
        n > 0
    }

    open spec fn divided(self, n: usize) -> Self {
        self / n
    }

    fn sum(items: &VecDeque<Self>) -> (s: Self) {
        let len: usize = items.len();
        let mut sum: usize = 0;
        let mut i: usize = 0;
        assert(items@.take(0) =~= Seq::<usize>::empty());
        while i < len
            invariant
                len == items@.len(),
                i <= len,
                sum == total_count(items@.take(i as int)),
                total_count(items@) <= usize::MAX,
            decreases len - i,
        {
            proof {
                lemma_total_count_grows(items@, i + 1);
                assert(items@.take(i + 1).drop_last() =~= items@.take(i as int));
            }
            sum = sum + items[i];
            i = i + 1;
        }
        assert(items@.take(len as int) =~= items@);
        sum
    }

    fn divide(self, n: usize) -> (q: Self) {
        self / n
    }
}

/// A span of time more makes a sum longer by it, and a number more makes it larger by it; the sum of none
/// is zero.
pub proof fn law_sums(spans: Seq<Duration>, span: Duration, counts: Seq<usize>, count: usize)
    ensures
        total(Seq::<Duration>::empty()) == 0,
        total(spans.push(span)) == total(spans) + span.nanos,
        total_count(Seq::<usize>::empty()) == 0,
        total_count(counts.push(count)) == total_count(counts) + count,
{
    assert(spans.push(span).drop_last() =~= spans);
    assert(counts.push(count).drop_last() =~= counts);
}

/// A mean is the largest that does not exceed the sum when it is taken as often as there are measurements.
pub proof fn law_quotients(span: Duration, count: usize, n: usize)
    requires
        n > 0,
    ensures
        span.divided(n).nanos * n <= span.nanos < (span.divided(n).nanos + 1) * n,
        count.divided(n) * n <= count < (count.divided(n) + 1) * n,
        n <= u32::MAX ==> span.dividable(n),
        count.dividable(n),
        !span.dividable(0),
        !count.dividable(0),
{
    let a = span.nanos as int;
    let b = count as int;
    let m = n as int;
    vstd::arithmetic::div_mod::lemma_fundamental_div_mod(a, m);
    vstd::arithmetic::div_mod::lemma_fundamental_div_mod(b, m);
    vstd::arithmetic::mul::lemma_mul_is_commutative(m, a / m);
    vstd::arithmetic::mul::lemma_mul_is_commutative(m, b / m);
    vstd::arithmetic::mul::lemma_mul_is_distributive_add_other_way(m, a / m, 1);
    vstd::arithmetic::mul::lemma_mul_is_distributive_add_other_way(m, b / m, 1);
    vstd::arithmetic::div_mod::lemma_div_nonincreasing(a, m);
}

/// The sum that is divided is that of the measurements, where it can be told.
pub proof fn law_sum_of(spans: Seq<Duration>, counts: Seq<usize>)
    ensures
        Duration::summable(spans) <==> total(spans) < 18446744073709551616 * 1000000000,
        Duration::summable(spans) ==> Duration::sum_of(spans).nanos == total(spans),
        usize::summable(counts) <==> total_count(counts) <= usize::MAX,
        usize::summable(counts) ==> usize::sum_of(counts) == total_count(counts),
{
}

/// The mean of measurements lies between any bounds that all of them keep.
pub proof fn law_mean_lies_between(spans: Seq<Duration>, low: u128, high: u128)
    requires
        0 < spans.len() <= u32::MAX,
        Duration::summable(spans),
        forall|i: int|
            0 <= i < spans.len() ==> low <= (#[trigger] spans[i]).nanos && spans[i].nanos <= high,
    ensures
        low <= Duration::sum_of(spans).divided(spans.len() as usize).nanos <= high,
{
    lemma_total_between(spans, low, high);
    let n = spans.len() as int;
    let t = total(spans) as int;
    vstd::arithmetic::div_mod::lemma_div_is_ordered(low * n, t, n);
    vstd::arithmetic::div_mod::lemma_div_is_ordered(t, high * n, n);
    vstd::arithmetic::div_mod::lemma_div_multiples_vanish(low as int, n);
    vstd::arithmetic::div_mod::lemma_div_multiples_vanish(high as int, n);
    vstd::arithmetic::mul::lemma_mul_is_commutative(low as int, n);
    vstd::arithmetic::mul::lemma_mul_is_commutative(high as int, n);
}

proof fn lemma_total_between(spans: Seq<Duration>, low: u128, high: u128)
    requires
        forall|i: int|
            0 <= i < spans.len() ==> low <= (#[trigger] spans[i]).nanos && spans[i].nanos <= high,
    ensures
        low * spans.len() <= total(spans) <= high * spans.len(),
    decreases spans.len(),
{
    if spans.len() > 0 {
        let fewer = spans.drop_last();
        assert forall|i: int| 0 <= i < fewer.len() implies low <= (#[trigger] fewer[i]).nanos
            && fewer[i].nanos <= high by {
            assert(fewer[i] == spans[i]);
        }
        lemma_total_between(fewer, low, high);
        let n = fewer.len() as int;
        assert(spans[spans.len() - 1] == spans.last());
        vstd::arithmetic::mul::lemma_mul_is_distributive_add(low as int, n, 1);
        vstd::arithmetic::mul::lemma_mul_is_distributive_add(high as int, n, 1);
    }
}

impl<const N: usize, T: Measure> RollingAvg<N, T> {
    /// The mean of the last measurements; `None` where there are none.
    pub fn mean(&self) -> (r: Option<T>)
        requires
            self@.len() > 0 ==> T::summable(self@) && T::sum_of(self@).dividable(
                self@.len() as usize,
            ),
        ensures
            r == (if self@.len() == 0 {
                None::<T>
            } else {
                Some(T::sum_of(self@).divided(self@.len() as usize))
            }),
    {
        let len: usize = self.inner.len();
        if len == 0 {
            return None;
        }
        Some(T::sum(&self.inner).divide(len))
    }
}

} // verus!
