//! Which transfers, tokens and interfaces are taken, told by what is there before and after.
use crate::operator::device;
use crate::operator::device::InterfaceStatus;
use crate::operator::transfers;
use crate::operator::transfers::OneOrMany;
use vstd::prelude::*;

verus! {

/// A transfer that is taken has room for the packets, and none that is kept has less room and enough; the
/// last of its stack is taken, and all others stay as they were.
pub proof fn law_smallest_fitting_transfer<T>(
    before: Map<u16, OneOrMany<T>>,
    after: Map<u16, OneOrMany<T>>,
    n: u16,
    k: u16,
    t: T,
    other: u16,
)
    requires
        transfers::least_from(before, n, k),
        transfers::top_taken(before, after, k, t),
        before[k].items().len() > 0,
        other != k,
    ensures
        n <= k,
        before.contains_key(k),
        before.contains_key(other) && n <= other ==> k < other,
        t == before[k].items()[before[k].items().len() - 1],
        before[k].items().len() == 1 ==> !after.contains_key(k),
        before[k].items().len() > 1 ==> after.contains_key(k) && after[k].items().push(t)
            == before[k].items(),
        after.contains_key(other) <==> before.contains_key(other),
        before.contains_key(other) ==> after[other] == before[other],
{
    if before[k].items().len() > 1 {
        assert(after.dom().contains(k) == before.dom().contains(k));
        assert(after.dom().contains(other) == before.dom().contains(other));
        assert(after[k].items().push(t) =~= before[k].items());
    }
}

/// A stack is what was put on it, one or many.
pub proof fn law_stack<T>(t: T, v: Vec<T>)
    ensures
        OneOrMany::One(t).items() == seq![t],
        OneOrMany::Many(v).items() == v@,
{
}

/// Every token of a transfer that is under way is listed, each once, and no other.
pub proof fn law_all_tokens<T>(m: Map<u32, T>, keys: Seq<u32>, v: Seq<T>, k: u32, t: T)
    requires
        transfers::lists_all(m, keys, v),
    ensures
        v.len() == m.dom().len(),
        m.contains_key(k) ==> v.contains(m[k]),
        v.contains(t) ==> exists|j: u32| #[trigger] m.contains_key(j) && m[j] == t,
{
    keys.unique_seq_to_set();
    if m.contains_key(k) {
        assert(keys.to_set().contains(k));
        let i = choose|i: int| 0 <= i < keys.len() && keys[i] == k;
        assert(v[i] == m[k]);
    }
    if v.contains(t) {
        let i = choose|i: int| 0 <= i < v.len() && v[i] == t;
        assert(keys.to_set().contains(keys[i]));
        assert(m.contains_key(keys[i]));
        assert(v[i] == m[keys[i]]);
    }
}

/// The interface that is changed next is the one with the lowest number of those with the status; there is
/// one such interface, or none has the status.
pub proof fn law_lowest_interface(
    s: Seq<InterfaceStatus>,
    status: InterfaceStatus,
    at: int,
    other: int,
)
    requires
        device::first_with(s, status, at),
        0 <= other < s.len(),
    ensures
        s[at] == status,
        s[other] == status ==> at <= other,
        device::first_with(s, status, other) <==> other == at,
{
}

/// A change of every interface with a status changes those and leaves the others.
pub proof fn law_all_changed(
    s: Seq<InterfaceStatus>,
    from: InterfaceStatus,
    to: InterfaceStatus,
    i: int,
)
    requires
        0 <= i < s.len(),
    ensures
        device::all_changed(s, from, to).len() == s.len(),
        s[i] == from ==> device::all_changed(s, from, to)[i] == to,
        s[i] != from ==> device::all_changed(s, from, to)[i] == s[i],
{
}

} // verus!
