//! A bounded heap of times, each with the number of what is due at that time: the heap of the
//! `heapless` crate, with the contracts that the scheduler reasons with. Everything here is
//! believed, not proved.
use heapless::binary_heap::Min as EarliestFirst;
use heapless::BinaryHeap;
use vstd::multiset::Multiset;
use vstd::prelude::*;

verus! {

/// `heapless::binary_heap::Min`: the least item is at the top.
#[verifier::external_type_specification]
#[verifier::external_body]
pub struct ExMin(EarliestFirst);

/// `heapless::BinaryHeap`: a heap of at most `N` items.
#[verifier::external_type_specification]
#[verifier::external_body]
#[verifier::reject_recursive_types(T)]
#[verifier::reject_recursive_types(K)]
pub struct ExBinaryHeap<T, K, const N: usize>(BinaryHeap<T, K, N>);

/// Times, each with a number, the earliest at the top.
pub type TimeHeap = BinaryHeap<(u64, u8), EarliestFirst, 5>;

/// The items of a heap.
pub uninterp spec fn heap_items(h: BinaryHeap<(u64, u8), EarliestFirst, 5>) -> Multiset<(u64, u8)>;

/// The order of the items: by time, then by number.
pub open spec fn at_most(a: (u64, u8), b: (u64, u8)) -> bool {
    a.0 < b.0 || (a.0 == b.0 && a.1 <= b.1)
}

/// `BinaryHeap::new`: a heap without items.
#[verifier::external_body]
pub(crate) fn heap_new() -> (h: TimeHeap)
    ensures
        heap_items(h) == Multiset::<(u64, u8)>::empty(),
{
    BinaryHeap::new()
}

/// `BinaryHeap::push`: adds an item, or hands it back where the heap is full.
#[verifier::external_body]
pub(crate) fn heap_push(h: &mut TimeHeap, item: (u64, u8)) -> (r: Result<(), (u64, u8)>)
    ensures
        r is Ok <==> 5 > heap_items(*old(h)).len(),
        r is Ok ==> heap_items(*final(h)) == heap_items(*old(h)).insert(item),
        r matches Err(x) ==> x == item && heap_items(*final(h)) == heap_items(*old(h)),
{
    h.push(item)
}

/// `BinaryHeap::pop`: takes out the least item.
#[verifier::external_body]
pub(crate) fn heap_pop(h: &mut TimeHeap) -> (r: Option<(u64, u8)>)
    ensures
        r is None <==> heap_items(*old(h)).len() == 0,
        r is None ==> heap_items(*final(h)) == heap_items(*old(h)),
        r matches Some(x) ==> heap_items(*old(h)).count(x) > 0 && heap_items(*final(h))
            == heap_items(*old(h)).remove(x) && forall|y: (u64, u8)|
            heap_items(*old(h)).count(y) > 0 ==> #[trigger] at_most(x, y),
{
    h.pop()
}

/// `BinaryHeap::peek`: the least item.
#[verifier::external_body]
pub(crate) fn heap_peek(h: &TimeHeap) -> (r: Option<(u64, u8)>)
    ensures
        r is None <==> heap_items(*h).len() == 0,
        r matches Some(x) ==> heap_items(*h).count(x) > 0 && forall|y: (u64, u8)|
            heap_items(*h).count(y) > 0 ==> #[trigger] at_most(x, y),
{
    h.peek().copied()
}

/// `BinaryHeap::clear`: drops all items.
#[verifier::external_body]
pub(crate) fn heap_clear(h: &mut TimeHeap)
    ensures
        heap_items(*final(h)) == Multiset::<(u64, u8)>::empty(),
{
    h.clear()
}

/// `BinaryHeap::iter`: all items, in an unspecified order.
#[verifier::external_body]
pub(crate) fn heap_list(h: &TimeHeap) -> (v: Vec<(u64, u8)>)
    ensures
        v@.to_multiset() == heap_items(*h),
{
    h.iter().copied().collect()
}

} // verus!
