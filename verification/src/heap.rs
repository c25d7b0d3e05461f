//! The double-ended priority heap that orders the buffer's residents.
//!
//! The heap itself is `min_max_heap::MinMaxHeap`. It holds one key per
//! resident: the pair `(priority, sender stake)`. Nothing in this module is
//! proved: each function states what the heap's source shows of one method,
//! over the multiset of keys that the heap holds.
use min_max_heap::MinMaxHeap;
use vstd::multiset::Multiset;
use vstd::prelude::*;

verus! {

/// A resident's place in the order: its priority, then its sender's stake.
pub type Key = (u64, u64);

#[verifier::external_type_specification]
#[verifier::external_body]
#[verifier::reject_recursive_types(T)]
pub struct ExMinMaxHeap<T>(MinMaxHeap<T>);

/// The keys that a heap holds, each as often as it was pushed and not yet
/// popped.
pub uninterp spec fn heap_keys(heap: MinMaxHeap<Key>) -> Multiset<Key>;

/// The number of keys that the heap was made to hold. The heap has that
/// much room from the start and does not give it up.
pub uninterp spec fn heap_room(heap: MinMaxHeap<Key>) -> nat;

/// The order of keys: by priority, and among equal priorities by stake. This
/// is the order that the standard library gives to pairs of integers.
pub open spec fn key_le(a: Key, b: Key) -> bool {
    a.0 < b.0 || (a.0 == b.0 && a.1 <= b.1)
}

/// `a` comes strictly before `b` in the order of keys.
pub open spec fn key_lt(a: Key, b: Key) -> bool {
    a.0 < b.0 || (a.0 == b.0 && a.1 < b.1)
}

/// `k` is among `keys` and no key of `keys` comes before it.
pub open spec fn is_least(keys: Multiset<Key>, k: Key) -> bool {
    keys.contains(k) && forall|other: Key| #[trigger] keys.contains(other) ==> key_le(k, other)
}

/// `k` is among `keys` and no key of `keys` comes after it.
pub open spec fn is_greatest(keys: Multiset<Key>, k: Key) -> bool {
    keys.contains(k) && forall|other: Key| #[trigger] keys.contains(other) ==> key_le(other, k)
}

/// Whether a heap can be made to hold `n` keys: the backing vector of a heap
/// of 16-byte keys cannot be longer than this.
pub open spec fn fits_in_heap(n: nat) -> bool {
    n * 16 <= isize::MAX
}

/// `MinMaxHeap::with_capacity`: a heap that holds nothing and has room for
/// `capacity` keys. The backing vector refuses to reserve more than
/// `isize::MAX` bytes.
#[verifier::external_body]
pub(crate) fn heap_with_capacity(capacity: usize) -> (heap: MinMaxHeap<Key>)
    requires
        fits_in_heap(capacity as nat),
    ensures
        heap_keys(heap) == Multiset::<Key>::empty(),
        heap_room(heap) == capacity,
{
    MinMaxHeap::with_capacity(capacity)
}

/// `MinMaxHeap::len`: how many keys the heap holds.
#[verifier::external_body]
pub(crate) fn heap_len(heap: &MinMaxHeap<Key>) -> (n: usize)
    ensures
        n == heap_keys(*heap).len(),
{
    heap.len()
}

/// `MinMaxHeap::is_empty`: whether the heap holds no key.
#[verifier::external_body]
pub(crate) fn heap_is_empty(heap: &MinMaxHeap<Key>) -> (empty: bool)
    ensures
        empty == (heap_keys(*heap).len() == 0),
{
    heap.is_empty()
}

/// `MinMaxHeap::clear`: the heap holds nothing afterwards, and keeps its
/// room.
#[verifier::external_body]
pub(crate) fn heap_clear(heap: &mut MinMaxHeap<Key>)
    ensures
        heap_keys(*final(heap)) == Multiset::<Key>::empty(),
        heap_room(*final(heap)) == heap_room(*old(heap)),
{
    heap.clear()
}

/// `MinMaxHeap::push`: the heap holds one more copy of `key`. The heap must
/// have room left, so that the backing vector need not grow.
#[verifier::external_body]
pub(crate) fn heap_push(heap: &mut MinMaxHeap<Key>, key: Key)
    requires
        heap_keys(*old(heap)).len() < heap_room(*old(heap)),
    ensures
        heap_keys(*final(heap)) == heap_keys(*old(heap)).insert(key),
        heap_room(*final(heap)) == heap_room(*old(heap)),
{
    heap.push(key)
}

/// `MinMaxHeap::push_pop_min`: the heap takes `key` and gives up a least key
/// of what it then holds, which may be `key` itself. The method does not
/// allocate.
#[verifier::external_body]
pub(crate) fn heap_push_pop_min(heap: &mut MinMaxHeap<Key>, key: Key) -> (least: Key)
    ensures
        is_least(heap_keys(*old(heap)).insert(key), least),
        heap_keys(*final(heap)) == heap_keys(*old(heap)).insert(key).remove(least),
        heap_room(*final(heap)) == heap_room(*old(heap)),
{
    heap.push_pop_min(key)
}

/// `MinMaxHeap::pop_max`: an empty heap gives nothing and stays empty; any
/// other gives up a greatest key.
#[verifier::external_body]
pub(crate) fn heap_pop_max(heap: &mut MinMaxHeap<Key>) -> (greatest: Option<Key>)
    ensures
        match greatest {
            None => heap_keys(*old(heap)).len() == 0 && heap_keys(*final(heap)) == heap_keys(
                *old(heap),
            ),
            Some(k) => is_greatest(heap_keys(*old(heap)), k) && heap_keys(*final(heap))
                == heap_keys(*old(heap)).remove(k),
        },
        heap_room(*final(heap)) == heap_room(*old(heap)),
{
    heap.pop_max()
}

} // verus!
