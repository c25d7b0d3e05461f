//! The bounded priority buffer: the pending transactions of one worker.
use crate::laws::{
    lemma_after_pushes_len, lemma_index_finds, lemma_kept_len, lemma_pops_descend, lemma_pops_len,
};
use crate::heap::{
    fits_in_heap, heap_clear, heap_is_empty, heap_keys, heap_len, heap_pop_max, heap_push,
    heap_push_pop_min, heap_room, heap_with_capacity, is_greatest, is_least, key_le, Key,
};
use crate::model::{
    after_pops, after_pushes, count_kept, digests_of, distinct_digests, first_at, holds_digest,
    index_of, is_first_at,
    keys_of, lemma_distinct_after_push, lemma_distinct_after_remove, lemma_first_at,
    lemma_greatest_key, lemma_keys_of_contains, lemma_keys_of_none, lemma_keys_of_push,
    lemma_keys_of_remove, lemma_least_key, kept, popped, pops, pushed, pushes_dropped,
};
use crate::record::{DeserializedPacket, MessageHash};
use min_max_heap::MinMaxHeap;
use vstd::multiset::Multiset;
use vstd::prelude::*;

verus! {

/// The pending transactions of one worker: at most `capacity` envelopes, no
/// two with the same message hash, from which the best can be taken and into
/// which a better one displaces the worst.
///
/// The envelopes are kept in the order in which they came and are found by
/// a search of that list, by hash or by key. The priority queue holds their
/// keys and says which key is the best and which the worst.
pub struct UnprocessedPacketBatches {
    packet_priority_queue: MinMaxHeap<Key>,
    message_hash_to_transaction: Vec<DeserializedPacket>,
    batch_limit: usize,
}

impl UnprocessedPacketBatches {
    /// The residents, in the order in which they came.
    pub closed spec fn view(&self) -> Seq<DeserializedPacket> {
        self.message_hash_to_transaction@
    }

    /// The keys that the priority queue holds.
    pub closed spec fn queue(&self) -> Multiset<Key> {
        heap_keys(self.packet_priority_queue)
    }

    /// The residents by the digests of their messages.
    pub open spec fn index(&self) -> Map<Seq<u8>, DeserializedPacket> {
        index_of(self@)
    }

    /// The number of keys that the priority queue has room for.
    pub closed spec fn queue_room(&self) -> nat {
        heap_room(self.packet_priority_queue)
    }

    /// The number of residents that the buffer has room for.
    pub closed spec fn spec_capacity(&self) -> usize {
        self.batch_limit
    }

    /// The buffer is in order: the queue holds the keys of the residents, no
    /// two residents share a digest, and they are no more than there is room
    /// for.
    pub open spec fn wf(&self) -> bool {
        &&& self.queue() == keys_of(self@)
        &&& distinct_digests(self@)
        &&& self@.len() <= self.spec_capacity()
        &&& 1 <= self.spec_capacity()
        &&& self.queue_room() == self.spec_capacity()
    }

    /// An empty buffer with room for `capacity` residents.
    pub fn with_capacity(capacity: usize) -> (buffer: Self)
        requires
            1 <= capacity,
            fits_in_heap(capacity as nat),
        ensures
            buffer.wf(),
            buffer@ == Seq::<DeserializedPacket>::empty(),
            buffer.spec_capacity() == capacity,
    {
        let buffer = UnprocessedPacketBatches {
            packet_priority_queue: heap_with_capacity(capacity),
            message_hash_to_transaction: Vec::with_capacity(capacity),
            batch_limit: capacity,
        };
        proof {
            lemma_keys_of_none(buffer@);
        }
        buffer
    }

    /// Drops every resident. The room stays.
    pub fn clear(&mut self)
        requires
            old(self).wf(),
        ensures
            final(self).wf(),
            final(self)@ == Seq::<DeserializedPacket>::empty(),
            final(self).spec_capacity() == old(self).spec_capacity(),
    {
        heap_clear(&mut self.packet_priority_queue);
        self.message_hash_to_transaction.clear();
        proof {
            lemma_keys_of_none(self@);
        }
    }

    /// The number of residents.
    pub fn len(&self) -> (n: usize)
        requires
            self.wf(),
        ensures
            n == self@.len(),
            n == self.queue().len(),
            n <= self.spec_capacity(),
    {
        proof {
            lemma_keys_of_contains(self@, (0u64, 0u64));
        }
        heap_len(&self.packet_priority_queue)
    }

    /// Whether the buffer has no resident.
    pub fn is_empty(&self) -> (empty: bool)
        requires
            self.wf(),
        ensures
            empty == (self@.len() == 0),
    {
        proof {
            lemma_keys_of_contains(self@, (0u64, 0u64));
        }
        heap_is_empty(&self.packet_priority_queue)
    }

    /// The number of residents that the buffer has room for.
    pub fn capacity(&self) -> (capacity: usize)
        ensures
            capacity == self.spec_capacity(),
    {
        self.batch_limit
    }

    /// The place of the resident with the given hash, if there is one.
    fn position_of_hash(&self, hash: &MessageHash) -> (place: Option<usize>)
        ensures
            match place {
                Some(i) => i < self@.len() && self@[i as int].digest() == hash.digest(),
                None => !holds_digest(self@, hash.digest()),
            },
    {
        let mut i: usize = 0;
        while i < self.message_hash_to_transaction.len()
            invariant
                i <= self@.len(),
                forall|j: int| 0 <= j < i ==> (#[trigger] self@[j]).digest() != hash.digest(),
            decreases self@.len() - i,
        {
            if self.message_hash_to_transaction[i].immutable_section().message_hash().same_as(
                hash,
            ) {
                return Some(i);
            }
            i += 1;
        }
        None
    }

    /// The place of the first resident with the given key. One must have it.
    fn position_of_key(&self, key: Key) -> (place: usize)
        requires
            keys_of(self@).contains(key),
        ensures
            is_first_at(self@, key, place as int),
            place as int == first_at(self@, key),
    {
        proof {
            lemma_keys_of_contains(self@, key);
        }
        let mut i: usize = 0;
        while i < self.message_hash_to_transaction.len()
            invariant
                i <= self@.len(),
                forall|j: int| 0 <= j < i ==> (#[trigger] self@[j]).key() != key,
                exists|j: int| 0 <= j < self@.len() && (#[trigger] self@[j]).key() == key,
            decreases self@.len() - i,
        {
            let section = self.message_hash_to_transaction[i].immutable_section();
            if section.priority() == key.0 && section.sender_stake() == key.1 {
                proof {
                    lemma_first_at(self@, key, i as int);
                }
                return i;
            }
            i += 1;
        }
        proof {
            let j = choose|j: int| 0 <= j < self@.len() && (#[trigger] self@[j]).key() == key;
            assert(self@[j].key() != key);
        }
        0
    }

    /// Takes the envelope in while there is room for it.
    fn push_internal(&mut self, deserialized_packet: DeserializedPacket)
        requires
            old(self).wf(),
            old(self)@.len() < old(self).spec_capacity(),
            !holds_digest(old(self)@, deserialized_packet.digest()),
        ensures
            final(self).wf(),
            final(self)@ == old(self)@.push(deserialized_packet),
            final(self).spec_capacity() == old(self).spec_capacity(),
    {
        proof {
            lemma_keys_of_contains(self@, (0u64, 0u64));
            lemma_keys_of_push(self@, deserialized_packet);
            lemma_distinct_after_push(self@, deserialized_packet);
        }
        let section = deserialized_packet.immutable_section();
        let key: Key = (section.priority(), section.sender_stake());
        heap_push(&mut self.packet_priority_queue, key);
        self.message_hash_to_transaction.push(deserialized_packet);
    }

    /// Takes the envelope into a full buffer and hands back the least of
    /// all: the envelope itself, or the resident that made room for it.
    fn push_pop_min(&mut self, deserialized_packet: DeserializedPacket) -> (least:
        DeserializedPacket)
        requires
            old(self).wf(),
            old(self)@.len() == old(self).spec_capacity(),
            !holds_digest(old(self)@, deserialized_packet.digest()),
        ensures
            final(self).wf(),
            final(self).spec_capacity() == old(self).spec_capacity(),
            (final(self)@, Some(least)) == pushed(
                old(self)@,
                old(self).spec_capacity() as nat,
                deserialized_packet,
            ),
            is_least(keys_of(old(self)@).insert(deserialized_packet.key()), least.key()),
            key_le(least.key(), deserialized_packet.key()),
    {
        let section = deserialized_packet.immutable_section();
        let key: Key = (section.priority(), section.sender_stake());
        let popped_key = heap_push_pop_min(&mut self.packet_priority_queue, key);
        proof {
            lemma_least_key(keys_of(old(self)@).insert(key), popped_key);
            let all = old(self)@.push(deserialized_packet);
            lemma_keys_of_push(old(self)@, deserialized_packet);
            lemma_keys_of_contains(all, key);
            assert(all[all.len() - 1].key() == key);
        }
        if popped_key.0 != key.0 || popped_key.1 != key.1 {
            assert(keys_of(old(self)@).contains(popped_key));
            let place = self.position_of_key(popped_key);
            let removed_min = self.message_hash_to_transaction.remove(place);
            proof {
                lemma_keys_of_remove(old(self)@, place as int);
                lemma_keys_of_push(old(self)@.remove(place as int), deserialized_packet);
                assert(keys_of(old(self)@).insert(key).remove(popped_key) =~= keys_of(
                    old(self)@,
                ).remove(popped_key).insert(key));
            }
            self.message_hash_to_transaction.push(deserialized_packet);
            proof {
                lemma_distinct_after_remove(old(self)@, place as int);
                lemma_distinct_after_push(old(self)@.remove(place as int), deserialized_packet);
            }
            removed_min
        } else {
            proof {
                assert(popped_key == key);
                assert(keys_of(old(self)@).insert(key).remove(key) =~= keys_of(old(self)@));
            }
            deserialized_packet
        }
    }

    /// Offers an envelope to the buffer.
    ///
    /// An envelope whose message hash is known is dropped and nothing
    /// changes. While there is room the envelope becomes a resident. In a
    /// full buffer it must be better than the worst resident, which then
    /// leaves and is handed back; an envelope that is no better is handed
    /// back itself.
    pub fn push(&mut self, deserialized_packet: DeserializedPacket) -> (dropped: Option<
        DeserializedPacket,
    >)
        requires
            old(self).wf(),
        ensures
            final(self).wf(),
            final(self).spec_capacity() == old(self).spec_capacity(),
            (final(self)@, dropped) == pushed(
                old(self)@,
                old(self).spec_capacity() as nat,
                deserialized_packet,
            ),
            dropped matches Some(least) ==> {
                &&& old(self)@.len() == old(self).spec_capacity()
                &&& !holds_digest(old(self)@, deserialized_packet.digest())
                &&& is_least(keys_of(old(self)@).insert(deserialized_packet.key()), least.key())
                &&& key_le(least.key(), deserialized_packet.key())
            },
    {
        if self.position_of_hash(
            deserialized_packet.immutable_section().message_hash(),
        ).is_some() {
            return None;
        }
        if self.len() == self.batch_limit {
            Some(self.push_pop_min(deserialized_packet))
        } else {
            self.push_internal(deserialized_packet);
            None
        }
    }

    /// Takes the best resident out of the buffer: the first of those with
    /// the greatest key. An empty buffer gives nothing.
    pub fn pop_max(&mut self) -> (best: Option<DeserializedPacket>)
        requires
            old(self).wf(),
        ensures
            final(self).wf(),
            final(self).spec_capacity() == old(self).spec_capacity(),
            (final(self)@, best) == popped(old(self)@),
            best.is_some() == (old(self)@.len() > 0),
            best matches Some(envelope) ==> {
                &&& final(self)@.len() == old(self)@.len() - 1
                &&& is_greatest(keys_of(old(self)@), envelope.key())
            },
    {
        proof {
            lemma_keys_of_contains(self@, (0u64, 0u64));
        }
        match heap_pop_max(&mut self.packet_priority_queue) {
            None => None,
            Some(key) => {
                proof {
                    lemma_greatest_key(keys_of(old(self)@), key);
                    lemma_keys_of_contains(old(self)@, key);
                }
                let place = self.position_of_key(key);
                let best = self.message_hash_to_transaction.remove(place);
                proof {
                    lemma_keys_of_remove(old(self)@, place as int);
                    lemma_distinct_after_remove(old(self)@, place as int);
                }
                Some(best)
            },
        }
    }

    /// Takes up to `n` of the best residents out of the buffer, the best
    /// first. An empty buffer gives nothing, whatever `n` is; any other
    /// gives as many as it has, up to `n`.
    pub fn pop_max_n(&mut self, n: usize) -> (best: Option<Vec<DeserializedPacket>>)
        requires
            old(self).wf(),
        ensures
            final(self).wf(),
            final(self).spec_capacity() == old(self).spec_capacity(),
            old(self)@.len() == 0 ==> best.is_none() && final(self)@ == old(self)@,
            old(self)@.len() > 0 ==> {
                let taken = if n <= old(self)@.len() {
                    n as nat
                } else {
                    old(self)@.len()
                };
                &&& best matches Some(envelopes) && envelopes@ == pops(old(self)@, taken)
                    && envelopes@.len() == taken && forall|i: int, j: int|
                    0 <= i <= j < taken ==> key_le(
                        (#[trigger] envelopes@[j]).key(),
                        (#[trigger] envelopes@[i]).key(),
                    )
                &&& final(self)@ == after_pops(old(self)@, taken)
                &&& final(self)@.len() == old(self)@.len() - taken
            },
    {
        let current_len = self.len();
        if self.is_empty() {
            None
        } else {
            let num_to_pop = if current_len < n {
                current_len
            } else {
                n
            };
            let mut envelopes: Vec<DeserializedPacket> = Vec::with_capacity(num_to_pop);
            let mut taken: usize = 0;
            while taken < num_to_pop
                invariant
                    taken <= num_to_pop <= old(self)@.len(),
                    self.wf(),
                    self.spec_capacity() == old(self).spec_capacity(),
                    self@ == after_pops(old(self)@, taken as nat),
                    self@.len() == old(self)@.len() - taken,
                    envelopes@ == pops(old(self)@, taken as nat),
                decreases num_to_pop - taken,
            {
                match self.pop_max() {
                    Some(envelope) => {
                        envelopes.push(envelope);
                    },
                    None => {},
                }
                taken += 1;
            }
            proof {
                assert forall|i: int, j: int| 0 <= i <= j < taken implies key_le(
                    (#[trigger] envelopes@[j]).key(),
                    (#[trigger] envelopes@[i]).key(),
                ) by {
                    lemma_pops_descend(old(self)@, taken as nat, i, j);
                }
                lemma_pops_len(old(self)@, taken as nat);
            }
            Some(envelopes)
        }
    }

    /// Offers each of the envelopes to the buffer in turn, as `push` does,
    /// and counts the pushes that handed an envelope back.
    pub fn insert_batch(&mut self, deserialized_packets: Vec<DeserializedPacket>) -> (dropped:
        usize)
        requires
            old(self).wf(),
        ensures
            final(self).wf(),
            final(self).spec_capacity() == old(self).spec_capacity(),
            final(self)@ == after_pushes(
                old(self)@,
                old(self).spec_capacity() as nat,
                deserialized_packets@,
            ),
            dropped == pushes_dropped(
                old(self)@,
                old(self).spec_capacity() as nat,
                deserialized_packets@,
            ),
    {
        let mut num_dropped_packets: usize = 0;
        let mut i: usize = 0;
        while i < deserialized_packets.len()
            invariant
                i <= deserialized_packets@.len(),
                num_dropped_packets <= i,
                self.wf(),
                self.spec_capacity() == old(self).spec_capacity(),
                self@ == after_pushes(
                    old(self)@,
                    old(self).spec_capacity() as nat,
                    deserialized_packets@.take(i as int),
                ),
                num_dropped_packets == pushes_dropped(
                    old(self)@,
                    old(self).spec_capacity() as nat,
                    deserialized_packets@.take(i as int),
                ),
            decreases deserialized_packets@.len() - i,
        {
            proof {
                let next = deserialized_packets@.take(i + 1);
                assert(next.drop_last() =~= deserialized_packets@.take(i as int));
                assert(next.last() == deserialized_packets@[i as int]);
            }
            let deserialized_packet = deserialized_packets[i].clone();
            if self.push(deserialized_packet).is_some() {
                num_dropped_packets += 1;
            }
            i += 1;
        }
        proof {
            assert(deserialized_packets@.take(i as int) =~= deserialized_packets@);
        }
        num_dropped_packets
    }

    /// A buffer with room for `capacity` residents, to which each of the
    /// envelopes has been offered in turn, as `push` does.
    pub fn from_iter(iter: Vec<DeserializedPacket>, capacity: usize) -> (buffer: Self)
        requires
            1 <= capacity,
            fits_in_heap(capacity as nat),
        ensures
            buffer.wf(),
            buffer.spec_capacity() == capacity,
            buffer@ == after_pushes(Seq::<DeserializedPacket>::empty(), capacity as nat, iter@),
            buffer@.len() == if capacity <= digests_of(iter@).len() {
                capacity as nat
            } else {
                digests_of(iter@).len()
            },
    {
        proof {
            lemma_after_pushes_len(capacity as nat, iter@);
        }
        let mut unprocessed_packet_batches = Self::with_capacity(capacity);
        unprocessed_packet_batches.insert_batch(iter);
        unprocessed_packet_batches
    }

    /// The residents, in the order in which they came.
    pub fn iter(&self) -> (residents: &[DeserializedPacket])
        ensures
            residents@ == self@,
    {
        self.message_hash_to_transaction.as_slice()
    }

    /// The residents, to mark them as forwarded or not. The buffer holds
    /// what the caller leaves, and is in order again where each resident has
    /// kept its record.
    pub fn iter_mut(&mut self) -> (residents: &mut [DeserializedPacket])
        requires
            old(self).wf(),
        ensures
            residents@ == old(self)@,
            final(self)@ == final(residents)@,
            final(self).spec_capacity() == old(self).spec_capacity(),
            final(self).queue() == old(self).queue(),
            final(self).queue_room() == old(self).queue_room(),
            (final(residents)@.len() == old(self)@.len() && forall|i: int|
                0 <= i < old(self)@.len() ==> (#[trigger] final(residents)@[i]).record() == old(
                    self,
                )@[i].record()) ==> final(self).wf(),
    {
        proof {
            let before = self@;
            assert forall|after: Seq<DeserializedPacket>|
                after.len() == before.len() && (forall|i: int|
                    0 <= i < before.len() ==> (#[trigger] after[i]).record()
                        == before[i].record()) implies #[trigger] keys_of(after) == keys_of(before)
                && distinct_digests(after) by {
                let key = |e: DeserializedPacket| e.key();
                assert(after.map_values(key) =~= before.map_values(key));
                assert forall|i: int, j: int| 0 <= i < j < after.len() implies (
                #[trigger] after[i]).digest() != (#[trigger] after[j]).digest() by {
                    assert(before[i].digest() != before[j].digest());
                }
            }
        }
        self.message_hash_to_transaction.as_mut_slice()
    }

    /// The resident with the given message hash, if there is one.
    pub fn get(&self, hash: &MessageHash) -> (resident: Option<&DeserializedPacket>)
        requires
            self.wf(),
        ensures
            match resident {
                Some(envelope) => self.index().dom().contains(hash.digest())
                    && self.index()[hash.digest()] == *envelope,
                None => !self.index().dom().contains(hash.digest()),
            },
    {
        match self.position_of_hash(hash) {
            Some(i) => {
                proof {
                    lemma_index_finds(*self, i as int);
                }
                Some(&self.message_hash_to_transaction[i])
            },
            None => None,
        }
    }

    /// Shows each resident once to the callback, which may mark it as
    /// forwarded or not, and keeps those of which the callback says so, in
    /// their order. The callback leaves the record of an envelope as it is.
    ///
    /// A callback that keeps every envelope unchanged leaves the buffer as it
    /// was; one that keeps none empties it.
    pub fn retain<F>(&mut self, mut f: F) where F: FnMut(&mut DeserializedPacket) -> bool
        requires
            old(self).wf(),
            forall|r: &mut DeserializedPacket, i: int|
                0 <= i < old(self)@.len() && *r == old(self)@[i] ==> call_requires(f, (r,)),
            forall|r: &mut DeserializedPacket, keep: bool| #[trigger]
                call_ensures(f, (r,), keep) ==> final(r).record() == r.record(),
        ensures
            final(self).wf(),
            final(self).spec_capacity() == old(self).spec_capacity(),
            exists|after: Seq<DeserializedPacket>, keeps: Seq<bool>|
                {
                    &&& after.len() == old(self)@.len()
                    &&& keeps.len() == old(self)@.len()
                    &&& forall|i: int|
                        0 <= i < old(self)@.len() ==> (#[trigger] after[i]).record() == old(
                            self,
                        )@[i].record()
                    &&& forall|i: int|
                        #![trigger after[i]]
                        0 <= i < old(self)@.len() && after[i].record() == old(self)@[i].record()
                            ==> exists|r: &mut DeserializedPacket|
                            #![trigger call_ensures(f, (r,), keeps[i])]
                            *r == old(self)@[i] && *final(r) == after[i] && call_ensures(
                                f,
                                (r,),
                                keeps[i],
                            )
                    &&& final(self)@ == #[trigger] kept(after, keeps)
                    &&& final(self)@.len() == count_kept(keeps)
                },
            (forall|r: &mut DeserializedPacket, keep: bool| #[trigger]
                call_ensures(f, (r,), keep) ==> keep && *final(r) == *r) ==> final(self)@ == old(
                self,
            )@,
            (forall|r: &mut DeserializedPacket, keep: bool| #[trigger]
                call_ensures(f, (r,), keep) ==> !keep) ==> final(self)@
                == Seq::<DeserializedPacket>::empty(),
    {
        let mut kept_packets: Vec<DeserializedPacket> = Vec::new();
        let ghost mut after: Seq<DeserializedPacket> = Seq::empty();
        let ghost mut keeps: Seq<bool> = Seq::empty();
        let ghost mut origin: Seq<int> = Seq::empty();
        let ghost callback = f;
        let mut i: usize = 0;
        while i < self.message_hash_to_transaction.len()
            invariant
                i <= self@.len(),
                *self == *old(self),
                old(self).wf(),
                f == callback,
                forall|r: &mut DeserializedPacket, i: int|
                    0 <= i < old(self)@.len() && *r == old(self)@[i] ==> call_requires(f, (r,)),
                forall|r: &mut DeserializedPacket, keep: bool| #[trigger]
                    call_ensures(f, (r,), keep) ==> final(r).record() == r.record(),
                after.len() == i,
                keeps.len() == i,
                forall|j: int|
                    0 <= j < i ==> (#[trigger] after[j]).record() == old(self)@[j].record(),
                forall|j: int|
                    #![trigger after[j]]
                    0 <= j < i && after[j].record() == old(self)@[j].record() ==> exists|
                        r: &mut DeserializedPacket,
                    |
                        #![trigger call_ensures(f, (r,), keeps[j])]
                        *r == old(self)@[j] && *final(r) == after[j] && call_ensures(
                            f,
                            (r,),
                            keeps[j],
                        ),
                kept_packets@ == kept(after, keeps),
                (forall|r: &mut DeserializedPacket, keep: bool| #[trigger]
                    call_ensures(f, (r,), keep) ==> keep && *final(r) == *r) ==> kept_packets@
                    == old(self)@.take(i as int),
                (forall|r: &mut DeserializedPacket, keep: bool| #[trigger]
                    call_ensures(f, (r,), keep) ==> !keep) ==> kept_packets@.len() == 0,
                origin.len() == kept_packets@.len(),
                kept_packets@.len() <= i,
                forall|j: int|
                    0 <= j < origin.len() ==> 0 <= #[trigger] origin[j] < i
                        && kept_packets@[j].record() == old(self)@[origin[j]].record(),
                forall|j: int, k: int|
                    0 <= j < k < origin.len() ==> #[trigger] origin[j] < #[trigger] origin[k],
            decreases self@.len() - i,
        {
            let mut deserialized_packet = self.message_hash_to_transaction[i].clone();
            let should_retain = f(&mut deserialized_packet);
            proof {
                assert(exists|r: &mut DeserializedPacket|
                    *r == old(self)@[i as int] && *final(r) == deserialized_packet
                        && #[trigger] call_ensures(f, (r,), should_retain));
                assert(old(self)@.take(i + 1) =~= old(self)@.take(i as int).push(
                    old(self)@[i as int],
                ));
                assert(after.push(deserialized_packet).drop_last() =~= after);
                assert(keeps.push(should_retain).drop_last() =~= keeps);
                let ghost shorter = after;
                let ghost fewer = keeps;
                after = after.push(deserialized_packet);
                keeps = keeps.push(should_retain);
                assert forall|j: int|
                    #![trigger after[j]]
                    0 <= j < i + 1 && after[j].record() == old(self)@[j].record() implies exists|
                    r: &mut DeserializedPacket,
                |
                    #![trigger call_ensures(f, (r,), keeps[j])]
                    *r == old(self)@[j] && *final(r) == after[j] && call_ensures(
                        f,
                        (r,),
                        keeps[j],
                    ) by {
                    if j < i {
                        assert(after[j] == shorter[j]);
                        assert(keeps[j] == fewer[j]);
                    } else {
                        assert(after[j] == deserialized_packet);
                        assert(keeps[j] == should_retain);
                    }
                }
            }
            if should_retain {
                kept_packets.push(deserialized_packet);
                proof {
                    origin = origin.push(i as int);
                }
            }
            i += 1;
        }
        heap_clear(&mut self.packet_priority_queue);
        proof {
            lemma_keys_of_none(kept_packets@.take(0));
        }
        let mut j: usize = 0;
        while j < kept_packets.len()
            invariant
                j <= kept_packets@.len(),
                self.spec_capacity() == old(self).spec_capacity(),
                kept_packets@.len() <= old(self).spec_capacity(),
                self.queue_room() == old(self).spec_capacity(),
                heap_keys(self.packet_priority_queue) == keys_of(kept_packets@.take(j as int)),
            decreases kept_packets@.len() - j,
        {
            proof {
                lemma_keys_of_contains(kept_packets@.take(j as int), (0u64, 0u64));
                lemma_keys_of_push(kept_packets@.take(j as int), kept_packets@[j as int]);
                assert(kept_packets@.take(j + 1) =~= kept_packets@.take(j as int).push(
                    kept_packets@[j as int],
                ));
            }
            let section = kept_packets[j].immutable_section();
            heap_push(&mut self.packet_priority_queue, (section.priority(), section.sender_stake()));
            j += 1;
        }
        proof {
            lemma_kept_len(after, keeps);
            assert(kept_packets@.take(j as int) =~= kept_packets@);
            assert(old(self)@.take(i as int) =~= old(self)@);
            assert forall|a: int, b: int| 0 <= a < b < kept_packets@.len() implies (
            #[trigger] kept_packets@[a]).digest() != (#[trigger] kept_packets@[b]).digest() by {
                assert(origin[a] < origin[b]);
                assert(old(self)@[origin[a]].digest() != old(self)@[origin[b]].digest());
            }
        }
        self.message_hash_to_transaction = kept_packets;
    }
}

} // verus!
