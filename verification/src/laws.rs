//! What holds of the buffer whatever is done with it.
use crate::buffer::UnprocessedPacketBatches;
use crate::heap::{is_greatest, is_least, key_le, Key};
use crate::model::{
    after_pops, after_pushes, count_kept, digests_of, distinct_digests, first_at, greatest_key,
    holds_digest, index_of, is_first_at, kept, keys_of, least_key, lemma_distinct_after_push,
    lemma_distinct_after_remove, lemma_first_at, lemma_keys_of_contains, lemma_keys_of_push,
    lemma_keys_of_remove, popped, pops, pushed,
};
use vstd::set_lib::lemma_len_subset;
use crate::record::{DeserializedPacket, ImmutableDeserializedPacket};
use crate::wire::message_bytes;
use vstd::prelude::*;

verus! {

/// A key that some resident has is the key of a first such resident.
pub proof fn lemma_first_exists(residents: Seq<DeserializedPacket>, key: Key, i: int)
    requires
        0 <= i < residents.len(),
        residents[i].key() == key,
    ensures
        is_first_at(residents, key, first_at(residents, key)),
        first_at(residents, key) <= i,
    decreases i,
{
    if exists|j: int| 0 <= j < i && (#[trigger] residents[j]).key() == key {
        let j = choose|j: int| 0 <= j < i && (#[trigger] residents[j]).key() == key;
        lemma_first_exists(residents, key, j);
    } else {
        assert(is_first_at(residents, key, i));
        lemma_first_at(residents, key, i);
    }
}

/// Among residents, if there are any, one key comes after all others and
/// one before.
pub proof fn lemma_extreme_keys(residents: Seq<DeserializedPacket>)
    requires
        residents.len() > 0,
    ensures
        is_greatest(keys_of(residents), greatest_key(keys_of(residents))),
        is_least(keys_of(residents), least_key(keys_of(residents))),
    decreases residents.len(),
{
    let front = residents.drop_last();
    let last = residents.last().key();
    assert(residents =~= front.push(residents.last()));
    lemma_keys_of_push(front, residents.last());
    let keys = keys_of(residents);
    assert(keys.contains(last));
    if front.len() == 0 {
        lemma_keys_of_contains(front, last);
        assert forall|other: Key| #[trigger] keys.contains(other) implies other == last by {
            lemma_keys_of_contains(front, other);
        }
        assert(is_greatest(keys, last));
        assert(is_least(keys, last));
    } else {
        lemma_extreme_keys(front);
        let high = greatest_key(keys_of(front));
        let low = least_key(keys_of(front));
        let top = if key_le(high, last) {
            last
        } else {
            high
        };
        let bottom = if key_le(last, low) {
            last
        } else {
            low
        };
        lemma_keys_of_contains(front, high);
        lemma_keys_of_contains(front, low);
        lemma_keys_of_contains(residents, high);
        lemma_keys_of_contains(residents, low);
        assert(residents[0].key() == front[0].key());
        let h = choose|i: int| 0 <= i < front.len() && (#[trigger] front[i]).key() == high;
        assert(residents[h].key() == high);
        let l = choose|i: int| 0 <= i < front.len() && (#[trigger] front[i]).key() == low;
        assert(residents[l].key() == low);
        assert forall|other: Key| #[trigger] keys.contains(other) implies key_le(other, top)
            && key_le(bottom, other) by {
            lemma_keys_of_contains(residents, other);
            lemma_keys_of_contains(front, other);
            let i = choose|i: int|
                0 <= i < residents.len() && (#[trigger] residents[i]).key() == other;
            if i < front.len() {
                assert(front[i].key() == other);
                assert(keys_of(front).contains(other));
            }
        }
        assert(is_greatest(keys, top));
        assert(is_least(keys, bottom));
    }
}

/// The queue holds one key for each resident, and the residents are no more
/// than the buffer has room for.
pub proof fn lemma_sizes_agree(buffer: UnprocessedPacketBatches)
    requires
        buffer.wf(),
    ensures
        buffer.queue().len() == buffer@.len(),
        buffer.index().dom().len() == buffer@.len(),
        buffer@.len() <= buffer.spec_capacity(),
{
    lemma_keys_of_contains(buffer@, (0u64, 0u64));
    lemma_index_size(buffer@);
}

/// The index of residents with distinct digests has one entry for each.
pub proof fn lemma_index_size(residents: Seq<DeserializedPacket>)
    requires
        distinct_digests(residents),
    ensures
        index_of(residents).dom().finite(),
        index_of(residents).dom().len() == residents.len(),
    decreases residents.len(),
{
    let dom = index_of(residents).dom();
    if residents.len() == 0 {
        assert(dom =~= Set::<Seq<u8>>::empty());
    } else {
        let front = residents.drop_last();
        let last = residents.last();
        assert(distinct_digests(front)) by {
            assert forall|i: int, j: int| 0 <= i < j < front.len() implies (
            #[trigger] front[i]).digest() != (#[trigger] front[j]).digest() by {
                assert(front[i] == residents[i]);
                assert(front[j] == residents[j]);
            }
        }
        lemma_index_size(front);
        let front_dom = index_of(front).dom();
        assert(!front_dom.contains(last.digest())) by {
            if holds_digest(front, last.digest()) {
                let i = choose|i: int|
                    0 <= i < front.len() && #[trigger] front[i].digest() == last.digest();
                assert(front[i] == residents[i]);
                assert(residents[residents.len() - 1].digest() == last.digest());
            }
        }
        assert(dom =~= front_dom.insert(last.digest())) by {
            assert forall|d: Seq<u8>| dom.contains(d) implies front_dom.insert(
                last.digest(),
            ).contains(d) by {
                let i = choose|i: int|
                    0 <= i < residents.len() && #[trigger] residents[i].digest() == d;
                if i < front.len() {
                    assert(front[i].digest() == d);
                }
            }
            assert forall|d: Seq<u8>| front_dom.insert(last.digest()).contains(
                d,
            ) implies dom.contains(d) by {
                if d == last.digest() {
                    assert(residents[residents.len() - 1].digest() == d);
                } else {
                    let i = choose|i: int|
                        0 <= i < front.len() && #[trigger] front[i].digest() == d;
                    assert(residents[i].digest() == d);
                }
            }
        }
    }
}

/// The index finds each resident under the digest of its own message.
pub proof fn lemma_index_finds(buffer: UnprocessedPacketBatches, i: int)
    requires
        buffer.wf(),
        0 <= i < buffer@.len(),
    ensures
        buffer.index().dom().contains(buffer@[i].digest()),
        buffer.index()[buffer@[i].digest()] == buffer@[i],
{
    let residents = buffer@;
    let d = residents[i].digest();
    assert(holds_digest(residents, d));
    let j = choose|j: int| 0 <= j < residents.len() && #[trigger] residents[j].digest() == d;
    if j < i {
        assert(residents[j].digest() != residents[i].digest());
    }
    if i < j {
        assert(residents[i].digest() != residents[j].digest());
    }
}

/// A pop of a buffer that is not empty hands out a resident whose key no
/// other exceeds, and leaves the others.
pub proof fn lemma_popped(residents: Seq<DeserializedPacket>)
    requires
        residents.len() > 0,
    ensures
        popped(residents).1 matches Some(best) && is_greatest(keys_of(residents), best.key())
            && keys_of(popped(residents).0) == keys_of(residents).remove(best.key()),
        popped(residents).0.len() == residents.len() - 1,
{
    lemma_extreme_keys(residents);
    let key = greatest_key(keys_of(residents));
    lemma_keys_of_contains(residents, key);
    let i = choose|i: int| 0 <= i < residents.len() && (#[trigger] residents[i]).key() == key;
    lemma_first_exists(residents, key, i);
    lemma_keys_of_remove(residents, first_at(residents, key));
}

/// The keys that are left after some pops were there before them.
pub proof fn lemma_after_pops(residents: Seq<DeserializedPacket>, m: nat, n: nat, key: Key)
    requires
        m <= n <= residents.len(),
        keys_of(after_pops(residents, n)).contains(key),
    ensures
        keys_of(after_pops(residents, m)).contains(key),
        after_pops(residents, n).len() == residents.len() - n,
    decreases n,
{
    if n == 0 {
    } else {
        let before = after_pops(residents, (n - 1) as nat);
        lemma_pops_len(residents, (n - 1) as nat);
        lemma_popped(before);
        if m < n {
            lemma_after_pops(residents, m, (n - 1) as nat, key);
        }
    }
}

/// Pops from a buffer that holds enough hand out one resident each.
pub proof fn lemma_pops_len(residents: Seq<DeserializedPacket>, n: nat)
    requires
        n <= residents.len(),
    ensures
        after_pops(residents, n).len() == residents.len() - n,
        pops(residents, n).len() == n,
    decreases n,
{
    if n > 0 {
        lemma_pops_len(residents, (n - 1) as nat);
        lemma_popped(after_pops(residents, (n - 1) as nat));
    }
}

/// What `n` pops hand out is what fewer pops hand out, and more.
pub proof fn lemma_pops_extend(residents: Seq<DeserializedPacket>, m: nat, n: nat)
    requires
        m <= n <= residents.len(),
    ensures
        pops(residents, n).len() == n,
        pops(residents, m) == pops(residents, n).take(m as int),
    decreases n,
{
    lemma_pops_len(residents, n);
    lemma_pops_len(residents, m);
    if m < n {
        lemma_pops_extend(residents, m, (n - 1) as nat);
        assert(pops(residents, (n - 1) as nat).take(m as int) =~= pops(residents, n).take(
            m as int,
        ));
    } else {
        assert(pops(residents, n).take(n as int) =~= pops(residents, n));
    }
}

/// Pops that follow each other hand out keys that do not rise: a later pop
/// gives no greater priority than an earlier one, and at the same priority
/// no greater stake.
pub proof fn lemma_pops_descend(residents: Seq<DeserializedPacket>, n: nat, i: int, j: int)
    requires
        n <= residents.len(),
        0 <= i <= j < n,
    ensures
        pops(residents, n).len() == n,
        key_le(pops(residents, n)[j].key(), pops(residents, n)[i].key()),
{
    lemma_pops_extend(residents, (i + 1) as nat, n);
    lemma_pops_extend(residents, (j + 1) as nat, n);
    lemma_pops_len(residents, i as nat);
    lemma_pops_len(residents, j as nat);
    let at_i = after_pops(residents, i as nat);
    let at_j = after_pops(residents, j as nat);
    lemma_popped(at_i);
    lemma_popped(at_j);
    let earlier = popped(at_i).1.unwrap();
    let later = popped(at_j).1.unwrap();
    assert(pops(residents, n)[i] == pops(residents, (i + 1) as nat)[i]);
    assert(pops(residents, n)[j] == pops(residents, (j + 1) as nat)[j]);
    assert(pops(residents, n)[i] == earlier);
    assert(pops(residents, n)[j] == later);
    lemma_after_pops(residents, i as nat, j as nat, later.key());
}

/// An envelope whose digest the buffer knows changes nothing, and nothing
/// is handed back.
pub proof fn lemma_push_known(
    residents: Seq<DeserializedPacket>,
    capacity: nat,
    envelope: DeserializedPacket,
)
    requires
        holds_digest(residents, envelope.digest()),
    ensures
        pushed(residents, capacity, envelope) == (residents, None::<DeserializedPacket>),
{
}

/// A full buffer hands back an envelope for one that it does not know: one
/// that comes no later in the order than the one offered. Where that is
/// another than the one offered, the one offered is a resident afterwards
/// and the other is not.
pub proof fn lemma_push_full(
    residents: Seq<DeserializedPacket>,
    capacity: nat,
    envelope: DeserializedPacket,
)
    requires
        distinct_digests(residents),
        residents.len() == capacity,
        !holds_digest(residents, envelope.digest()),
    ensures
        pushed(residents, capacity, envelope).1 matches Some(out) && key_le(
            out.key(),
            envelope.key(),
        ) && (out != envelope ==> {
            let after = pushed(residents, capacity, envelope).0;
            &&& after.contains(envelope)
            &&& holds_digest(after, envelope.digest())
            &&& !after.contains(out)
            &&& !holds_digest(after, out.digest())
        }),
{
    let all = residents.push(envelope);
    lemma_extreme_keys(all);
    lemma_keys_of_push(residents, envelope);
    let least = least_key(keys_of(residents).insert(envelope.key()));
    assert(keys_of(all).contains(envelope.key()));
    if least != envelope.key() {
        lemma_keys_of_contains(residents, least);
        let k = choose|k: int| 0 <= k < residents.len() && (#[trigger] residents[k]).key() == least;
        lemma_first_exists(residents, least, k);
        let i = first_at(residents, least);
        let out = residents[i];
        let after = residents.remove(i).push(envelope);
        assert(after[after.len() - 1] == envelope);
        assert(after[after.len() - 1].digest() == envelope.digest());
        assert(holds_digest(residents, out.digest()));
        assert(!holds_digest(after, out.digest())) by {
            if holds_digest(after, out.digest()) {
                let j = choose|j: int|
                    0 <= j < after.len() && #[trigger] after[j].digest() == out.digest();
                if j < after.len() - 1 {
                    let before = if j < i {
                        j
                    } else {
                        j + 1
                    };
                    assert(after[j] == residents[before]);
                    if before < i {
                        assert(residents[before].digest() != residents[i].digest());
                    } else {
                        assert(residents[i].digest() != residents[before].digest());
                    }
                }
            }
        }
        assert(!after.contains(out)) by {
            if after.contains(out) {
                let j = choose|j: int| 0 <= j < after.len() && after[j] == out;
                assert(after[j].digest() == out.digest());
            }
        }
    }
}

/// A push keeps the residents in order: their digests stay distinct and
/// they stay within the room. No resident comes from elsewhere than the
/// residents before it and the envelope offered, and while there is room
/// nobody leaves and the envelope is a resident afterwards.
pub proof fn lemma_pushed_keeps_order(
    residents: Seq<DeserializedPacket>,
    capacity: nat,
    envelope: DeserializedPacket,
)
    requires
        distinct_digests(residents),
        residents.len() <= capacity,
    ensures
        distinct_digests(pushed(residents, capacity, envelope).0),
        residents.len() <= pushed(residents, capacity, envelope).0.len() <= capacity,
        forall|d: Seq<u8>|
            holds_digest(pushed(residents, capacity, envelope).0, d) ==> holds_digest(residents, d)
                || d == envelope.digest(),
        residents.len() < capacity ==> holds_digest(
            pushed(residents, capacity, envelope).0,
            envelope.digest(),
        ) && forall|d: Seq<u8>|
            holds_digest(residents, d) ==> holds_digest(
                pushed(residents, capacity, envelope).0,
                d,
            ),
{
    let after = pushed(residents, capacity, envelope).0;
    if holds_digest(residents, envelope.digest()) {
    } else if residents.len() < capacity {
        lemma_distinct_after_push(residents, envelope);
        assert(after[after.len() - 1].digest() == envelope.digest());
        assert forall|d: Seq<u8>| holds_digest(after, d) implies holds_digest(residents, d) || d
            == envelope.digest() by {
            let j = choose|j: int| 0 <= j < after.len() && #[trigger] after[j].digest() == d;
            if j < residents.len() {
                assert(residents[j].digest() == d);
            }
        }
        assert forall|d: Seq<u8>| holds_digest(residents, d) implies holds_digest(after, d) by {
            let j = choose|j: int|
                0 <= j < residents.len() && #[trigger] residents[j].digest() == d;
            assert(after[j].digest() == d);
        }
    } else {
        let all = residents.push(envelope);
        lemma_extreme_keys(all);
        lemma_keys_of_push(residents, envelope);
        let least = least_key(keys_of(residents).insert(envelope.key()));
        if least != envelope.key() {
            lemma_keys_of_contains(all, least);
            let k = choose|k: int| 0 <= k < all.len() && (#[trigger] all[k]).key() == least;
            assert(k < residents.len());
            assert(residents[k].key() == least);
            lemma_first_exists(residents, least, k);
            let i = first_at(residents, least);
            let rest = residents.remove(i);
            lemma_distinct_after_remove(residents, i);
            lemma_distinct_after_push(rest, envelope);
            assert forall|d: Seq<u8>| holds_digest(after, d) implies holds_digest(residents, d)
                || d == envelope.digest() by {
                let j = choose|j: int| 0 <= j < after.len() && #[trigger] after[j].digest() == d;
                if j < rest.len() {
                    assert(rest[j].digest() == d);
                    assert(holds_digest(rest, d));
                }
            }
        }
    }
}

/// Pushes into an empty buffer keep it in order: the digests of the
/// residents are distinct and occur among the envelopes offered, and while
/// there is room left every digest offered is that of a resident.
pub proof fn lemma_after_pushes_keeps_order(capacity: nat, envelopes: Seq<DeserializedPacket>)
    ensures
        distinct_digests(after_pushes(Seq::empty(), capacity, envelopes)),
        after_pushes(Seq::empty(), capacity, envelopes).len() <= capacity,
        forall|d: Seq<u8>|
            holds_digest(after_pushes(Seq::empty(), capacity, envelopes), d) ==> holds_digest(
                envelopes,
                d,
            ),
        after_pushes(Seq::empty(), capacity, envelopes).len() < capacity ==> forall|d: Seq<u8>|
            holds_digest(envelopes, d) ==> holds_digest(
                after_pushes(Seq::empty(), capacity, envelopes),
                d,
            ),
    decreases envelopes.len(),
{
    let after = after_pushes(Seq::empty(), capacity, envelopes);
    if envelopes.len() > 0 {
        let front = envelopes.drop_last();
        let last = envelopes.last();
        let before = after_pushes(Seq::empty(), capacity, front);
        lemma_after_pushes_keeps_order(capacity, front);
        lemma_pushed_keeps_order(before, capacity, last);
        assert forall|d: Seq<u8>| holds_digest(after, d) implies holds_digest(envelopes, d) by {
            if d == last.digest() {
                assert(envelopes[envelopes.len() - 1].digest() == d);
            } else {
                assert(holds_digest(before, d));
                assert(holds_digest(front, d));
                let j = choose|j: int| 0 <= j < front.len() && #[trigger] front[j].digest() == d;
                assert(envelopes[j].digest() == d);
            }
        }
        if after.len() < capacity {
            assert forall|d: Seq<u8>| holds_digest(envelopes, d) implies holds_digest(
                after,
                d,
            ) by {
                let j = choose|j: int|
                    0 <= j < envelopes.len() && #[trigger] envelopes[j].digest() == d;
                if j < front.len() {
                    assert(front[j].digest() == d);
                    assert(holds_digest(front, d));
                    assert(holds_digest(before, d));
                }
            }
        }
    }
}

/// Among finitely many envelopes finitely many digests occur.
pub proof fn lemma_digests_finite(envelopes: Seq<DeserializedPacket>)
    ensures
        digests_of(envelopes).finite(),
    decreases envelopes.len(),
{
    let all = digests_of(envelopes);
    if envelopes.len() == 0 {
        assert(all =~= Set::<Seq<u8>>::empty());
    } else {
        let front = envelopes.drop_last();
        let last = envelopes.last();
        lemma_digests_finite(front);
        assert(all =~= digests_of(front).insert(last.digest())) by {
            assert forall|d: Seq<u8>| all.contains(d) implies digests_of(front).insert(
                last.digest(),
            ).contains(d) by {
                let j = choose|j: int|
                    0 <= j < envelopes.len() && #[trigger] envelopes[j].digest() == d;
                if j < front.len() {
                    assert(front[j].digest() == d);
                }
            }
            assert forall|d: Seq<u8>| digests_of(front).insert(last.digest()).contains(
                d,
            ) implies all.contains(d) by {
                if d == last.digest() {
                    assert(envelopes[envelopes.len() - 1].digest() == d);
                } else {
                    let j = choose|j: int|
                        0 <= j < front.len() && #[trigger] front[j].digest() == d;
                    assert(envelopes[j].digest() == d);
                }
            }
        }
    }
}

/// A buffer filled from nothing holds as many residents as distinct digests
/// were offered, up to its room.
pub proof fn lemma_after_pushes_len(capacity: nat, envelopes: Seq<DeserializedPacket>)
    ensures
        digests_of(envelopes).finite(),
        after_pushes(Seq::empty(), capacity, envelopes).len() == if capacity <= digests_of(
            envelopes,
        ).len() {
            capacity
        } else {
            digests_of(envelopes).len()
        },
{
    let after = after_pushes(Seq::empty(), capacity, envelopes);
    lemma_after_pushes_keeps_order(capacity, envelopes);
    lemma_digests_finite(envelopes);
    lemma_index_size(after);
    assert(digests_of(after).subset_of(digests_of(envelopes)));
    lemma_len_subset(digests_of(after), digests_of(envelopes));
    if after.len() < capacity {
        assert(digests_of(after) =~= digests_of(envelopes));
    }
}

/// Of the envelopes shown to a callback those are kept of which it said
/// so: as many as it gave that answer.
pub proof fn lemma_kept_len(envelopes: Seq<DeserializedPacket>, keeps: Seq<bool>)
    requires
        envelopes.len() == keeps.len(),
    ensures
        kept(envelopes, keeps).len() == count_kept(keeps),
    decreases envelopes.len(),
{
    if envelopes.len() > 0 {
        lemma_kept_len(envelopes.drop_last(), keeps.drop_last());
    }
}

/// Records of packets that hold the same message have the same hash.
pub proof fn lemma_same_message_same_hash(
    a: ImmutableDeserializedPacket,
    b: ImmutableDeserializedPacket,
)
    requires
        a.consistent(),
        b.consistent(),
        message_bytes(a.spec_original_packet().bytes()) == message_bytes(
            b.spec_original_packet().bytes(),
        ),
    ensures
        a.spec_message_hash().digest() == b.spec_message_hash().digest(),
{
}

} // verus!
