//! The buffer as a sequence of envelopes: what each operation makes of it.
//!
//! The residents are listed in the order in which they came. The order of
//! keys decides which resident leaves; among residents of one key the one
//! that came first leaves first.
use crate::heap::{is_greatest, is_least, key_le, Key};
use crate::record::DeserializedPacket;
use vstd::multiset::Multiset;
use vstd::prelude::*;

verus! {

/// The keys of the residents, each as often as a resident has it.
pub open spec fn keys_of(residents: Seq<DeserializedPacket>) -> Multiset<Key> {
    residents.map_values(|e: DeserializedPacket| e.key()).to_multiset()
}

/// Some resident has the digest `digest`.
pub open spec fn holds_digest(residents: Seq<DeserializedPacket>, digest: Seq<u8>) -> bool {
    exists|i: int| 0 <= i < residents.len() && #[trigger] residents[i].digest() == digest
}

/// No two residents have the same digest.
pub open spec fn distinct_digests(residents: Seq<DeserializedPacket>) -> bool {
    forall|i: int, j: int|
        0 <= i < j < residents.len() ==> #[trigger] residents[i].digest()
            != #[trigger] residents[j].digest()
}

/// The index of the residents: each under the digest of its message.
pub open spec fn index_of(residents: Seq<DeserializedPacket>) -> Map<
    Seq<u8>,
    DeserializedPacket,
> {
    Map::new(
        |d: Seq<u8>| holds_digest(residents, d),
        |d: Seq<u8>|
            residents[choose|i: int|
                0 <= i < residents.len() && #[trigger] residents[i].digest() == d],
    )
}

/// `i` is the place of the first resident with the key `key`.
pub open spec fn is_first_at(residents: Seq<DeserializedPacket>, key: Key, i: int) -> bool {
    &&& 0 <= i < residents.len()
    &&& residents[i].key() == key
    &&& forall|j: int| 0 <= j < i ==> (#[trigger] residents[j]).key() != key
}

/// The place of the first resident with the key `key`.
pub open spec fn first_at(residents: Seq<DeserializedPacket>, key: Key) -> int {
    choose|i: int| is_first_at(residents, key, i)
}

/// The key of `keys` that comes before all others.
pub open spec fn least_key(keys: Multiset<Key>) -> Key {
    choose|k: Key| is_least(keys, k)
}

/// The key of `keys` that comes after all others.
pub open spec fn greatest_key(keys: Multiset<Key>) -> Key {
    choose|k: Key| is_greatest(keys, k)
}

/// What a push makes of the residents of a buffer with room for `capacity`,
/// and what it hands back.
///
/// An envelope whose digest is known changes nothing. While there is room
/// the envelope joins the residents. In a full buffer the least key decides:
/// where the envelope's own key is a least one it is handed back, and
/// otherwise the first resident with the least key leaves in its favour.
pub open spec fn pushed(
    residents: Seq<DeserializedPacket>,
    capacity: nat,
    envelope: DeserializedPacket,
) -> (Seq<DeserializedPacket>, Option<DeserializedPacket>) {
    if holds_digest(residents, envelope.digest()) {
        (residents, None)
    } else if residents.len() < capacity {
        (residents.push(envelope), None)
    } else {
        let least = least_key(keys_of(residents).insert(envelope.key()));
        if least == envelope.key() {
            (residents, Some(envelope))
        } else {
            let i = first_at(residents, least);
            (residents.remove(i).push(envelope), Some(residents[i]))
        }
    }
}

/// What popping the best resident makes of the residents, and the resident
/// that it hands out: the first one with the greatest key.
pub open spec fn popped(residents: Seq<DeserializedPacket>) -> (
    Seq<DeserializedPacket>,
    Option<DeserializedPacket>,
) {
    if residents.len() == 0 {
        (residents, None)
    } else {
        let i = first_at(residents, greatest_key(keys_of(residents)));
        (residents.remove(i), Some(residents[i]))
    }
}

/// The residents after `n` pops.
pub open spec fn after_pops(residents: Seq<DeserializedPacket>, n: nat) -> Seq<DeserializedPacket>
    decreases n,
{
    if n == 0 {
        residents
    } else {
        popped(after_pops(residents, (n - 1) as nat)).0
    }
}

/// What `n` pops hand out, in the order in which they do. Each pop must find
/// a resident.
pub open spec fn pops(residents: Seq<DeserializedPacket>, n: nat) -> Seq<DeserializedPacket>
    decreases n,
{
    if n == 0 {
        Seq::empty()
    } else {
        pops(residents, (n - 1) as nat).push(
            popped(after_pops(residents, (n - 1) as nat)).1.unwrap(),
        )
    }
}

/// The residents after each of `envelopes` has been pushed in turn.
pub open spec fn after_pushes(
    residents: Seq<DeserializedPacket>,
    capacity: nat,
    envelopes: Seq<DeserializedPacket>,
) -> Seq<DeserializedPacket>
    decreases envelopes.len(),
{
    if envelopes.len() == 0 {
        residents
    } else {
        pushed(after_pushes(residents, capacity, envelopes.drop_last()), capacity, envelopes.last()).0
    }
}

/// How many of the pushes of `envelopes` hand an envelope back.
pub open spec fn pushes_dropped(
    residents: Seq<DeserializedPacket>,
    capacity: nat,
    envelopes: Seq<DeserializedPacket>,
) -> nat
    decreases envelopes.len(),
{
    if envelopes.len() == 0 {
        0
    } else {
        let before = pushes_dropped(residents, capacity, envelopes.drop_last());
        let last = pushed(
            after_pushes(residents, capacity, envelopes.drop_last()),
            capacity,
            envelopes.last(),
        );
        if last.1.is_some() {
            before + 1
        } else {
            before
        }
    }
}

/// Those of `envelopes` whose place is marked in `keeps`, in their order.
pub open spec fn kept(envelopes: Seq<DeserializedPacket>, keeps: Seq<bool>) -> Seq<
    DeserializedPacket,
>
    decreases envelopes.len(),
{
    if envelopes.len() == 0 || keeps.len() != envelopes.len() {
        Seq::empty()
    } else {
        let rest = kept(envelopes.drop_last(), keeps.drop_last());
        if keeps.last() {
            rest.push(envelopes.last())
        } else {
            rest
        }
    }
}

/// How many of the answers say to keep.
pub open spec fn count_kept(keeps: Seq<bool>) -> nat
    decreases keeps.len(),
{
    if keeps.len() == 0 {
        0
    } else if keeps.last() {
        count_kept(keeps.drop_last()) + 1
    } else {
        count_kept(keeps.drop_last())
    }
}

/// The digests that occur among the envelopes.
pub open spec fn digests_of(envelopes: Seq<DeserializedPacket>) -> Set<Seq<u8>> {
    index_of(envelopes).dom()
}

/// The order of keys is total: of two keys one comes no later than the
/// other, and two keys that come no later than each other are one key.
pub proof fn lemma_key_order(a: Key, b: Key)
    ensures
        key_le(a, b) || key_le(b, a),
        key_le(a, b) && key_le(b, a) ==> a == b,
{
}

/// A set of keys has one least key at most.
pub proof fn lemma_least_key(keys: Multiset<Key>, k: Key)
    requires
        is_least(keys, k),
    ensures
        least_key(keys) == k,
{
    let chosen = least_key(keys);
    assert(is_least(keys, chosen));
    assert(keys.contains(chosen) && keys.contains(k));
    assert(key_le(k, chosen) && key_le(chosen, k));
}

/// A set of keys has one greatest key at most.
pub proof fn lemma_greatest_key(keys: Multiset<Key>, k: Key)
    requires
        is_greatest(keys, k),
    ensures
        greatest_key(keys) == k,
{
    let chosen = greatest_key(keys);
    assert(is_greatest(keys, chosen));
    assert(keys.contains(chosen) && keys.contains(k));
    assert(key_le(k, chosen) && key_le(chosen, k));
}

/// The first place of a key is one place.
pub proof fn lemma_first_at(residents: Seq<DeserializedPacket>, key: Key, i: int)
    requires
        is_first_at(residents, key, i),
    ensures
        first_at(residents, key) == i,
{
    let chosen = first_at(residents, key);
    assert(is_first_at(residents, key, chosen));
    if chosen < i {
        assert(residents[chosen].key() != key);
    }
    if i < chosen {
        assert(residents[i].key() != key);
    }
}

/// A key is among the keys of the residents just when a resident has it.
pub proof fn lemma_keys_of_contains(residents: Seq<DeserializedPacket>, key: Key)
    ensures
        keys_of(residents).contains(key) <==> exists|i: int|
            0 <= i < residents.len() && (#[trigger] residents[i]).key() == key,
        keys_of(residents).len() == residents.len(),
{
    let keys = residents.map_values(|e: DeserializedPacket| e.key());
    keys.to_multiset_ensures();
    if keys.contains(key) {
        let i = choose|i: int| 0 <= i < keys.len() && keys[i] == key;
        assert(residents[i].key() == key);
    }
    if exists|i: int| 0 <= i < residents.len() && (#[trigger] residents[i]).key() == key {
        let i = choose|i: int| 0 <= i < residents.len() && (#[trigger] residents[i]).key() == key;
        assert(keys[i] == key);
        assert(keys.contains(key));
    }
}

/// A resident that joins adds its key.
pub proof fn lemma_keys_of_push(residents: Seq<DeserializedPacket>, envelope: DeserializedPacket)
    ensures
        keys_of(residents.push(envelope)) == keys_of(residents).insert(envelope.key()),
{
    let f = |e: DeserializedPacket| e.key();
    assert(residents.push(envelope).map_values(f) =~= residents.map_values(f).push(
        envelope.key(),
    ));
    residents.map_values(f).to_multiset_ensures();
}

/// A resident that leaves takes its key along.
pub proof fn lemma_keys_of_remove(residents: Seq<DeserializedPacket>, i: int)
    requires
        0 <= i < residents.len(),
    ensures
        keys_of(residents.remove(i)) == keys_of(residents).remove(residents[i].key()),
{
    let f = |e: DeserializedPacket| e.key();
    assert(residents.remove(i).map_values(f) =~= residents.map_values(f).remove(i));
    residents.map_values(f).to_multiset_ensures();
}

/// Where nobody resides there are no keys.
pub proof fn lemma_keys_of_none(residents: Seq<DeserializedPacket>)
    requires
        residents.len() == 0,
    ensures
        keys_of(residents) == Multiset::<Key>::empty(),
{
    lemma_keys_of_contains(residents, (0u64, 0u64));
    assert(keys_of(residents).len() == 0);
    assert(keys_of(residents) =~= Multiset::<Key>::empty());
}

/// The digests stay distinct when a resident leaves.
pub proof fn lemma_distinct_after_remove(residents: Seq<DeserializedPacket>, i: int)
    requires
        distinct_digests(residents),
        0 <= i < residents.len(),
    ensures
        distinct_digests(residents.remove(i)),
        forall|digest: Seq<u8>|
            holds_digest(residents.remove(i), digest) ==> holds_digest(residents, digest),
{
    let rest = residents.remove(i);
    assert forall|a: int, b: int| 0 <= a < b < rest.len() implies (#[trigger] rest[a]).digest() != (
    #[trigger] rest[b]).digest() by {
        let before_a = if a < i {
            a
        } else {
            a + 1
        };
        let before_b = if b < i {
            b
        } else {
            b + 1
        };
        assert(rest[a] == residents[before_a]);
        assert(rest[b] == residents[before_b]);
    }
    assert forall|digest: Seq<u8>| holds_digest(rest, digest) implies holds_digest(
        residents,
        digest,
    ) by {
        let a = choose|a: int| 0 <= a < rest.len() && #[trigger] rest[a].digest() == digest;
        let before_a = if a < i {
            a
        } else {
            a + 1
        };
        assert(residents[before_a].digest() == digest);
    }
}

/// The digests stay distinct when an envelope joins whose digest no
/// resident has.
pub proof fn lemma_distinct_after_push(
    residents: Seq<DeserializedPacket>,
    envelope: DeserializedPacket,
)
    requires
        distinct_digests(residents),
        !holds_digest(residents, envelope.digest()),
    ensures
        distinct_digests(residents.push(envelope)),
{
    let all = residents.push(envelope);
    assert forall|a: int, b: int| 0 <= a < b < all.len() implies (#[trigger] all[a]).digest() != (
    #[trigger] all[b]).digest() by {
        assert(all[a] == residents[a]);
        if b < residents.len() {
            assert(all[b] == residents[b]);
        } else {
            assert(residents[a].digest() != envelope.digest());
        }
    }
}

} // verus!
