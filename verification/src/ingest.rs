//! Records in bulk: of the packets of a batch, and of transactions.
use crate::outside::{serialize_transaction, wire_form};
use crate::packet::{Meta, Packet, SourceAddr};
use crate::record::{DeserializedPacket, DeserializedPacketError};
use solana_sdk::transaction::Transaction;
use vstd::prelude::*;

verus! {

/// Those of `outcomes` that are records, in their order.
pub open spec fn made_in(outcomes: Seq<Result<DeserializedPacket, DeserializedPacketError>>) -> Seq<
    DeserializedPacket,
>
    decreases outcomes.len(),
{
    if outcomes.len() == 0 {
        Seq::empty()
    } else {
        match outcomes.last() {
            Ok(record) => made_in(outcomes.drop_last()).push(record),
            Err(_) => made_in(outcomes.drop_last()),
        }
    }
}

/// The records among the outcomes of making records, in their order. The
/// errors are dropped.
pub fn keep_made(outcomes: &Vec<Result<DeserializedPacket, DeserializedPacketError>>) -> (records:
    Vec<DeserializedPacket>)
    ensures
        records@ == made_in(outcomes@),
{
    let mut records: Vec<DeserializedPacket> = Vec::new();
    let mut i: usize = 0;
    while i < outcomes.len()
        invariant
            i <= outcomes@.len(),
            records@ == made_in(outcomes@.take(i as int)),
        decreases outcomes@.len() - i,
    {
        proof {
            assert(outcomes@.take(i + 1).drop_last() =~= outcomes@.take(i as int));
        }
        match &outcomes[i] {
            Ok(record) => {
                records.push(record.clone());
            },
            Err(_) => {},
        }
        i += 1;
    }
    proof {
        assert(outcomes@.take(i as int) =~= outcomes@);
    }
    records
}

/// The records of the packets at the given places of a batch, in the order
/// of the places. A packet of which no record can be made is passed over.
///
/// Each place has an outcome, as `DeserializedPacket::new` gives it for the
/// packet at that place; the records are those among the outcomes.
pub fn deserialize_packets(packet_batch: &[Packet], packet_indexes: &[usize]) -> (records: Vec<
    DeserializedPacket,
>)
    requires
        forall|i: int|
            0 <= i < packet_indexes@.len() ==> (#[trigger] packet_indexes@[i]) < packet_batch@.len(),
    ensures
        exists|outcomes: Seq<Result<DeserializedPacket, DeserializedPacketError>>|
            {
                &&& outcomes.len() == packet_indexes@.len()
                &&& forall|i: int|
                    0 <= i < outcomes.len() ==> DeserializedPacket::made_of(
                        #[trigger] outcomes[i],
                        packet_batch@[packet_indexes@[i] as int],
                        None,
                    )
                &&& records@ == #[trigger] made_in(outcomes)
            },
{
    let mut outcomes: Vec<Result<DeserializedPacket, DeserializedPacketError>> = Vec::new();
    let mut i: usize = 0;
    while i < packet_indexes.len()
        invariant
            i <= packet_indexes@.len(),
            forall|i: int|
                0 <= i < packet_indexes@.len() ==> (#[trigger] packet_indexes@[i])
                    < packet_batch@.len(),
            outcomes@.len() == i,
            forall|k: int|
                0 <= k < i ==> DeserializedPacket::made_of(
                    #[trigger] outcomes@[k],
                    packet_batch@[packet_indexes@[k] as int],
                    None,
                ),
        decreases packet_indexes@.len() - i,
    {
        let packet = packet_batch[packet_indexes[i]].clone();
        proof {
            DeserializedPacket::lemma_made_of_same_packet(
                packet,
                packet_batch@[packet_indexes@[i as int] as int],
            );
        }
        outcomes.push(DeserializedPacket::new(packet));
        i += 1;
    }
    keep_made(&outcomes)
}

/// The records of transactions, each sent as a packet of its own with no
/// sender and no stake. The first transaction of which no packet or no
/// record can be made gives the error.
pub fn transactions_to_deserialized_packets(transactions: &[Transaction]) -> (records: Result<
    Vec<DeserializedPacket>,
    DeserializedPacketError,
>)
    ensures
        exists|outcomes: Seq<Result<DeserializedPacket, DeserializedPacketError>>| #[trigger]
            gathered(outcomes, transactions@, records),
        transactions@.len() == 0 ==> (records matches Ok(made) && made@.len() == 0),
        records matches Ok(made) ==> made@.len() == transactions@.len() && forall|i: int|
            0 <= i < made@.len() ==> {
                let record = (#[trigger] made@[i]).record();
                &&& record.consistent()
                &&& record.spec_sender_stake() == 0
                &&& !record.spec_is_simple_vote()
                &&& !made@[i].is_forwarded()
            },
{
    let mut records: Vec<DeserializedPacket> = Vec::new();
    let ghost mut outcomes: Seq<Result<DeserializedPacket, DeserializedPacketError>> =
        Seq::empty();
    let mut i: usize = 0;
    while i < transactions.len()
        invariant
            i <= transactions@.len(),
            records@.len() == i,
            outcomes.len() == i,
            forall|k: int| 0 <= k < i ==> #[trigger] outcomes[k] == Ok::<
                DeserializedPacket,
                DeserializedPacketError,
            >(records@[k]),
            forall|k: int| 0 <= k < i ==> sent_alone(transactions@[k], #[trigger] outcomes[k]),
            forall|k: int|
                0 <= k < records@.len() ==> {
                    let record = (#[trigger] records@[k]).record();
                    &&& record.consistent()
                    &&& record.spec_sender_stake() == 0
                    &&& !record.spec_is_simple_vote()
                    &&& !records@[k].is_forwarded()
                },
        decreases transactions@.len() - i,
    {
        let data = match serialize_transaction(&transactions[i]) {
            Ok(data) => data,
            Err(e) => {
                let error = DeserializedPacketError::DeserializationError(e);
                proof {
                    let seen = outcomes.push(Err(error));
                    assert(seen.last() == Err::<DeserializedPacket, DeserializedPacketError>(error));
                    assert(sent_alone(transactions@[i as int], seen.last()));
                    assert(gathered(
                        seen,
                        transactions@,
                        Err::<Vec<DeserializedPacket>, DeserializedPacketError>(error),
                    ));
                }
                return Err(error);
            },
        };
        let meta = Meta {
            addr: SourceAddr::V4([0u8, 0u8, 0u8, 0u8]),
            port: 0,
            sender_stake: 0,
            is_simple_vote_tx: false,
        };
        let packet = Packet::new(data, meta).unwrap();
        let ghost sent = packet;
        let made = DeserializedPacket::new(packet);
        proof {
            assert(is_unsent(sent.spec_meta()));
            assert(DeserializedPacket::made_of(made, sent, None));
            assert(sent_alone(transactions@[i as int], made));
        }
        match made {
            Ok(record) => {
                records.push(record);
                proof {
                    outcomes = outcomes.push(Ok(record));
                }
            },
            Err(error) => {
                proof {
                    let seen = outcomes.push(Err(error));
                    assert(seen.last() == Err::<DeserializedPacket, DeserializedPacketError>(error));
                    assert(gathered(
                        seen,
                        transactions@,
                        Err::<Vec<DeserializedPacket>, DeserializedPacketError>(error),
                    ));
                }
                return Err(error);
            },
        }
        i += 1;
    }
    proof {
        assert(gathered(
            outcomes,
            transactions@,
            Ok::<Vec<DeserializedPacket>, DeserializedPacketError>(records),
        ));
    }
    Ok(records)
}

/// The metadata of a packet that nobody sent: no address, no port, no
/// stake, and no mark of a simple vote.
pub open spec fn is_unsent(meta: Meta) -> bool {
    &&& meta.addr matches SourceAddr::V4(octets) && octets@ == seq![0u8, 0u8, 0u8, 0u8]
    &&& meta.port == 0
    &&& meta.sender_stake == 0
    &&& !meta.is_simple_vote_tx
}

/// `outcome` is what comes of a transaction that is sent as a packet of its
/// own: a deserialization error where its encoding does not fit in a packet,
/// and else what `DeserializedPacket::new` makes of a packet that holds the
/// encoding and that nobody sent.
pub open spec fn sent_alone(
    transaction: Transaction,
    outcome: Result<DeserializedPacket, DeserializedPacketError>,
) -> bool {
    match wire_form(transaction) {
        None => outcome matches Err(DeserializedPacketError::DeserializationError(_)),
        Some(bytes) => exists|packet: Packet|
            packet.bytes() == bytes && is_unsent(packet.spec_meta())
                && #[trigger] DeserializedPacket::made_of(outcome, packet, None),
    }
}

/// `records` is what comes of gathering the records of `transactions`, of
/// which `outcomes` are the outcomes in their order as far as they were
/// needed. Each outcome is that of its transaction sent alone. Where every
/// transaction has a record, the records are those, one for each
/// transaction. Otherwise the outcomes end with the first error, which is
/// the error that comes back.
pub open spec fn gathered(
    outcomes: Seq<Result<DeserializedPacket, DeserializedPacketError>>,
    transactions: Seq<Transaction>,
    records: Result<Vec<DeserializedPacket>, DeserializedPacketError>,
) -> bool {
    &&& outcomes.len() <= transactions.len()
    &&& forall|i: int|
        0 <= i < outcomes.len() ==> sent_alone(transactions[i], #[trigger] outcomes[i])
    &&& match records {
        Ok(made) => {
            &&& outcomes.len() == transactions.len()
            &&& made@.len() == transactions.len()
            &&& forall|i: int|
                0 <= i < transactions.len() ==> #[trigger] outcomes[i] == Ok::<
                    DeserializedPacket,
                    DeserializedPacketError,
                >(made@[i])
        },
        Err(error) => {
            &&& 0 < outcomes.len()
            &&& outcomes.last() == Err::<DeserializedPacket, DeserializedPacketError>(error)
            &&& forall|i: int| 0 <= i < outcomes.len() - 1 ==> (#[trigger] outcomes[i]).is_ok()
        },
    }
}

} // verus!
