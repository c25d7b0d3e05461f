use pending_packets::ingest::{
    deserialize_packets, keep_made, transactions_to_deserialized_packets,
};
use pending_packets::packet::{Meta, Packet, SourceAddr, PACKET_DATA_SIZE};
use pending_packets::record::{
    get_priority, get_priority_checked, packet_message, priority_from_budget, DeserializedPacket,
    DeserializedPacketError, MessageHash,
};
use pending_packets::wire::{locate_message, PrefixError};
use solana_sdk::compute_budget::ComputeBudgetInstruction;
use solana_sdk::instruction::Instruction;
use solana_sdk::message::{Message, SanitizedVersionedMessage, VersionedMessage};
use solana_sdk::pubkey::Pubkey;
use solana_sdk::signature::{Keypair, Signer};
use solana_sdk::system_instruction;
use solana_sdk::system_transaction;
use solana_sdk::transaction::{SanitizedVersionedTransaction, Transaction, VersionedTransaction};
use std::cmp::Ordering;

fn meta(sender_stake: u64, is_simple_vote_tx: bool) -> Meta {
    Meta {
        addr: SourceAddr::V4([127, 0, 0, 1]),
        port: 8001,
        sender_stake,
        is_simple_vote_tx,
    }
}

fn transfer() -> Transaction {
    system_transaction::transfer(
        &Keypair::new(),
        &solana_sdk::pubkey::new_rand(),
        1,
        solana_sdk::hash::Hash::new_unique(),
    )
}

fn wire_bytes(tx: &Transaction) -> Vec<u8> {
    let wire = solana_sdk::packet::Packet::from_data(None, tx).unwrap();
    wire.data(..).unwrap().to_vec()
}

fn with_budget(instructions: &[Instruction]) -> Transaction {
    let payer = Keypair::new();
    let mut all = instructions.to_vec();
    all.push(system_instruction::transfer(
        &payer.pubkey(),
        &solana_sdk::pubkey::new_rand(),
        1,
    ));
    let message = Message::new(&all, Some(&payer.pubkey()));
    Transaction::new(&[&payer], message, solana_sdk::hash::Hash::new_unique())
}

fn sanitized(instructions: &[Instruction]) -> SanitizedVersionedMessage {
    let payer = Pubkey::new_unique();
    SanitizedVersionedMessage::try_from(VersionedMessage::Legacy(Message::new(
        instructions,
        Some(&payer),
    )))
    .unwrap()
}

#[test]
fn test_get_priority_with_valid_request_heap_frame_tx() {
    let payer = Pubkey::new_unique();
    let message = SanitizedVersionedMessage::try_from(VersionedMessage::Legacy(Message::new(
        &[ComputeBudgetInstruction::request_heap_frame(32 * 1024)],
        Some(&payer),
    )))
    .unwrap();
    assert_eq!(get_priority(&message), Some(0));
}

#[test]
fn priority_is_price_times_units_in_whole_units() {
    let message = sanitized(&[
        ComputeBudgetInstruction::set_compute_unit_price(5_000_000),
        ComputeBudgetInstruction::set_compute_unit_limit(200_000),
    ]);
    assert_eq!(get_priority(&message), Some(1_000_000));

    // The directives may come in any order, and the quotient is rounded down.
    let message = sanitized(&[
        ComputeBudgetInstruction::set_compute_unit_limit(3),
        ComputeBudgetInstruction::set_compute_unit_price(999_999),
    ]);
    assert_eq!(get_priority(&message), Some(2));
}

#[test]
fn priority_without_a_price_is_zero() {
    let message = sanitized(&[ComputeBudgetInstruction::set_compute_unit_limit(200_000)]);
    assert_eq!(get_priority(&message), Some(0));
    let message = sanitized(&[]);
    assert_eq!(get_priority(&message), Some(0));
}

#[test]
fn malformed_or_repeated_directives_have_no_priority() {
    // Not a multiple of 1024.
    let message = sanitized(&[ComputeBudgetInstruction::request_heap_frame(32 * 1024 + 1)]);
    assert_eq!(get_priority(&message), None);
    // Below the least heap frame.
    let message = sanitized(&[ComputeBudgetInstruction::request_heap_frame(1024)]);
    assert_eq!(get_priority(&message), None);
    let message = sanitized(&[
        ComputeBudgetInstruction::set_compute_unit_price(1),
        ComputeBudgetInstruction::set_compute_unit_price(2),
    ]);
    assert_eq!(get_priority(&message), None);
    let message = sanitized(&[
        ComputeBudgetInstruction::set_compute_unit_limit(1),
        ComputeBudgetInstruction::set_compute_unit_limit(1),
    ]);
    assert_eq!(get_priority(&message), None);
}

#[test]
fn priority_from_budget_exact_values() {
    assert_eq!(priority_from_budget(0, 0), 0);
    assert_eq!(priority_from_budget(0, 1_400_000), 0);
    assert_eq!(priority_from_budget(1, 999_999), 0);
    assert_eq!(priority_from_budget(1, 1_000_000), 1);
    assert_eq!(priority_from_budget(1_000_000, 1), 1);
    assert_eq!(priority_from_budget(1_999_999, 1), 1);
    assert_eq!(priority_from_budget(7, 1_400_000), 9);
    assert_eq!(
        priority_from_budget(u64::MAX, 1_000_000),
        u64::MAX
    );
    assert_eq!(priority_from_budget(u64::MAX, 1), u64::MAX / 1_000_000);
    // The product in whole units no longer fits: the greatest priority.
    assert_eq!(priority_from_budget(u64::MAX, 1_400_000), u64::MAX);
    assert_eq!(priority_from_budget(u64::MAX, u64::MAX), u64::MAX);
}

#[test]
fn a_record_holds_what_its_packet_says() {
    let tx = transfer();
    let bytes = wire_bytes(&tx);
    let packet = Packet::new(bytes.clone(), meta(77, true)).unwrap();
    let envelope = DeserializedPacket::new(packet.clone()).unwrap();
    let record = envelope.immutable_section();
    assert!(!envelope.forwarded);
    assert!(!envelope.forwarded());
    assert_eq!(record.original_packet(), &packet);
    assert_eq!(record.original_packet().data(), &bytes[..]);
    assert_eq!(record.original_packet().meta(), meta(77, true));
    assert_eq!(record.sender_stake(), 77);
    assert!(record.is_simple_vote());
    assert_eq!(record.priority(), 0);
    let expected: VersionedTransaction = tx.clone().into();
    assert_eq!(record.transaction().get_message().message, expected.message);
    // The hash is the digest of the message, not the message or the packet.
    assert_eq!(
        record.message_hash(),
        &MessageHash(tx.message.hash().to_bytes())
    );
    assert_eq!(
        record.message_hash().0,
        Message::hash_raw_message(&tx.message_data()).to_bytes()
    );
}

#[test]
fn records_of_the_same_message_have_the_same_hash() {
    let tx = transfer();
    let bytes = wire_bytes(&tx);
    let a = DeserializedPacket::new(Packet::new(bytes.clone(), meta(1, false)).unwrap()).unwrap();
    let b = DeserializedPacket::new(Packet::new(bytes, meta(2, true)).unwrap()).unwrap();
    assert_eq!(
        a.immutable_section().message_hash(),
        b.immutable_section().message_hash()
    );
    assert!(a
        .immutable_section()
        .message_hash()
        .same_as(b.immutable_section().message_hash()));
    let other = DeserializedPacket::new(Packet::new(wire_bytes(&transfer()), meta(1, false)).unwrap())
        .unwrap();
    assert_ne!(
        a.immutable_section().message_hash(),
        other.immutable_section().message_hash()
    );
    assert!(!a
        .immutable_section()
        .message_hash()
        .same_as(other.immutable_section().message_hash()));
}

#[test]
fn message_hashes_differ_in_any_byte() {
    let a = MessageHash([7u8; 32]);
    let mut bytes = [7u8; 32];
    assert!(a.same_as(&MessageHash(bytes)));
    bytes[31] = 8;
    assert!(!a.same_as(&MessageHash(bytes)));
    bytes[31] = 7;
    bytes[0] = 0;
    assert!(!a.same_as(&MessageHash(bytes)));
}

#[test]
fn decoding_gives_back_the_encoded_transaction() {
    let tx = with_budget(&[ComputeBudgetInstruction::set_compute_unit_price(3)]);
    let packet = Packet::new(wire_bytes(&tx), meta(0, false)).unwrap();
    let envelope = DeserializedPacket::new(packet).unwrap();
    let expected: VersionedTransaction = tx.into();
    let record = envelope.immutable_section();
    assert_eq!(record.transaction().get_message().message, expected.message);
}

#[test]
fn a_packet_gets_the_priority_of_its_directives() {
    let tx = with_budget(&[
        ComputeBudgetInstruction::set_compute_unit_price(2_500_000),
        ComputeBudgetInstruction::set_compute_unit_limit(1_000_000),
    ]);
    let packet = Packet::new(wire_bytes(&tx), meta(0, false)).unwrap();
    let envelope = DeserializedPacket::new(packet.clone()).unwrap();
    assert_eq!(envelope.immutable_section().priority(), 2_500_000);
    // A priority handed in replaces that of the directives.
    let envelope = DeserializedPacket::new_internal(packet, Some(42)).unwrap();
    assert_eq!(envelope.immutable_section().priority(), 42);
}

#[test]
fn garbage_is_a_deserialization_error() {
    let packet = Packet::new(vec![1u8; 10], meta(0, false)).unwrap();
    assert!(matches!(
        DeserializedPacket::new(packet),
        Err(DeserializedPacketError::DeserializationError(_))
    ));
    let empty = Packet::new(Vec::new(), meta(0, false)).unwrap();
    assert!(matches!(
        DeserializedPacket::new(empty),
        Err(DeserializedPacketError::DeserializationError(_))
    ));
    // Bytes after the transaction are refused.
    let mut bytes = wire_bytes(&transfer());
    bytes.push(0);
    let trailing = Packet::new(bytes, meta(0, false)).unwrap();
    assert!(matches!(
        DeserializedPacket::new(trailing),
        Err(DeserializedPacketError::DeserializationError(_))
    ));
}

#[test]
fn an_unsigned_transaction_fails_sanitization() {
    let mut tx = transfer();
    tx.signatures.clear();
    let bytes = bincode::serialize(&tx).unwrap();
    let packet = Packet::new(bytes, meta(0, false)).unwrap();
    assert!(matches!(
        DeserializedPacket::new(packet),
        Err(DeserializedPacketError::SanitizeError(_))
    ));
}

#[test]
fn a_bad_directive_is_a_prioritization_failure() {
    let tx = with_budget(&[ComputeBudgetInstruction::request_heap_frame(1)]);
    let packet = Packet::new(wire_bytes(&tx), meta(0, false)).unwrap();
    assert!(matches!(
        DeserializedPacket::new(packet.clone()),
        Err(DeserializedPacketError::PrioritizationFailure)
    ));
    // With a priority handed in the directives are not read.
    assert!(DeserializedPacket::new_internal(packet, Some(1)).is_ok());
}

#[test]
fn packets_are_bounded() {
    assert_eq!(PACKET_DATA_SIZE, 1232);
    assert!(Packet::new(vec![0u8; PACKET_DATA_SIZE], meta(0, false)).is_some());
    assert!(Packet::new(vec![0u8; PACKET_DATA_SIZE + 1], meta(0, false)).is_none());
    let packet = Packet::new(vec![1, 2, 3], meta(5, true)).unwrap();
    assert_eq!(packet.data(), &[1u8, 2, 3][..]);
    assert_eq!(packet.meta(), meta(5, true));
    assert_eq!(packet.clone(), packet);
}

#[test]
fn the_message_follows_the_signatures() {
    // No signatures: the message is what follows the one-byte count.
    assert_eq!(locate_message(&[0, 9, 8, 7]), Ok(&[9u8, 8, 7][..]));
    assert_eq!(locate_message(&[0]), Ok(&[][..]));
    // One signature of 64 bytes.
    let mut bytes = vec![1u8];
    bytes.extend_from_slice(&[0xaa; 64]);
    bytes.extend_from_slice(&[5, 6]);
    assert_eq!(locate_message(&bytes), Ok(&[5u8, 6][..]));
    // The message may be empty, but the signatures must be whole.
    assert_eq!(locate_message(&bytes[..65]), Ok(&[][..]));
    assert_eq!(
        locate_message(&bytes[..64]),
        Err(PrefixError::SignatureOverflowed(1))
    );
    // Two signatures.
    let mut bytes = vec![2u8];
    bytes.extend_from_slice(&[0xbb; 128]);
    bytes.push(42);
    assert_eq!(locate_message(&bytes), Ok(&[42u8][..]));
}

#[test]
fn the_count_of_signatures_takes_one_to_three_bytes() {
    // 0x80 0x01 is 128, in two bytes: 128 signatures do not fit.
    assert_eq!(
        locate_message(&[0x80, 0x01, 0, 0]),
        Err(PrefixError::SignatureOverflowed(2))
    );
    // 0xff 0xff 0x03 is 65535, in three bytes.
    assert_eq!(
        locate_message(&[0xff, 0xff, 0x03, 0]),
        Err(PrefixError::SignatureOverflowed(3))
    );
    // 0x80 0x80 0x01 is 16384.
    assert_eq!(
        locate_message(&[0x80, 0x80, 0x01]),
        Err(PrefixError::SignatureOverflowed(3))
    );
    // 0x7f is 127, in one byte.
    assert_eq!(
        locate_message(&[0x7f]),
        Err(PrefixError::SignatureOverflowed(1))
    );
    // A count of 129 in two bytes, with room for its signatures.
    let mut bytes = vec![0x81u8, 0x01];
    bytes.extend_from_slice(&[0u8; 129 * 64]);
    bytes.extend_from_slice(&[3, 4, 5]);
    assert_eq!(locate_message(&bytes), Ok(&[3u8, 4, 5][..]));
}

#[test]
fn a_malformed_count_is_a_short_vec_error() {
    // Nothing to read.
    assert_eq!(locate_message(&[]), Err(PrefixError::ShortVec));
    // The count goes on, the bytes do not.
    assert_eq!(locate_message(&[0x80]), Err(PrefixError::ShortVec));
    assert_eq!(locate_message(&[0x80, 0x80]), Err(PrefixError::ShortVec));
    // A zero byte behind the first: another encoding of a smaller count.
    assert_eq!(locate_message(&[0x80, 0x00]), Err(PrefixError::ShortVec));
    assert_eq!(
        locate_message(&[0x80, 0x80, 0x00]),
        Err(PrefixError::ShortVec)
    );
    // The third byte goes on.
    assert_eq!(
        locate_message(&[0x80, 0x80, 0x80, 0x01]),
        Err(PrefixError::ShortVec)
    );
    // More than sixteen bits.
    assert_eq!(
        locate_message(&[0xff, 0xff, 0x04]),
        Err(PrefixError::ShortVec)
    );
}

#[test]
fn packet_message_reports_the_errors_of_the_count() {
    let packet = Packet::new(vec![0x80], meta(0, false)).unwrap();
    assert!(matches!(
        packet_message(&packet),
        Err(DeserializedPacketError::ShortVecError(()))
    ));
    let packet = Packet::new(vec![3, 1, 2], meta(0, false)).unwrap();
    assert!(matches!(
        packet_message(&packet),
        Err(DeserializedPacketError::SignatureOverflowed(1))
    ));
    let tx = transfer();
    let packet = Packet::new(wire_bytes(&tx), meta(0, false)).unwrap();
    assert_eq!(packet_message(&packet).unwrap(), &tx.message_data()[..]);
}

#[test]
fn deserialize_packets_passes_over_what_fails() {
    let good_a = Packet::new(wire_bytes(&transfer()), meta(1, false)).unwrap();
    let bad = Packet::new(vec![9u8; 40], meta(2, false)).unwrap();
    let good_b = Packet::new(wire_bytes(&transfer()), meta(3, true)).unwrap();
    let batch = vec![good_a.clone(), bad, good_b.clone()];
    let records = deserialize_packets(&batch, &[2, 1, 0, 2]);
    let packets: Vec<Packet> = records
        .iter()
        .map(|r| r.immutable_section().original_packet().clone())
        .collect();
    assert_eq!(packets, vec![good_b.clone(), good_a, good_b]);
    assert!(deserialize_packets(&batch, &[]).is_empty());
    assert!(deserialize_packets(&batch, &[1]).is_empty());
}

#[test]
fn transactions_become_records_in_order() {
    let transactions = vec![transfer(), transfer(), transfer()];
    let records = transactions_to_deserialized_packets(&transactions).unwrap();
    assert_eq!(records.len(), 3);
    for (record, tx) in records.iter().zip(transactions.iter()) {
        let section = record.immutable_section();
        assert_eq!(section.original_packet().data(), &wire_bytes(tx)[..]);
        assert_eq!(section.message_hash().0, tx.message.hash().to_bytes());
        assert_eq!(section.sender_stake(), 0);
        assert!(!section.is_simple_vote());
        assert!(!record.forwarded);
    }
    assert!(transactions_to_deserialized_packets(&[]).unwrap().is_empty());

    let mut unsigned = transfer();
    unsigned.signatures.clear();
    assert!(matches!(
        transactions_to_deserialized_packets(&[transfer(), unsigned]),
        Err(DeserializedPacketError::SanitizeError(_))
    ));
}

#[test]
fn records_are_ordered_by_priority_then_stake() {
    let make = |priority: u64, stake: u64| {
        DeserializedPacket::new_internal(
            Packet::new(wire_bytes(&transfer()), meta(stake, false)).unwrap(),
            Some(priority),
        )
        .unwrap()
    };
    let low = make(1, 9);
    let high = make(2, 0);
    let high_rich = make(2, 5);
    let high_twin = make(2, 5);
    assert_eq!(low.cmp(&high), Ordering::Less);
    assert_eq!(high.cmp(&low), Ordering::Greater);
    assert_eq!(high.cmp(&high_rich), Ordering::Less);
    assert_eq!(high_rich.cmp(&high), Ordering::Greater);
    assert_eq!(high_rich.cmp(&high_twin), Ordering::Equal);
    assert_eq!(low.partial_cmp(&high), Some(Ordering::Less));
    assert_eq!(high_rich.partial_cmp(&high_twin), Some(Ordering::Equal));
    assert!(low < high);
    assert!(high_rich > high);
    assert_eq!(
        low.immutable_section().cmp(high.immutable_section()),
        Ordering::Less
    );
    assert_eq!(
        high_rich
            .immutable_section()
            .partial_cmp(high_twin.immutable_section()),
        Some(Ordering::Equal)
    );
}

#[test]
fn a_clone_shares_the_record() {
    let mut a = DeserializedPacket::new(Packet::new(wire_bytes(&transfer()), meta(1, false)).unwrap())
        .unwrap();
    let b = a.clone();
    assert_eq!(a, b);
    assert!(std::rc::Rc::ptr_eq(a.immutable_section(), b.immutable_section()));
    a.set_forwarded(true);
    assert!(a.forwarded());
    assert!(!b.forwarded());
    assert_ne!(a, b);
}

#[test]
fn keep_made_keeps_the_records_in_order() {
    let make = |stake: u64| {
        DeserializedPacket::new(Packet::new(wire_bytes(&transfer()), meta(stake, false)).unwrap())
            .unwrap()
    };
    let a = make(1);
    let b = make(2);
    let outcomes = vec![
        Err(DeserializedPacketError::ShortVecError(())),
        Ok(a.clone()),
        Err(DeserializedPacketError::PrioritizationFailure),
        Ok(b.clone()),
        Ok(a.clone()),
        Err(DeserializedPacketError::SignatureOverflowed(3)),
    ];
    assert_eq!(keep_made(&outcomes), vec![a.clone(), b, a]);
    assert!(keep_made(&Vec::new()).is_empty());
    assert!(keep_made(&vec![Err(DeserializedPacketError::PrioritizationFailure)]).is_empty());
}

#[test]
fn from_sanitized_reports_each_outcome() {
    let tx = transfer();
    let sanitized = SanitizedVersionedTransaction::try_new(tx.clone().into()).unwrap();

    let no_count = Packet::new(vec![0x80], meta(0, false)).unwrap();
    assert!(matches!(
        DeserializedPacket::from_sanitized(no_count, sanitized.clone(), Some(1)),
        Err(DeserializedPacketError::ShortVecError(()))
    ));

    let too_short = Packet::new(vec![3, 1, 2], meta(0, false)).unwrap();
    assert!(matches!(
        DeserializedPacket::from_sanitized(too_short, sanitized.clone(), None),
        Err(DeserializedPacketError::SignatureOverflowed(1))
    ));

    let packet = Packet::new(wire_bytes(&tx), meta(9, true)).unwrap();
    assert!(matches!(
        DeserializedPacket::from_sanitized(packet.clone(), sanitized.clone(), None),
        Err(DeserializedPacketError::PrioritizationFailure)
    ));

    let envelope =
        DeserializedPacket::from_sanitized(packet.clone(), sanitized.clone(), Some(11)).unwrap();
    let record = envelope.immutable_section();
    assert!(!envelope.forwarded);
    assert_eq!(record.priority(), 11);
    assert_eq!(record.sender_stake(), 9);
    assert!(record.is_simple_vote());
    assert_eq!(record.original_packet(), &packet);
    assert_eq!(record.transaction(), &sanitized);
    assert_eq!(record.message_hash().0, tx.message.hash().to_bytes());
}

#[test]
fn the_first_transaction_that_fails_gives_the_error() {
    let payer = Pubkey::new_unique();
    let bulky = Instruction::new_with_bytes(Pubkey::new_unique(), &[0u8; 2000], vec![]);
    let too_large = Transaction::new_unsigned(Message::new(&[bulky], Some(&payer)));
    let mut unsigned = transfer();
    unsigned.signatures.clear();

    // A transaction that does not fit in a packet.
    assert!(matches!(
        transactions_to_deserialized_packets(&[transfer(), too_large.clone()]),
        Err(DeserializedPacketError::DeserializationError(_))
    ));
    assert!(matches!(
        transactions_to_deserialized_packets(&[too_large.clone(), unsigned.clone()]),
        Err(DeserializedPacketError::DeserializationError(_))
    ));
    assert!(matches!(
        transactions_to_deserialized_packets(&[unsigned, too_large, transfer()]),
        Err(DeserializedPacketError::SanitizeError(_))
    ));
    // Nothing to gather: nothing gathered, and no error.
    assert_eq!(transactions_to_deserialized_packets(&[]).unwrap(), vec![]);
    let one = transfer();
    let records = transactions_to_deserialized_packets(&[one.clone()]).unwrap();
    assert_eq!(records.len(), 1);
    assert_eq!(
        records[0].immutable_section().original_packet().meta(),
        Meta {
            addr: SourceAddr::V4([0, 0, 0, 0]),
            port: 0,
            sender_stake: 0,
            is_simple_vote_tx: false,
        }
    );
}

#[test]
fn a_message_that_fails_its_checks_has_no_priority() {
    let good = sanitized(&[
        ComputeBudgetInstruction::set_compute_unit_price(4_000_000),
        ComputeBudgetInstruction::set_compute_unit_limit(500_000),
    ]);
    assert_eq!(get_priority_checked(&good), Some(2_000_000));
    assert_eq!(get_priority_checked(&good), get_priority(&good));
    let plain = sanitized(&[]);
    assert_eq!(get_priority_checked(&plain), Some(0));
    let repeated = sanitized(&[
        ComputeBudgetInstruction::set_compute_unit_price(1),
        ComputeBudgetInstruction::set_compute_unit_price(1),
    ]);
    assert_eq!(get_priority_checked(&repeated), None);

    // The program id of the instruction is no account key of the message.
    let payer = Pubkey::new_unique();
    let mut message = Message::new(
        &[ComputeBudgetInstruction::set_compute_unit_price(4_000_000)],
        Some(&payer),
    );
    message.instructions[0].program_id_index = 200;
    let unchecked = SanitizedVersionedMessage {
        message: VersionedMessage::Legacy(message),
    };
    assert_eq!(get_priority_checked(&unchecked), None);
}
