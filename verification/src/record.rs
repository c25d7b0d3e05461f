//! The record of one pending transaction, built from a packet, and the
//! envelope in which the buffer keeps it.
use crate::heap::Key;
use crate::outside::{
    budget_reading, decode_transaction, decoded, default_compute_budget, hash_raw_message,
    message_digest, message_of, message_passes_checks, passes_checks,
    process_budget_instructions, sanitize_transaction, sanitized, unit_limit, unit_price,
};
use crate::packet::Packet;
use crate::wire::{locate_message, message_bytes, PrefixError};
use solana_sdk::message::SanitizedVersionedMessage;
use solana_sdk::sanitize::SanitizeError;
use solana_sdk::transaction::SanitizedVersionedTransaction;
use std::rc::Rc;
use vstd::prelude::*;
use vstd::std_specs::convert::FromSpecImpl;

verus! {

/// The price units in one fee unit: a price is given in millionths.
pub const MICRO_UNITS_PER_UNIT: u64 = 1_000_000;

/// Why no record was made of a packet.
#[derive(Debug)]
pub enum DeserializedPacketError {
    /// The packet does not start with the count of its signatures.
    ShortVecError(()),
    /// The decoder did not read a transaction from the packet.
    DeserializationError(Box<bincode::ErrorKind>),
    /// The signatures that the packet counts do not fit in it; the number is
    /// the size of the count's encoding.
    SignatureOverflowed(usize),
    /// The transaction failed a structural check.
    SanitizeError(SanitizeError),
    /// A compute-budget directive of the transaction is malformed or
    /// repeated.
    PrioritizationFailure,
}

impl From<Box<bincode::ErrorKind>> for DeserializedPacketError {
    fn from(error: Box<bincode::ErrorKind>) -> (wrapped: Self) {
        DeserializedPacketError::DeserializationError(error)
    }
}

impl FromSpecImpl<Box<bincode::ErrorKind>> for DeserializedPacketError {
    open spec fn obeys_from_spec() -> bool {
        true
    }

    open spec fn from_spec(error: Box<bincode::ErrorKind>) -> Self {
        DeserializedPacketError::DeserializationError(error)
    }
}

impl From<SanitizeError> for DeserializedPacketError {
    fn from(error: SanitizeError) -> (wrapped: Self) {
        DeserializedPacketError::SanitizeError(error)
    }
}

impl FromSpecImpl<SanitizeError> for DeserializedPacketError {
    open spec fn obeys_from_spec() -> bool {
        true
    }

    open spec fn from_spec(error: SanitizeError) -> Self {
        DeserializedPacketError::SanitizeError(error)
    }
}

/// The digest of a message, by which the buffer tells transactions apart.
#[derive(Clone, Copy, Debug, PartialEq, Eq, Hash)]
pub struct MessageHash(pub [u8; 32]);

impl MessageHash {
    /// The 32 bytes of the digest.
    pub open spec fn digest(self) -> Seq<u8> {
        self.0@
    }

    /// Whether two hashes hold the same digest.
    pub fn same_as(&self, other: &MessageHash) -> (same: bool)
        ensures
            same == (self.digest() == other.digest()),
    {
        let mut i: usize = 0;
        while i < 32
            invariant
                i <= 32,
                forall|j: int| 0 <= j < i ==> self.0@[j] == other.0@[j],
            decreases 32 - i,
        {
            if self.0[i] != other.0[i] {
                return false;
            }
            i += 1;
        }
        assert(self.0@ =~= other.0@);
        true
    }
}

/// What is fixed of a pending transaction once its packet has been read.
#[derive(Debug, PartialEq, Eq)]
pub struct ImmutableDeserializedPacket {
    original_packet: Packet,
    transaction: SanitizedVersionedTransaction,
    message_hash: MessageHash,
    is_simple_vote: bool,
    priority: u64,
}

impl ImmutableDeserializedPacket {
    /// The packet that the record was made of.
    pub closed spec fn spec_original_packet(&self) -> &Packet {
        &self.original_packet
    }

    /// The sanitized transaction that the packet holds.
    pub closed spec fn spec_transaction(&self) -> &SanitizedVersionedTransaction {
        &self.transaction
    }

    /// The stake of the packet's sender.
    pub closed spec fn spec_sender_stake(&self) -> u64 {
        self.original_packet.spec_meta().sender_stake
    }

    /// The digest of the transaction's message.
    pub closed spec fn spec_message_hash(&self) -> &MessageHash {
        &self.message_hash
    }

    /// Whether the packet was marked as a simple vote.
    pub closed spec fn spec_is_simple_vote(&self) -> bool {
        self.is_simple_vote
    }

    /// The priority of the transaction.
    pub closed spec fn spec_priority(&self) -> u64 {
        self.priority
    }

    /// The record's place in the order: its priority, then its sender's
    /// stake.
    pub open spec fn key(&self) -> Key {
        (self.spec_priority(), self.spec_sender_stake())
    }

    /// The record is one of the packet: it holds the packet's bytes and
    /// metadata, and its hash is the digest of the message in them.
    pub open spec fn is_of(&self, packet: Packet) -> bool {
        &&& self.spec_original_packet().bytes() == packet.bytes()
        &&& self.spec_original_packet().spec_meta() == packet.spec_meta()
        &&& self.spec_is_simple_vote() == packet.spec_meta().is_simple_vote_tx
        &&& self.spec_sender_stake() == packet.spec_meta().sender_stake
        &&& self.consistent()
    }

    /// The record's hash is the digest of the message in its packet.
    pub open spec fn consistent(&self) -> bool {
        message_bytes(self.spec_original_packet().bytes()) matches Ok(message)
            && self.spec_message_hash().digest() == message_digest(message)
    }

    #[verifier::when_used_as_spec(spec_original_packet)]
    pub fn original_packet(&self) -> (packet: &Packet)
        ensures
            packet == self.spec_original_packet(),
    {
        &self.original_packet
    }

    #[verifier::when_used_as_spec(spec_transaction)]
    pub fn transaction(&self) -> (transaction: &SanitizedVersionedTransaction)
        ensures
            transaction == self.spec_transaction(),
    {
        &self.transaction
    }

    #[verifier::when_used_as_spec(spec_sender_stake)]
    pub fn sender_stake(&self) -> (stake: u64)
        ensures
            stake == self.spec_sender_stake(),
            stake == self.spec_original_packet().spec_meta().sender_stake,
    {
        self.original_packet.meta().sender_stake
    }

    #[verifier::when_used_as_spec(spec_message_hash)]
    pub fn message_hash(&self) -> (hash: &MessageHash)
        ensures
            hash == self.spec_message_hash(),
    {
        &self.message_hash
    }

    #[verifier::when_used_as_spec(spec_is_simple_vote)]
    pub fn is_simple_vote(&self) -> (vote: bool)
        ensures
            vote == self.spec_is_simple_vote(),
    {
        self.is_simple_vote
    }

    #[verifier::when_used_as_spec(spec_priority)]
    pub fn priority(&self) -> (priority: u64)
        ensures
            priority == self.spec_priority(),
    {
        self.priority
    }
}

/// A record and whether it has been forwarded: what the buffer keeps and
/// hands out.
#[derive(Debug, PartialEq, Eq)]
pub struct DeserializedPacket {
    immutable_section: Rc<ImmutableDeserializedPacket>,
    pub forwarded: bool,
}

/// `Rc::clone`: another handle on the same record.
#[verifier::external_body]
fn share_record(record: &Rc<ImmutableDeserializedPacket>) -> (shared: Rc<
    ImmutableDeserializedPacket,
>)
    ensures
        shared == *record,
{
    Rc::clone(record)
}

impl Clone for DeserializedPacket {
    fn clone(&self) -> (copy: Self)
        ensures
            copy == *self,
    {
        DeserializedPacket {
            immutable_section: share_record(&self.immutable_section),
            forwarded: self.forwarded,
        }
    }
}

/// The message of a packet: the bytes behind its signatures. A packet that
/// does not start with the count of its signatures, or is too short for
/// them, has none.
pub fn packet_message(packet: &Packet) -> (message: Result<&[u8], DeserializedPacketError>)
    ensures
        match message_bytes(packet.bytes()) {
            Ok(bytes) => message matches Ok(found) && found@ == bytes,
            Err(PrefixError::ShortVec) => message matches Err(
                DeserializedPacketError::ShortVecError(_),
            ),
            Err(PrefixError::SignatureOverflowed(size)) => message matches Err(
                DeserializedPacketError::SignatureOverflowed(s),
            ) && s == size,
        },
{
    match locate_message(packet.data()) {
        Ok(message) => Ok(message),
        Err(PrefixError::ShortVec) => Err(DeserializedPacketError::ShortVecError(())),
        Err(PrefixError::SignatureOverflowed(size)) => Err(
            DeserializedPacketError::SignatureOverflowed(size),
        ),
    }
}

/// The priority that a price per compute unit gives to a transaction of so
/// many units: their product in whole fee units, and the greatest priority
/// where that is too large for one.
pub open spec fn priority_of(price: u64, units: u64) -> u64 {
    if price * units / (MICRO_UNITS_PER_UNIT as int) <= u64::MAX {
        (price * units / (MICRO_UNITS_PER_UNIT as int)) as u64
    } else {
        u64::MAX
    }
}

/// The priority of a transaction from the price and the units that its
/// compute-budget directives set.
pub fn priority_from_budget(price: u64, units: u64) -> (priority: u64)
    ensures
        priority == priority_of(price, units),
{
    assert(price * units <= 0xffff_ffff_ffff_ffff * 0xffff_ffff_ffff_ffff) by (nonlinear_arith)
        requires
            price <= 0xffff_ffff_ffff_ffff,
            units <= 0xffff_ffff_ffff_ffff,
    ;
    let product: u128 = (price as u128) * (units as u128);
    let whole: u128 = product / (MICRO_UNITS_PER_UNIT as u128);
    if whole <= u64::MAX as u128 {
        whole as u64
    } else {
        u64::MAX
    }
}

/// The priority that the compute-budget directives of a message ask for, or
/// nothing where one of them is malformed or repeated. A message without a
/// price has priority 0. The message must have passed its checks.
pub fn get_priority(message: &SanitizedVersionedMessage) -> (priority: Option<u64>)
    requires
        passes_checks(*message),
    ensures
        priority == directive_priority(*message),
{
    let mut budget = default_compute_budget();
    match process_budget_instructions(&mut budget, message) {
        Ok(details) => Some(priority_from_budget(unit_price(&details), unit_limit(&budget))),
        Err(_) => None,
    }
}

/// The priority that the directives of a message give it: that of the price
/// and the units which the compute-budget reader finds in them, or nothing
/// where the reader finds a directive malformed or repeated.
pub open spec fn directive_priority(message: SanitizedVersionedMessage) -> Option<u64> {
    match budget_reading(message) {
        Some((price, units)) => Some(priority_of(price, units)),
        None => None,
    }
}

/// The priority that the directives of a message give it, or nothing for a
/// message that does not pass its checks, whose directives are not read.
pub fn get_priority_checked(message: &SanitizedVersionedMessage) -> (priority: Option<u64>)
    ensures
        priority == if passes_checks(*message) {
            directive_priority(*message)
        } else {
            None
        },
{
    if message_passes_checks(message) {
        get_priority(message)
    } else {
        None
    }
}

impl DeserializedPacket {
    /// The record of the envelope.
    pub closed spec fn record(&self) -> ImmutableDeserializedPacket {
        *self.immutable_section
    }

    /// Whether the envelope is marked as forwarded.
    pub closed spec fn is_forwarded(&self) -> bool {
        self.forwarded
    }

    /// The envelope's place in the order.
    pub open spec fn key(&self) -> Key {
        self.record().key()
    }

    /// The digest by which the buffer knows the envelope.
    pub open spec fn digest(&self) -> Seq<u8> {
        self.record().spec_message_hash().digest()
    }

    /// What `from_sanitized` returns for a packet, a transaction and a
    /// priority.
    pub open spec fn built_as(
        made: Result<DeserializedPacket, DeserializedPacketError>,
        packet: Packet,
        transaction: SanitizedVersionedTransaction,
        priority: Option<u64>,
    ) -> bool {
        match message_bytes(packet.bytes()) {
            Err(PrefixError::ShortVec) => made matches Err(
                DeserializedPacketError::ShortVecError(_),
            ),
            Err(PrefixError::SignatureOverflowed(size)) => made matches Err(
                DeserializedPacketError::SignatureOverflowed(s),
            ) && s == size,
            Ok(message) => match priority {
                None => made matches Err(DeserializedPacketError::PrioritizationFailure),
                Some(p) => made matches Ok(envelope) && !envelope.is_forwarded() && {
                    let record = envelope.record();
                    &&& record.is_of(packet)
                    &&& *record.spec_transaction() == transaction
                    &&& record.spec_message_hash().digest() == message_digest(message)
                    &&& record.spec_priority() == p
                },
            },
        }
    }

    /// Makes the record of a packet whose transaction has been decoded and
    /// sanitized, with the priority that was found for it. The message must
    /// lie in the packet, and a priority must have been found; the hash of
    /// the record is the digest of the message.
    pub fn from_sanitized(
        packet: Packet,
        transaction: SanitizedVersionedTransaction,
        priority: Option<u64>,
    ) -> (made: Result<Self, DeserializedPacketError>)
        ensures
            Self::built_as(made, packet, transaction, priority),
    {
        let message_hash = match packet_message(&packet) {
            Ok(message) => MessageHash(hash_raw_message(message)),
            Err(e) => {
                return Err(e);
            },
        };
        let is_simple_vote = packet.meta().is_simple_vote_tx;
        match priority {
            None => Err(DeserializedPacketError::PrioritizationFailure),
            Some(priority) => Ok(
                DeserializedPacket {
                    immutable_section: Rc::new(
                        ImmutableDeserializedPacket {
                            original_packet: packet,
                            transaction,
                            message_hash,
                            is_simple_vote,
                            priority,
                        },
                    ),
                    forwarded: false,
                },
            ),
        }
    }

    /// Makes the record of a packet, with the priority that its
    /// compute-budget directives give it.
    pub fn new(packet: Packet) -> (made: Result<Self, DeserializedPacketError>)
        ensures
            Self::made_of(made, packet, None),
    {
        Self::new_internal(packet, None)
    }

    /// What `new_internal` returns for a packet and a priority.
    ///
    /// Bytes that the decoder refuses give a deserialization error, and a
    /// transaction that the sanitizer refuses gives a sanitize error. Else
    /// the outcome is that of `from_sanitized` for the sanitized
    /// transaction, with the priority handed in or, without one, that of the
    /// directives of its message.
    pub open spec fn made_of(
        made: Result<DeserializedPacket, DeserializedPacketError>,
        packet: Packet,
        priority: Option<u64>,
    ) -> bool {
        match decoded(packet.bytes()) {
            None => made matches Err(DeserializedPacketError::DeserializationError(_)),
            Some(transaction) => match sanitized(transaction) {
                None => made matches Err(DeserializedPacketError::SanitizeError(_)),
                Some(checked) => Self::built_as(
                    made,
                    packet,
                    checked,
                    match priority {
                        Some(p) => Some(p),
                        None => directive_priority(message_of(checked)),
                    },
                ),
            },
        }
    }

    /// What holds of an outcome for a packet holds of it for any packet of
    /// the same bytes and metadata.
    pub proof fn lemma_made_of_same_packet(packet: Packet, other: Packet)
        requires
            packet.bytes() == other.bytes(),
            packet.spec_meta() == other.spec_meta(),
        ensures
            forall|
                made: Result<DeserializedPacket, DeserializedPacketError>,
                priority: Option<u64>,
            | #[trigger]
                Self::made_of(made, packet, priority) ==> Self::made_of(made, other, priority),
    {
    }

    /// Makes the record of a packet: decodes and sanitizes its transaction,
    /// finds its message and takes the digest, and gives it the priority
    /// handed in or, without one, that of its compute-budget directives.
    /// The first step that fails gives the error.
    pub fn new_internal(packet: Packet, priority: Option<u64>) -> (made: Result<
        Self,
        DeserializedPacketError,
    >)
        ensures
            Self::made_of(made, packet, priority),
    {
        let versioned_transaction = match decode_transaction(packet.data()) {
            Ok(transaction) => transaction,
            Err(e) => {
                return Err(DeserializedPacketError::DeserializationError(e));
            },
        };
        let sanitized_transaction = match sanitize_transaction(versioned_transaction) {
            Ok(transaction) => transaction,
            Err(e) => {
                return Err(DeserializedPacketError::SanitizeError(e));
            },
        };
        let priority = match priority {
            Some(p) => Some(p),
            None => get_priority(sanitized_transaction.get_message()),
        };
        Self::from_sanitized(packet, sanitized_transaction, priority)
    }

    /// Marks the envelope as forwarded or not; its record stays.
    pub fn set_forwarded(&mut self, forwarded: bool)
        ensures
            final(self).record() == old(self).record(),
            final(self).is_forwarded() == forwarded,
    {
        self.forwarded = forwarded;
    }

    /// Whether the envelope is marked as forwarded.
    pub fn forwarded(&self) -> (forwarded: bool)
        ensures
            forwarded == self.is_forwarded(),
    {
        self.forwarded
    }

    /// The record of the envelope.
    pub fn immutable_section(&self) -> (section: &Rc<ImmutableDeserializedPacket>)
        ensures
            **section == self.record(),
    {
        &self.immutable_section
    }
}

} // verus!
