//! What record construction takes on trust: the decoder, the sanitizer, the
//! message digest and the compute-budget reader. None of the contracts here
//! is proved; each says what the called function's source shows.
use crate::packet::PACKET_DATA_SIZE;
use solana_program_runtime::compute_budget::ComputeBudget;
use solana_program_runtime::prioritization_fee::PrioritizationFeeDetails;
use solana_sdk::message::{Message, SanitizedVersionedMessage};
use solana_sdk::packet::{Meta as WireMeta, Packet as WirePacket};
use solana_sdk::sanitize::SanitizeError;
use solana_sdk::transaction::{
    SanitizedVersionedTransaction, Transaction, TransactionError, VersionedTransaction,
};
use vstd::prelude::*;

verus! {

#[verifier::external_type_specification]
#[verifier::external_body]
pub struct ExVersionedTransaction(VersionedTransaction);

#[verifier::external_type_specification]
#[verifier::external_body]
pub struct ExSanitizedVersionedTransaction(SanitizedVersionedTransaction);

#[verifier::external_type_specification]
#[verifier::external_body]
pub struct ExSanitizedVersionedMessage(SanitizedVersionedMessage);

#[verifier::external_type_specification]
#[verifier::external_body]
pub struct ExSanitizeError(SanitizeError);

#[verifier::external_type_specification]
#[verifier::external_body]
pub struct ExDecodeErrorKind(bincode::ErrorKind);

#[verifier::external_type_specification]
#[verifier::external_body]
pub struct ExComputeBudget(ComputeBudget);

#[verifier::external_type_specification]
#[verifier::external_body]
pub struct ExPrioritizationFeeDetails(PrioritizationFeeDetails);

#[verifier::external_type_specification]
#[verifier::external_body]
pub struct ExTransactionError(TransactionError);

#[verifier::external_type_specification]
#[verifier::external_body]
pub struct ExTransaction(Transaction);

/// The versioned transaction that the fixed-size binary decoder reads from
/// exactly these bytes, if it reads one.
pub uninterp spec fn decoded(bytes: Seq<u8>) -> Option<VersionedTransaction>;

/// The bytes of the packet that holds the encoded transaction, if the
/// encoding fits in a packet.
pub uninterp spec fn wire_form(transaction: Transaction) -> Option<Seq<u8>>;

/// The transaction behind its structural checks, if it passes them.
pub uninterp spec fn sanitized(transaction: VersionedTransaction) -> Option<
    SanitizedVersionedTransaction,
>;

/// The message of a sanitized transaction.
pub uninterp spec fn message_of(
    transaction: SanitizedVersionedTransaction,
) -> SanitizedVersionedMessage;

/// Whether the message passes the structural checks of a message, with its
/// program ids among its own account keys.
pub uninterp spec fn passes_checks(message: SanitizedVersionedMessage) -> bool;

/// The digest of a message: 32 bytes that stand for its bytes.
pub uninterp spec fn message_digest(message: Seq<u8>) -> Seq<u8>;

/// What the compute-budget reader makes of the directives of a message: the
/// price of a compute unit and the compute units of the transaction, or
/// nothing where a directive is malformed or repeated.
pub uninterp spec fn budget_reading(message: SanitizedVersionedMessage) -> Option<(u64, u64)>;

/// The price of one compute unit that the fee details hold, in millionths
/// of the fee unit.
pub uninterp spec fn price_in(details: PrioritizationFeeDetails) -> u64;

/// The compute units that a budget allows to a transaction.
pub uninterp spec fn units_in(budget: ComputeBudget) -> u64;

/// `solana_sdk::packet::Packet::deserialize_slice` over the whole of a
/// packet that holds `bytes`: the versioned transaction that the bytes
/// encode, or the decoder's error. Both depend on the bytes alone.
#[verifier::external_body]
pub(crate) fn decode_transaction(bytes: &[u8]) -> (transaction: Result<
    VersionedTransaction,
    Box<bincode::ErrorKind>,
>)
    requires
        bytes@.len() <= PACKET_DATA_SIZE,
    ensures
        match transaction {
            Ok(t) => decoded(bytes@) == Some(t),
            Err(_) => decoded(bytes@).is_none(),
        },
{
    let mut buffer = [0u8; PACKET_DATA_SIZE];
    buffer[..bytes.len()].copy_from_slice(bytes);
    let mut meta = WireMeta::default();
    meta.size = bytes.len();
    WirePacket::new(buffer, meta).deserialize_slice(..)
}

/// `solana_sdk::packet::Packet::from_data` without a destination: the bytes
/// of the packet that holds the encoded transaction, or the encoder's error
/// where they would not fit in a packet. Both depend on the transaction
/// alone.
#[verifier::external_body]
pub(crate) fn serialize_transaction(transaction: &Transaction) -> (data: Result<
    Vec<u8>,
    Box<bincode::ErrorKind>,
>)
    ensures
        match data {
            Ok(bytes) => wire_form(*transaction) == Some(bytes@) && bytes@.len()
                <= PACKET_DATA_SIZE,
            Err(_) => wire_form(*transaction).is_none(),
        },
{
    let packet = WirePacket::from_data(None, transaction)?;
    Ok(packet.data(..).unwrap_or_default().to_vec())
}

/// `SanitizedVersionedTransaction::try_new`: the transaction behind its
/// structural checks, or the check that it failed. The checks include those
/// of its message.
#[verifier::external_body]
pub(crate) fn sanitize_transaction(transaction: VersionedTransaction) -> (checked: Result<
    SanitizedVersionedTransaction,
    SanitizeError,
>)
    ensures
        match checked {
            Ok(t) => sanitized(transaction) == Some(t) && passes_checks(message_of(t)),
            Err(_) => sanitized(transaction).is_none(),
        },
{
    SanitizedVersionedTransaction::try_new(transaction)
}

/// `SanitizedVersionedTransaction::get_message`: the message of a sanitized
/// transaction.
pub assume_specification[ SanitizedVersionedTransaction::get_message ](
    transaction: &SanitizedVersionedTransaction,
) -> (message: &SanitizedVersionedMessage)
    ensures
        *message == message_of(*transaction),
;

/// `VersionedMessage::sanitize` on the message that a sanitized message
/// holds, with program ids required among its own account keys: whether the
/// message passes.
#[verifier::external_body]
pub(crate) fn message_passes_checks(message: &SanitizedVersionedMessage) -> (passes: bool)
    ensures
        passes == passes_checks(*message),
{
    message.message.sanitize(true).is_ok()
}

/// `Message::hash_raw_message`: the digest of the bytes of a message, which
/// depends on the bytes alone.
#[verifier::external_body]
pub(crate) fn hash_raw_message(message: &[u8]) -> (digest: [u8; 32])
    ensures
        digest@ == message_digest(message@),
{
    Message::hash_raw_message(message).to_bytes()
}

/// `ComputeBudget::default`: the budget of a transaction that asks for
/// nothing.
#[verifier::external_body]
pub(crate) fn default_compute_budget() -> (budget: ComputeBudget) {
    ComputeBudget::default()
}

/// `ComputeBudget::process_instructions` over the instructions of a message,
/// with instructions counted towards the default limit and price directives
/// accepted: the fee details that the directives ask for, with the compute
/// units set in the budget, or the error of a directive that is repeated or
/// malformed. Which of them comes, and the price and the units, depend on
/// the message alone. The message must have passed its checks: the reader
/// looks up the program id of each instruction among the account keys.
#[verifier::external_body]
pub(crate) fn process_budget_instructions(
    budget: &mut ComputeBudget,
    message: &SanitizedVersionedMessage,
) -> (details: Result<PrioritizationFeeDetails, TransactionError>)
    requires
        passes_checks(*message),
    ensures
        match details {
            Ok(d) => budget_reading(*message) == Some((price_in(d), units_in(*final(budget)))),
            Err(_) => budget_reading(*message).is_none(),
        },
{
    budget.process_instructions(message.program_instructions_iter(), true, true)
}

/// `PrioritizationFeeDetails::get_priority`: the price of one compute unit,
/// in millionths of the fee unit.
#[verifier::external_body]
pub(crate) fn unit_price(details: &PrioritizationFeeDetails) -> (price: u64)
    ensures
        price == price_in(*details),
{
    details.get_priority()
}

/// The field `compute_unit_limit` of a `ComputeBudget`: the compute units
/// that the transaction may use.
#[verifier::external_body]
pub(crate) fn unit_limit(budget: &ComputeBudget) -> (units: u64)
    ensures
        units == units_in(*budget),
{
    budget.compute_unit_limit
}

} // verus!
