//! Where the message lies in a packet: behind a short length prefix and the
//! signatures that it counts.
use crate::packet::Packet;
use solana_sdk::short_vec::decode_shortu16_len;
use vstd::prelude::*;
use vstd::slice::slice_subrange;

verus! {

/// The bytes that one signature takes.
pub const SIGNATURE_BYTES: usize = 64;

/// The length prefix at the start of `bytes`: the number it encodes and the
/// bytes it takes, or nothing where `bytes` does not start with one.
///
/// The number is written in one to three bytes, low bits first. Each of the
/// first two bytes gives seven bits and says in its high bit whether another
/// byte follows; the third gives the two bits that are left. A byte after
/// the first may not be zero, so that each number has one encoding.
pub open spec fn short_u16(bytes: Seq<u8>) -> Option<(nat, nat)> {
    if bytes.len() == 0 {
        None
    } else if bytes[0] < 128 {
        Some((bytes[0] as nat, 1nat))
    } else if bytes.len() == 1 || bytes[1] == 0 {
        None
    } else if bytes[1] < 128 {
        Some(((bytes[0] - 128 + bytes[1] * 128) as nat, 2nat))
    } else if bytes.len() == 2 || bytes[2] == 0 || bytes[2] > 3 {
        None
    } else {
        Some(((bytes[0] - 128 + (bytes[1] - 128) * 128 + bytes[2] * 16384) as nat, 3nat))
    }
}

/// `solana_sdk::short_vec::decode_shortu16_len`: reads the length prefix at
/// the start of `bytes`. It gives the number and the bytes that it took, and
/// fails on a prefix that ends too early, continues past its third byte,
/// exceeds sixteen bits, or holds a zero byte after the first.
#[verifier::external_body]
pub(crate) fn decode_short_u16(bytes: &[u8]) -> (decoded: Result<(usize, usize), ()>)
    ensures
        match decoded {
            Ok((value, size)) => short_u16(bytes@) == Some((value as nat, size as nat)),
            Err(_) => short_u16(bytes@).is_none(),
        },
{
    decode_shortu16_len(bytes)
}

/// What may be wrong with the start of a packet.
#[derive(Clone, Copy, Debug, PartialEq, Eq)]
pub enum PrefixError {
    /// The bytes do not start with a length prefix.
    ShortVec,
    /// The signatures that the prefix counts do not fit in the bytes; the
    /// number is the size of the prefix.
    SignatureOverflowed(usize),
}

/// Where the message starts in `bytes`: behind the prefix and as many
/// signatures as it counts.
pub open spec fn message_start(bytes: Seq<u8>) -> Result<int, PrefixError> {
    match short_u16(bytes) {
        None => Err(PrefixError::ShortVec),
        Some((count, size)) => if count * SIGNATURE_BYTES + size <= bytes.len() {
            Ok(count * SIGNATURE_BYTES + size)
        } else {
            Err(PrefixError::SignatureOverflowed(size as usize))
        },
    }
}

/// The message of a packet: what follows its signatures.
pub open spec fn message_bytes(bytes: Seq<u8>) -> Result<Seq<u8>, PrefixError> {
    match message_start(bytes) {
        Ok(start) => Ok(bytes.subrange(start, bytes.len() as int)),
        Err(e) => Err(e),
    }
}

/// Finds the message in the bytes of a packet.
pub fn locate_message(bytes: &[u8]) -> (message: Result<&[u8], PrefixError>)
    ensures
        match message {
            Ok(m) => message_bytes(bytes@) == Ok::<Seq<u8>, PrefixError>(m@),
            Err(e) => message_bytes(bytes@) == Err::<Seq<u8>, PrefixError>(e),
        },
{
    match decode_short_u16(bytes) {
        Err(_) => Err(PrefixError::ShortVec),
        Ok((count, size)) => {
            let start = match count.checked_mul(SIGNATURE_BYTES) {
                Some(in_signatures) => in_signatures.checked_add(size),
                None => None,
            };
            match start {
                Some(start) => {
                    if start <= bytes.len() {
                        Ok(slice_subrange(bytes, start, bytes.len()))
                    } else {
                        Err(PrefixError::SignatureOverflowed(size))
                    }
                },
                None => {
                    Err(PrefixError::SignatureOverflowed(size))
                },
            }
        },
    }
}

} // verus!
