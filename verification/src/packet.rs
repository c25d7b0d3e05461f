//! A received packet as the buffer sees it: its bytes and the metadata that
//! the receiving stage filled in.
use vstd::prelude::*;

verus! {

/// The most bytes that a packet carries over the wire.
pub const PACKET_DATA_SIZE: usize = 1232;

/// Where a packet came from.
#[derive(Clone, Copy, Debug, PartialEq, Eq)]
pub enum SourceAddr {
    V4([u8; 4]),
    V6([u8; 16]),
}

/// What the receiving stage recorded about a packet.
#[derive(Clone, Copy, Debug, PartialEq, Eq)]
pub struct Meta {
    pub addr: SourceAddr,
    pub port: u16,
    pub sender_stake: u64,
    pub is_simple_vote_tx: bool,
}

/// A packet: at most `PACKET_DATA_SIZE` bytes, and their metadata.
#[derive(Debug, PartialEq, Eq)]
pub struct Packet {
    data: Vec<u8>,
    meta: Meta,
}

impl Clone for Packet {
    fn clone(&self) -> (copy: Self)
        ensures
            copy.bytes() == self.bytes(),
            copy.spec_meta() == self.spec_meta(),
    {
        proof {
            use_type_invariant(self);
        }
        Packet { data: self.data.clone(), meta: self.meta }
    }
}

impl Packet {
    #[verifier::type_invariant]
    spec fn fits(self) -> bool {
        self.data@.len() <= PACKET_DATA_SIZE
    }

    /// The bytes of the packet.
    pub closed spec fn bytes(&self) -> Seq<u8> {
        self.data@
    }

    /// The metadata of the packet.
    pub closed spec fn spec_meta(&self) -> Meta {
        self.meta
    }

    /// A packet of the given bytes, or nothing where they are too many.
    pub fn new(data: Vec<u8>, meta: Meta) -> (packet: Option<Self>)
        ensures
            packet.is_some() == (data@.len() <= PACKET_DATA_SIZE),
            packet matches Some(p) ==> p.bytes() == data@ && p.spec_meta() == meta,
    {
        if data.len() <= PACKET_DATA_SIZE {
            Some(Packet { data, meta })
        } else {
            None
        }
    }

    /// The bytes of the packet.
    pub fn data(&self) -> (data: &[u8])
        ensures
            data@ == self.bytes(),
            data@.len() <= PACKET_DATA_SIZE,
    {
        proof {
            use_type_invariant(self);
        }
        self.data.as_slice()
    }

    /// The metadata of the packet.
    #[verifier::when_used_as_spec(spec_meta)]
    pub fn meta(&self) -> (meta: Meta)
        ensures
            meta == self.spec_meta(),
    {
        self.meta
    }
}

} // verus!
