//! The entries of a message payload.

use vstd::prelude::*;

use crate::link::duration::Duration;
use crate::link::measurement::MeasurementEndpointV4;
use crate::link::sessions::SessionMembership;
use crate::link::wire::{be_value, bincode_u32, Error};

verus! {

/// The header of a payload entry: which entry it is, and how many bytes follow.
#[derive(Clone, Copy, Debug, PartialEq, Eq, Structural)]
pub struct PayloadEntryHeader {
    pub key: u32,
    pub size: u32,
}

/// Whether `bytes` are the eight bytes of a header: its key, then its size.
pub open spec fn is_header(bytes: Seq<u8>, key: u32, size: u32) -> bool {
    bytes.len() == 8 && be_value(bytes.subrange(0, 4)) == key && be_value(bytes.subrange(4, 8))
        == size
}

/// A header has eight bytes, the first four of which spell the key and the last four the size, so
/// that no two headers share their bytes.
pub proof fn law_header_is_key_then_size(
    bytes: Seq<u8>,
    key: u32,
    size: u32,
    other_key: u32,
    other_size: u32,
)
    requires
        is_header(bytes, key, size),
    ensures
        bytes.len() == 8,
        be_value(bytes.take(4)) == key,
        be_value(bytes.skip(4)) == size,
        is_header(bytes, other_key, other_size) ==> other_key == key && other_size == size,
{
    assert(bytes.take(4) =~= bytes.subrange(0, 4));
    assert(bytes.skip(4) =~= bytes.subrange(4, 8));
}

impl PayloadEntryHeader {
    /// The bytes of the header.
    pub fn encode(&self) -> (encoded: Result<Vec<u8>, Error>)
        ensures
            encoded is Ok,
            is_header(encoded->Ok_0@, self.key, self.size),
    {
        match bincode_u32(self.key) {
            Ok(mut bytes) => match bincode_u32(self.size) {
                Ok(mut size) => {
                    let ghost key_bytes = bytes@;
                    let ghost size_bytes = size@;
                    bytes.append(&mut size);
                    assert(bytes@.subrange(0, 4) =~= key_bytes);
                    assert(bytes@.subrange(4, 8) =~= size_bytes);
                    Ok(bytes)
                },
                Err(_) => Err(Error::Encode),
            },
            Err(_) => Err(Error::Encode),
        }
    }
}

/// An IPv4 address, as the number that its octets spell, and a port.
#[derive(Clone, Copy, Debug, PartialEq, Eq, Structural)]
pub struct SocketAddrV4 {
    pub ip: u32,
    pub port: u16,
}

/// An entry of a payload. Entries that no decision depends on are `Other`.
#[derive(Clone, Copy, Debug)]
pub enum PayloadEntry {
    SessionMembership(SessionMembership),
    HostTime(Duration),
    GhostTime(Duration),
    PrevGhostTime(Duration),
    MeasurementEndpointV4(MeasurementEndpointV4),
    Other,
}

} // verus!
