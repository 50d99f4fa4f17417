//! Packet-level types shared by the congestion controller.

use vstd::prelude::*;
use std::time::Instant;

verus! {

pub type HasRetransmittableData = bool;

pub const HAS_RETRANSMITTABLE_DATA: HasRetransmittableData = true;

pub type QuicByteCount = u64;

pub type QuicPacketCount = u64;

pub type QuicPacketLength = u64;

pub type QuicPacketNumber = u64;

/// A packet whose delivery was acknowledged.
#[derive(Clone, Copy, Debug)]
pub struct AckedPacket {
    pub packet_number: QuicPacketNumber,
    pub bytes_acked: QuicPacketLength,
    pub receive_timestamp: Instant,
}

impl AckedPacket {
    pub fn new(
        packet_number: QuicPacketNumber,
        bytes_acked: QuicPacketLength,
        receive_timestamp: Instant,
    ) -> (r: Self)
        ensures
            r.packet_number == packet_number,
            r.bytes_acked == bytes_acked,
            r.receive_timestamp == receive_timestamp,
    {
        Self { packet_number, bytes_acked, receive_timestamp }
    }
}

/// A packet that was declared lost.
#[derive(Clone, Copy, Debug)]
pub struct LostPacket {
    pub packet_number: QuicPacketNumber,
    pub bytes_lost: QuicPacketLength,
}

impl LostPacket {
    pub fn new(packet_number: QuicPacketNumber, bytes_lost: QuicPacketLength) -> (r: Self)
        ensures
            r.packet_number == packet_number,
            r.bytes_lost == bytes_lost,
    {
        Self { packet_number, bytes_lost }
    }
}

pub type AckedPacketVector = Vec<AckedPacket>;

pub type LostPacketVector = Vec<LostPacket>;

} // verus!
