//! Telling datagrams apart.
use vstd::prelude::*;

verus! {

/// Whether a datagram is an RTP packet: long enough for its header, of version
/// two, and without the packet type of an RTCP packet in its second byte.
pub open spec fn is_rtp_packet(data: Seq<u8>) -> bool {
    &&& data.len() >= 12
    &&& data[0] / 64 == 2
    &&& !(192 <= data[1] <= 223)
}

/// Whether a datagram is an RTP packet.
pub fn is_rtp(data: &[u8]) -> (r: bool)
    ensures
        r == is_rtp_packet(data@),
{
    if data.len() < 12 {
        return false;
    }
    let first = data[0];
    let second = data[1];
    assert((first & 0xc0 == 0x80) == (first / 64 == 2)) by (bit_vector);
    first & 0xc0 == 0x80 && !(192 <= second && second <= 223)
}

} // verus!
