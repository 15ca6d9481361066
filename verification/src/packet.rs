//! VXLAN framing (RFC 7348): an eight-byte header in front of an Ethernet frame.

use vstd::prelude::*;
use vstd::slice::slice_subrange;

verus! {

/// Length of the VXLAN header in bytes.
pub const VXLAN_HEADER_SIZE: usize = 8;

/// The largest VXLAN network identifier: the field is 24 bits wide.
pub const VXLAN_MAX_VNI: u32 = 0x00ff_ffff;

/// The header that carries `vni`: the I flag, three reserved bytes, the low
/// 24 bits of the identifier in network order and one more reserved byte.
pub open spec fn vxlan_header(vni: u32) -> Seq<u8> {
    seq![
        0x08u8,
        0u8,
        0u8,
        0u8,
        ((vni / 0x1_0000) % 0x100) as u8,
        ((vni / 0x100) % 0x100) as u8,
        (vni % 0x100) as u8,
        0u8,
    ]
}

/// The datagram that carries the Ethernet frame `eth` on network `vni`.
pub open spec fn vxlan_packet(eth: Seq<u8>, vni: u32) -> Seq<u8> {
    vxlan_header(vni) + eth
}

/// The network identifier in the header of `packet`.
pub open spec fn packet_vni(packet: Seq<u8>) -> int
    recommends
        packet.len() >= VXLAN_HEADER_SIZE,
{
    packet[4] * 0x1_0000 + packet[5] * 0x100 + packet[6]
}

/// The Ethernet frame that an endpoint of network `vni` takes out of
/// `packet`: everything behind the header, if there is a whole header and it
/// names that network.
pub open spec fn inner_frame(packet: Seq<u8>, vni: u32) -> Option<Seq<u8>> {
    if packet.len() < VXLAN_HEADER_SIZE || packet_vni(packet) != vni {
        None
    } else {
        Some(packet.skip(VXLAN_HEADER_SIZE as int))
    }
}

/// Prepends an eight-byte VXLAN header to a raw Ethernet frame.
pub fn build_vxlan_payload(eth: &[u8], vni: u32) -> (pkt: Vec<u8>)
    ensures
        pkt@ == vxlan_packet(eth@, vni),
{
    let mut pkt: Vec<u8> = Vec::with_capacity(VXLAN_HEADER_SIZE);
    pkt.push(0x08);
    pkt.push(0x00);
    pkt.push(0x00);
    pkt.push(0x00);
    pkt.push(((vni / 0x1_0000) % 0x100) as u8);
    pkt.push(((vni / 0x100) % 0x100) as u8);
    pkt.push((vni % 0x100) as u8);
    pkt.push(0x00);
    pkt.extend_from_slice(eth);
    pkt
}

/// The network identifier in the header of `packet`.
fn header_vni(packet: &[u8]) -> (vni: u32)
    requires
        packet@.len() >= VXLAN_HEADER_SIZE,
    ensures
        vni == packet_vni(packet@),
        vni <= VXLAN_MAX_VNI,
{
    packet[4] as u32 * 0x1_0000 + packet[5] as u32 * 0x100 + packet[6] as u32
}

/// Validates the VXLAN header of `frame` and returns the inner Ethernet
/// frame, or `None` where the header is incomplete or names another network.
pub fn unwrap_vxlan(frame: &[u8], vni: u32) -> (eth: Option<&[u8]>)
    ensures
        eth is Some <==> inner_frame(frame@, vni) is Some,
        eth matches Some(e) ==> Some(e@) == inner_frame(frame@, vni),
{
    if frame.len() < VXLAN_HEADER_SIZE {
        return None;
    }
    if header_vni(frame) != vni {
        return None;
    }
    Some(slice_subrange(frame, VXLAN_HEADER_SIZE, frame.len()))
}

/// What becomes of a datagram that arrived on the tunnel's UDP socket.
#[derive(Debug, Clone, Copy)]
pub enum Injection<'a> {
    /// The inner Ethernet frame goes to vmnet.
    Write(&'a [u8]),
    /// Dropped: too short to hold a VXLAN header.
    TooShort {
        /// Length of the datagram.
        len: usize,
    },
    /// Dropped: the header names another network.
    VniMismatch {
        /// The identifier that the header names.
        received: u32,
    },
}

/// Strips the VXLAN header of a received datagram and says whether the inner
/// Ethernet frame is to be written to vmnet.
pub fn vxlan_to_vmnet(frame: &[u8], vni: u32) -> (injection: Injection<'_>)
    ensures
        match injection {
            Injection::Write(eth) => inner_frame(frame@, vni) == Some(eth@),
            Injection::TooShort { len } => len == frame@.len() && len < VXLAN_HEADER_SIZE,
            Injection::VniMismatch { received } => {
                &&& frame@.len() >= VXLAN_HEADER_SIZE
                &&& received == packet_vni(frame@)
                &&& received != vni
            },
        },
{
    match unwrap_vxlan(frame, vni) {
        Some(eth) => Injection::Write(eth),
        None => if frame.len() < VXLAN_HEADER_SIZE {
            Injection::TooShort { len: frame.len() }
        } else {
            Injection::VniMismatch { received: header_vni(frame) }
        },
    }
}

/// Every packet's header carries the identifier that it was built for, or the
/// low 24 bits of one that does not fit.
pub proof fn law_header_carries_vni(eth: Seq<u8>, vni: u32)
    ensures
        packet_vni(vxlan_packet(eth, vni)) == vni % 0x100_0000,
{
    let h = vxlan_header(vni);
    let p = vxlan_packet(eth, vni);
    assert(p[4] == h[4] && p[5] == h[5] && p[6] == h[6]);
}

/// What an endpoint wraps, every endpoint of the same network unwraps: the
/// payload comes back unchanged, for every identifier of the 24-bit range.
pub proof fn law_roundtrip_preserves_payload(eth: Seq<u8>, vni: u32)
    requires
        vni <= VXLAN_MAX_VNI,
    ensures
        inner_frame(vxlan_packet(eth, vni), vni) == Some(eth),
{
    law_header_carries_vni(eth, vni);
    assert(vxlan_packet(eth, vni).skip(VXLAN_HEADER_SIZE as int) =~= eth);
}

/// A frame wrapped for one network of the 24-bit range is never taken by an
/// endpoint of another network.
pub proof fn law_networks_are_isolated(eth: Seq<u8>, sender: u32, receiver: u32)
    requires
        sender <= VXLAN_MAX_VNI,
        sender != receiver,
    ensures
        inner_frame(vxlan_packet(eth, sender), receiver) is None,
{
    law_header_carries_vni(eth, sender);
}

/// An identifier that does not fit in 24 bits matches no packet at all.
pub proof fn law_oversized_vni_accepts_nothing(packet: Seq<u8>, vni: u32)
    requires
        vni > VXLAN_MAX_VNI,
    ensures
        inner_frame(packet, vni) is None,
{
}

/// A packet is exactly one header longer than the frame in it.
pub proof fn law_packet_length(eth: Seq<u8>, vni: u32)
    ensures
        vxlan_packet(eth, vni).len() == VXLAN_HEADER_SIZE + eth.len(),
{
}

/// Every header sets the I flag and clears all reserved bytes.
pub proof fn law_header_flags(eth: Seq<u8>, vni: u32)
    ensures
        vxlan_packet(eth, vni)[0] == 0x08,
        vxlan_packet(eth, vni)[1] == 0,
        vxlan_packet(eth, vni)[2] == 0,
        vxlan_packet(eth, vni)[3] == 0,
        vxlan_packet(eth, vni)[7] == 0,
{
}

/// The eight bytes in front of any frame, an empty one too: the I flag alone,
/// and the identifier with its most significant byte first.
pub proof fn law_wire_header(eth: Seq<u8>, vni: u32)
    ensures
        vxlan_packet(eth, vni).len() >= 8,
        vxlan_packet(eth, vni)[0] == 8,
        vxlan_packet(eth, vni)[4] as u32 == (vni >> 16u32) & 0xff,
        vxlan_packet(eth, vni)[5] as u32 == (vni >> 8u32) & 0xff,
        vxlan_packet(eth, vni)[6] as u32 == vni & 0xff,
        vxlan_packet(eth, vni).skip(8) == eth,
{
    assert((vni >> 16u32) & 0xff == (vni / 0x1_0000) % 0x100) by (bit_vector);
    assert((vni >> 8u32) & 0xff == (vni / 0x100) % 0x100) by (bit_vector);
    assert(vni & 0xff == vni % 0x100) by (bit_vector);
    assert(vxlan_packet(eth, vni).skip(8) =~= eth);
}

/// What a receiver takes off the wire, whoever sent it: of a packet of at least
/// eight bytes whose bytes four to six, the most significant one first, are the
/// receiver's identifier, everything from byte eight on; of any other packet
/// nothing.
pub proof fn law_receiver_reads_the_wire(packet: Seq<u8>, vni: u32)
    ensures
        inner_frame(packet, vni) is Some <==> packet.len() >= 8 && packet[4] * 65536 + packet[5]
            * 256 + packet[6] == vni,
        inner_frame(packet, vni) matches Some(frame) ==> {
            &&& frame.len() == packet.len() - 8
            &&& forall|i: int| 0 <= i < frame.len() ==> #[trigger] frame[i] == packet[8 + i]
        },
        packet.len() >= 8 ==> packet_vni(packet) == packet[4] * 65536 + packet[5] * 256 + packet[6],
{
}

/// The limits that RFC 7348 sets: eight bytes of header, 24 bits of identifier.
pub proof fn law_wire_limits()
    ensures
        VXLAN_HEADER_SIZE == 8,
        VXLAN_MAX_VNI == 0xff_ffff,
{
}

} // verus!
