//! Network-ingress probe logic. The probe parses an Ethernet header, then —
//! only for IPv4 — the IPv4 header, then — only for TCP or UDP — the
//! transport header, checking before every step that enough bytes remain.
//! A short or unsupported packet produces no event. The packet itself is
//! always passed on unmodified, whether or not an event was produced.

use vstd::prelude::*;

use crate::channel::{total_bytes, Channel};
use crate::raw::{spec_encode_xdp, encode_xdp, RawXdpEvent, XDP_RECORD_BYTES};
use crate::wire::{lemma_u32_be_of_bytes_round_trip, read_u16_be, read_u32_be, spec_u16_of_be, spec_u32_be, spec_u32_of_be};

verus! {

/// Verdict that lets a packet continue through the network stack.
pub const XDP_PASS: u32 = 2;

/// Byte length of an Ethernet header.
pub const ETH_HDR_BYTES: usize = 14;

/// Byte length of an IPv4 header as the probe reads it (fixed part).
pub const IPV4_HDR_BYTES: usize = 20;

/// Byte length of a TCP header as the probe reads it (fixed part).
pub const TCP_HDR_BYTES: usize = 20;

/// Byte length of a UDP header.
pub const UDP_HDR_BYTES: usize = 8;

/// IPv4 protocol number of TCP.
pub const PROTO_TCP: u8 = 6;

/// IPv4 protocol number of UDP.
pub const PROTO_UDP: u8 = 17;

/// The packet starts with an Ethernet header whose EtherType is IPv4
/// (0x0800, transmitted big-endian) and holds a full IPv4 header.
pub open spec fn spec_is_ipv4(p: Seq<u8>) -> bool {
    &&& p.len() >= ETH_HDR_BYTES + IPV4_HDR_BYTES
    &&& p[12] == 0x08u8
    &&& p[13] == 0x00u8
}

/// The packet is IPv4 with protocol TCP or UDP and holds the full
/// transport header the probe reads.
pub open spec fn spec_is_tcp_udp(p: Seq<u8>) -> bool {
    &&& spec_is_ipv4(p)
    &&& {
        ||| (p[23] == PROTO_TCP && p.len() >= ETH_HDR_BYTES + IPV4_HDR_BYTES + TCP_HDR_BYTES)
        ||| (p[23] == PROTO_UDP && p.len() >= ETH_HDR_BYTES + IPV4_HDR_BYTES + UDP_HDR_BYTES)
    }
}

/// The event a well-formed TCP or UDP IPv4 packet produces: the source and
/// destination address words and ports, read out of network byte order.
pub open spec fn spec_packet_event(p: Seq<u8>) -> RawXdpEvent {
    RawXdpEvent {
        pid: 0,
        source_addr: spec_u32_of_be(p.subrange(26, 30)),
        dest_addr: spec_u32_of_be(p.subrange(30, 34)),
        source_port: spec_u16_of_be(p.subrange(34, 36)),
        dest_port: spec_u16_of_be(p.subrange(36, 38)),
    }
}

/// Extracts the network event from a packet: exactly one event for a TCP or
/// UDP IPv4 packet with full headers, none for anything shorter or any
/// other protocol.
pub fn parse_packet(packet: &[u8]) -> (r: Option<RawXdpEvent>)
    ensures
        r is Some <==> spec_is_tcp_udp(packet@),
        spec_is_tcp_udp(packet@) ==> r == Some(spec_packet_event(packet@)),
{
    if packet.len() < ETH_HDR_BYTES + IPV4_HDR_BYTES {
        return None;
    }
    if !(packet[12] == 0x08u8 && packet[13] == 0x00u8) {
        return None;
    }
    let proto: u8 = packet[23];
    if proto == PROTO_TCP {
        if packet.len() < ETH_HDR_BYTES + IPV4_HDR_BYTES + TCP_HDR_BYTES {
            return None;
        }
    } else if proto == PROTO_UDP {
        if packet.len() < ETH_HDR_BYTES + IPV4_HDR_BYTES + UDP_HDR_BYTES {
            return None;
        }
    } else {
        return None;
    }
    Some(
        RawXdpEvent {
            pid: 0,
            source_addr: read_u32_be(packet, 26),
            dest_addr: read_u32_be(packet, 30),
            source_port: read_u16_be(packet, 34),
            dest_port: read_u16_be(packet, 36),
        },
    )
}

/// A well-formed packet's event matches its headers exactly: turning the
/// event's address words back into network-order octets gives the very
/// bytes of the packet's address fields, and the ports are the packet's
/// port fields read out of network byte order.
pub proof fn lemma_packet_event_matches_headers(p: Seq<u8>)
    requires
        spec_is_tcp_udp(p),
    ensures
        spec_u32_be(spec_packet_event(p).source_addr) == p.subrange(26, 30),
        spec_u32_be(spec_packet_event(p).dest_addr) == p.subrange(30, 34),
        spec_packet_event(p).source_port == spec_u16_of_be(p.subrange(34, 36)),
        spec_packet_event(p).dest_port == spec_u16_of_be(p.subrange(36, 38)),
{
    lemma_u32_be_of_bytes_round_trip(p.subrange(26, 30));
    lemma_u32_be_of_bytes_round_trip(p.subrange(30, 34));
}

/// One probe activation on one ingress packet: parses the packet, emits at
/// most one record into the transport channel (dropped without signal when
/// the channel is full), and never fails — a packet that cannot be parsed
/// simply produces nothing.
pub fn try_stalk_xdp(packet: &[u8], events: &mut Channel) -> (r: Result<u32, ()>)
    requires
        old(events).wf(),
    ensures
        final(events).wf(),
        final(events).spec_capacity() == old(events).spec_capacity(),
        r == Ok::<u32, ()>(XDP_PASS),
        spec_is_tcp_udp(packet@) && total_bytes(old(events)@) + XDP_RECORD_BYTES
            <= old(events).spec_capacity() ==> final(events)@ == old(events)@.push(
            spec_encode_xdp(spec_packet_event(packet@)),
        ),
        !(spec_is_tcp_udp(packet@) && total_bytes(old(events)@) + XDP_RECORD_BYTES
            <= old(events).spec_capacity()) ==> final(events)@ == old(events)@,
{
    match parse_packet(packet) {
        Some(event) => {
            let record = encode_xdp(&event);
            let _ = events.submit(record);
        },
        None => {},
    }
    Ok(XDP_PASS)
}

/// Probe entry point: whatever happens while parsing or emitting, the
/// verdict lets the packet continue unmodified.
pub fn stalk_xdp(packet: &[u8], events: &mut Channel) -> (r: u32)
    requires
        old(events).wf(),
    ensures
        final(events).wf(),
        final(events).spec_capacity() == old(events).spec_capacity(),
        r == XDP_PASS,
        spec_is_tcp_udp(packet@) && total_bytes(old(events)@) + XDP_RECORD_BYTES
            <= old(events).spec_capacity() ==> final(events)@ == old(events)@.push(
            spec_encode_xdp(spec_packet_event(packet@)),
        ),
        !(spec_is_tcp_udp(packet@) && total_bytes(old(events)@) + XDP_RECORD_BYTES
            <= old(events).spec_capacity()) ==> final(events)@ == old(events)@,
{
    match try_stalk_xdp(packet, events) {
        Ok(ret) => ret,
        Err(_) => XDP_PASS,
    }
}

} // verus!
