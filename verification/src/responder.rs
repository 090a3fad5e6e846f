//! The stack's answers to IPv6 frames: echo replies to pings and neighbor
//! advertisements to neighbor solicitations for its own address.

use crate::checksum::{lemma_word_sum_bound, pseudo_checksum, with_checksum};
use crate::ethernet::{
    eth_header_bytes, frame_destination, frame_ether_type, frame_payload, frame_source,
    lemma_ethernet_header_roundtrip, write_eth_header_at, EtherType, EthernetFrame, MacAddress,
    ETH_HDR_LEN,
};
use crate::icmpv6::{
    echo_reply_message, lemma_echo_reply_roundtrip, lemma_neighbor_advertisement_roundtrip,
    message_payload, message_type, message_valid, neighbor_advertisement_message,
    write_echo_reply_at, write_neighbor_advertisement_at, Icmpv6Packet, Icmpv6Type,
    ICMPV6_HDR_LEN, NEIGHBOR_ADVERTISEMENT_LEN,
};
use crate::ipv6::{
    ipv6_address_at, ipv6_dest, ipv6_header_bytes, ipv6_next_header, ipv6_payload, ipv6_source,
    ipv6_valid, lemma_ipv6_header_roundtrip, write_ipv6_header_at, Ipv6Address, Ipv6NextHeader, Ipv6Packet, IPV6_HDR_LEN,
};
use crate::packet::MTU;
use crate::wire::{be_u16, len_u16, lemma_bytes_upto_len, read_u16_at, splice, u16_from_len};
use vstd::prelude::*;

verus! {

/// Length of the headers in front of an ICMPv6 message in a reply frame.
pub const REPLY_HDRS_LEN: usize = 54;

/// The IPv6 packet inside a frame's bytes.
pub open spec fn frame_ip(raw: Seq<u8>) -> Seq<u8> {
    frame_payload(raw)
}

/// The ICMPv6 message inside a frame's bytes.
pub open spec fn frame_message(raw: Seq<u8>) -> Seq<u8> {
    ipv6_payload(frame_ip(raw))
}

/// The frame carries an ICMPv6 message in an IPv6 packet addressed to `my_ip`
/// or to a multicast group.
pub open spec fn is_message_for(my_ip: Seq<u8>, raw: Seq<u8>) -> bool {
    let ip = frame_ip(raw);
    &&& raw.len() >= ETH_HDR_LEN
    &&& frame_ether_type(raw) == EtherType::IPv6
    &&& ipv6_valid(ip)
    &&& (ipv6_dest(ip) == my_ip || ip[24] == 0xff)
    &&& ipv6_next_header(ip) == Ipv6NextHeader::ICMPv6
    &&& message_valid(frame_message(raw))
}

/// The frame is an echo request that the stack answers.
pub open spec fn is_echo_request_for(my_ip: Seq<u8>, raw: Seq<u8>) -> bool {
    is_message_for(my_ip, raw) && message_type(frame_message(raw)) == Icmpv6Type::EchoRequest
}

/// The frame is a neighbor solicitation that the stack looks into.
pub open spec fn is_solicitation_for(my_ip: Seq<u8>, raw: Seq<u8>) -> bool {
    is_message_for(my_ip, raw) && message_type(frame_message(raw)) == Icmpv6Type::NeighborSolicitation
}

/// Frames on which answering would go out of bounds: a neighbor solicitation
/// too short to hold a target address, or an echo request whose reply does
/// not fit in `MTU` bytes.
pub open spec fn reply_out_of_bounds(my_ip: Seq<u8>, raw: Seq<u8>) -> bool {
    ||| is_solicitation_for(my_ip, raw) && frame_message(raw).len() < 24
    ||| is_echo_request_for(my_ip, raw) && REPLY_HDRS_LEN + frame_message(raw).len() > MTU
}

/// The echo reply frame answering the echo request `raw`.
pub open spec fn echo_reply_frame(my_ip: Seq<u8>, my_mac: Seq<u8>, raw: Seq<u8>) -> Seq<u8> {
    let ip = frame_ip(raw);
    let icmp = frame_message(raw);
    let payload = message_payload(icmp);
    let m = echo_reply_message(be_u16(icmp[4], icmp[5]), be_u16(icmp[6], icmp[7]), payload);
    eth_header_bytes(frame_source(raw), my_mac, EtherType::IPv6) + ipv6_header_bytes(
        my_ip,
        ipv6_source(ip),
        Ipv6NextHeader::ICMPv6,
        len_u16(ICMPV6_HDR_LEN + payload.len()),
    ) + with_checksum(m, pseudo_checksum(my_ip, ipv6_source(ip), m))
}

/// The neighbor advertisement frame answering the solicitation `raw`.
pub open spec fn advertisement_frame(my_ip: Seq<u8>, my_mac: Seq<u8>, raw: Seq<u8>) -> Seq<u8> {
    let ip = frame_ip(raw);
    let m = neighbor_advertisement_message(my_ip, my_mac);
    eth_header_bytes(frame_source(raw), my_mac, EtherType::IPv6) + ipv6_header_bytes(
        my_ip,
        ipv6_source(ip),
        Ipv6NextHeader::ICMPv6,
        32u16,
    ) + with_checksum(m, pseudo_checksum(my_ip, ipv6_source(ip), m))
}

/// The frame the stack, at `my_ip` and `my_mac`, sends back for the frame
/// `raw`, if any: an echo reply for an echo request, a neighbor advertisement
/// for a solicitation whose target is `my_ip`, nothing otherwise.
pub open spec fn ipv6_reply(my_ip: Seq<u8>, my_mac: Seq<u8>, raw: Seq<u8>) -> Option<Seq<u8>> {
    if is_echo_request_for(my_ip, raw) {
        Some(echo_reply_frame(my_ip, my_mac, raw))
    } else if is_solicitation_for(my_ip, raw) && frame_message(raw).subrange(8, 24) == my_ip {
        Some(advertisement_frame(my_ip, my_mac, raw))
    } else {
        None
    }
}

/// Whether answering `raw_data` stays in bounds, so that `process_ipv6_frame`
/// may be called on it.
pub fn reply_in_bounds(my_ip6: Ipv6Address, raw_data: &[u8]) -> (ok: bool)
    ensures
        ok == !reply_out_of_bounds(my_ip6.0@, raw_data@),
{
    let frame = match EthernetFrame::new(raw_data) {
        Some(f) => f,
        None => return true,
    };
    match frame.ether_type() {
        EtherType::IPv6 => {},
        _ => return true,
    }
    let ip_pkt = match Ipv6Packet::new(frame.payload()) {
        Some(p) => p,
        None => return true,
    };
    let dest = ip_pkt.dest_ip();
    if !(dest == my_ip6 || dest.is_multicast()) {
        return true;
    }
    match ip_pkt.next_header() {
        Ipv6NextHeader::ICMPv6 => {},
        _ => return true,
    }
    let icmp_pkt = match Icmpv6Packet::new(ip_pkt.payload()) {
        Some(p) => p,
        None => return true,
    };
    match icmp_pkt.icmpv6_type() {
        Icmpv6Type::EchoRequest => icmp_pkt.data.len() <= MTU - REPLY_HDRS_LEN,
        Icmpv6Type::NeighborSolicitation => icmp_pkt.data.len() >= 24,
        _ => true,
    }
}

/// Handles an IPv6 frame received by the stack at `my_ip6` and `stack_mac`:
/// writes the reply frame, if there is one, to the start of `out_buf` and
/// returns its length; returns 0 and leaves `out_buf` as it was otherwise.
pub fn process_ipv6_frame(
    my_ip6: Ipv6Address,
    stack_mac: MacAddress,
    raw_data: &[u8],
    out_buf: &mut [u8; MTU],
) -> (len: usize)
    requires
        !reply_out_of_bounds(my_ip6.0@, raw_data@),
    ensures
        match ipv6_reply(my_ip6.0@, stack_mac.0@, raw_data@) {
            Some(reply) => len == reply.len() && final(out_buf)@ == splice(
                old(out_buf)@,
                0,
                reply,
            ),
            None => len == 0 && final(out_buf)@ == old(out_buf)@,
        },
{
    let ghost raw = raw_data@;
    let ghost b0 = out_buf@;
    let frame = match EthernetFrame::new(raw_data) {
        Some(f) => f,
        None => return 0,
    };
    match frame.ether_type() {
        EtherType::IPv6 => {},
        _ => return 0,
    }
    let ip_pkt = match Ipv6Packet::new(frame.payload()) {
        Some(p) => p,
        None => return 0,
    };
    let dest = ip_pkt.dest_ip();
    if !(dest == my_ip6 || dest.is_multicast()) {
        return 0;
    }
    match ip_pkt.next_header() {
        Ipv6NextHeader::ICMPv6 => {},
        _ => return 0,
    }
    let icmp_pkt = match Icmpv6Packet::new(ip_pkt.payload()) {
        Some(p) => p,
        None => return 0,
    };
    match icmp_pkt.icmpv6_type() {
        Icmpv6Type::EchoRequest => {
            let payload = icmp_pkt.payload();
            let len = ETH_HDR_LEN + IPV6_HDR_LEN + ICMPV6_HDR_LEN + payload.len();
            let src = ip_pkt.source_ip();
            let identifier = read_u16_at(icmp_pkt.data, 4);
            let seq_num = read_u16_at(icmp_pkt.data, 6);
            let ghost m = echo_reply_message(identifier, seq_num, payload@);
            proof {
                lemma_word_sum_bound(my_ip6.0@);
                lemma_word_sum_bound(src.0@);
                lemma_word_sum_bound(m);
            }
            let out: &mut [u8] = out_buf;
            write_eth_header_at(out, 0, frame.source(), stack_mac, EtherType::IPv6);
            write_ipv6_header_at(
                out,
                ETH_HDR_LEN,
                my_ip6,
                src,
                Ipv6NextHeader::ICMPv6,
                u16_from_len(ICMPV6_HDR_LEN + payload.len()),
            );
            write_echo_reply_at(out, REPLY_HDRS_LEN, my_ip6, src, identifier, seq_num, payload);
            assert(out_buf@ =~= splice(b0, 0, echo_reply_frame(my_ip6.0@, stack_mac.0@, raw)));
            len
        },
        Icmpv6Type::NeighborSolicitation => {
            let target_ip = ipv6_address_at(icmp_pkt.data, 8);
            if target_ip == my_ip6 {
                let src = ip_pkt.source_ip();
                let out: &mut [u8] = out_buf;
                write_eth_header_at(out, 0, frame.source(), stack_mac, EtherType::IPv6);
                write_ipv6_header_at(
                    out,
                    ETH_HDR_LEN,
                    my_ip6,
                    src,
                    Ipv6NextHeader::ICMPv6,
                    32,
                );
                write_neighbor_advertisement_at(
                    out,
                    REPLY_HDRS_LEN,
                    my_ip6,
                    src,
                    my_ip6,
                    stack_mac,
                );
                assert(out_buf@ =~= splice(
                    b0,
                    0,
                    advertisement_frame(my_ip6.0@, stack_mac.0@, raw),
                ));
                return REPLY_HDRS_LEN + NEIGHBOR_ADVERTISEMENT_LEN;
            }
            0
        },
        _ => 0,
    }
}

/// The answer to an echo request is an echo reply sent back to the requester:
/// the frame goes from the stack's MAC address to the requester's, the IPv6
/// packet from `my_ip` to the requester's address, and the ICMPv6 message is
/// an echo reply with the request's identifier, sequence number and payload,
/// whose checksum verifies.
pub proof fn lemma_echo_request_answered(my_ip: Ipv6Address, my_mac: MacAddress, raw: Seq<u8>)
    requires
        is_echo_request_for(my_ip.0@, raw),
        !reply_out_of_bounds(my_ip.0@, raw),
    ensures
        ({
            let reply = echo_reply_frame(my_ip.0@, my_mac.0@, raw);
            let ip = frame_payload(reply);
            let msg = ipv6_payload(ip);
            let request_ip = frame_ip(raw);
            let request = frame_message(raw);
            &&& reply.len() >= ETH_HDR_LEN
            &&& frame_destination(reply) == frame_source(raw)
            &&& frame_source(reply) == my_mac.0@
            &&& frame_ether_type(reply) == EtherType::IPv6
            &&& ipv6_valid(ip)
            &&& ipv6_source(ip) == my_ip.0@
            &&& ipv6_dest(ip) == ipv6_source(request_ip)
            &&& ipv6_next_header(ip) == Ipv6NextHeader::ICMPv6
            &&& message_valid(msg)
            &&& message_type(msg) == Icmpv6Type::EchoReply
            &&& be_u16(msg[4], msg[5]) == be_u16(request[4], request[5])
            &&& be_u16(msg[6], msg[7]) == be_u16(request[6], request[7])
            &&& message_payload(msg) == message_payload(request)
            &&& pseudo_checksum(my_ip.0@, ipv6_source(request_ip), msg) == 0
        }),
{
    let request_ip = frame_ip(raw);
    let request = frame_message(raw);
    let payload = message_payload(request);
    let identifier = be_u16(request[4], request[5]);
    let seq_num = be_u16(request[6], request[7]);
    let m = echo_reply_message(identifier, seq_num, payload);
    let w = with_checksum(m, pseudo_checksum(my_ip.0@, ipv6_source(request_ip), m));
    let plen = len_u16(ICMPV6_HDR_LEN + payload.len());
    let h = ipv6_header_bytes(my_ip.0@, ipv6_source(request_ip), Ipv6NextHeader::ICMPv6, plen);
    let e = eth_header_bytes(frame_source(raw), my_mac.0@, EtherType::IPv6);
    let reply = echo_reply_frame(my_ip.0@, my_mac.0@, raw);
    assert(reply == e + (h + w));
    lemma_ethernet_header_roundtrip(frame_source(raw), my_mac.0@, EtherType::IPv6, h + w);
    assert(plen == w.len());
    lemma_ipv6_header_roundtrip(
        my_ip.0@,
        ipv6_source(request_ip),
        Ipv6NextHeader::ICMPv6,
        plen,
        w,
    );
    lemma_bytes_upto_len(w);
    lemma_echo_reply_roundtrip(
        my_ip.0@,
        ipv6_source(request_ip),
        identifier,
        seq_num,
        payload,
        Seq::<u8>::empty(),
    );
    assert(w + Seq::<u8>::empty() =~= w);
    assert(payload + Seq::<u8>::empty() =~= payload);
}

/// The answer to a neighbor solicitation for `my_ip` is a neighbor
/// advertisement sent back to the soliciting node: the frame goes from the
/// stack's MAC address to the solicitor's, the IPv6 packet from `my_ip` to the
/// solicitor's address, and the ICMPv6 message advertises `my_ip` at the
/// stack's MAC address, with a checksum that verifies.
pub proof fn lemma_solicitation_answered(my_ip: Ipv6Address, my_mac: MacAddress, raw: Seq<u8>)
    requires
        is_solicitation_for(my_ip.0@, raw),
        frame_message(raw).len() >= 24,
        frame_message(raw).subrange(8, 24) == my_ip.0@,
    ensures
        ({
            let reply = advertisement_frame(my_ip.0@, my_mac.0@, raw);
            let ip = frame_payload(reply);
            let msg = ipv6_payload(ip);
            let request_ip = frame_ip(raw);
            &&& ipv6_reply(my_ip.0@, my_mac.0@, raw) == Some(reply)
            &&& reply.len() >= ETH_HDR_LEN
            &&& frame_destination(reply) == frame_source(raw)
            &&& frame_source(reply) == my_mac.0@
            &&& frame_ether_type(reply) == EtherType::IPv6
            &&& ipv6_valid(ip)
            &&& ipv6_source(ip) == my_ip.0@
            &&& ipv6_dest(ip) == ipv6_source(request_ip)
            &&& ipv6_next_header(ip) == Ipv6NextHeader::ICMPv6
            &&& message_valid(msg)
            &&& message_type(msg) == Icmpv6Type::NeighborAdvertisement
            &&& msg[4] == 0x60
            &&& msg.subrange(8, 24) == my_ip.0@
            &&& msg[24] == 2
            &&& msg[25] == 1
            &&& msg.subrange(26, 32) == my_mac.0@
            &&& pseudo_checksum(my_ip.0@, ipv6_source(request_ip), msg) == 0
        }),
{
    let request_ip = frame_ip(raw);
    let m = neighbor_advertisement_message(my_ip.0@, my_mac.0@);
    let w = with_checksum(m, pseudo_checksum(my_ip.0@, ipv6_source(request_ip), m));
    let h = ipv6_header_bytes(my_ip.0@, ipv6_source(request_ip), Ipv6NextHeader::ICMPv6, 32u16);
    let e = eth_header_bytes(frame_source(raw), my_mac.0@, EtherType::IPv6);
    let reply = advertisement_frame(my_ip.0@, my_mac.0@, raw);
    assert(reply == e + (h + w));
    lemma_ethernet_header_roundtrip(frame_source(raw), my_mac.0@, EtherType::IPv6, h + w);
    assert(w.len() == 32);
    lemma_ipv6_header_roundtrip(
        my_ip.0@,
        ipv6_source(request_ip),
        Ipv6NextHeader::ICMPv6,
        32u16,
        w,
    );
    lemma_bytes_upto_len(w);
    lemma_neighbor_advertisement_roundtrip(
        my_ip.0@,
        ipv6_source(request_ip),
        my_ip,
        my_mac,
        Seq::<u8>::empty(),
    );
    assert(w + Seq::<u8>::empty() =~= w);
}

/// Only frames addressed to the stack are answered: a frame that gets a reply
/// holds an IPv6 packet whose destination (bytes 38..54) is `my_ip` or a
/// multicast address (first byte 0xff).
pub proof fn lemma_reply_only_to_stack(my_ip: Ipv6Address, my_mac: MacAddress, raw: Seq<u8>)
    ensures
        ipv6_reply(my_ip.0@, my_mac.0@, raw) is Some ==> raw.len() >= 54 && (raw.subrange(38, 54)
            == my_ip.0@ || raw[38] == 0xff),
{
    if ipv6_reply(my_ip.0@, my_mac.0@, raw) is Some {
        let ip = frame_ip(raw);
        assert(ipv6_dest(ip) =~= raw.subrange(38, 54));
        assert(ip[24] == raw[38]);
    }
}

/// Every ping and every neighbor solicitation for `my_ip` that is addressed to
/// the stack, i.e. sent to `my_ip` or to any multicast address (first byte
/// 0xff), is answered. The frame here is Ethernet (EtherType 0x86DD) carrying
/// a version-6 IPv6 packet with next header 58 whose payload-length field
/// covers exactly the rest of the frame. The reply goes from `my_mac` to the
/// sender's MAC address and from `my_ip` to the sender's IPv6 address; a ping
/// (type 128) gets an echo reply (type 129) of the same length with the same
/// identifier, sequence number and payload, and a solicitation (type 135)
/// whose target is `my_ip` gets an 86-byte neighbor advertisement (type 136)
/// for `my_ip` at `my_mac`.
/// The layout facts behind `lemma_request_to_stack_answered`.
proof fn lemma_request_layout(my_ip: Ipv6Address, raw: Seq<u8>)
    requires
        62 <= raw.len() <= MTU,
        raw[12] == 0x86,
        raw[13] == 0xdd,
        0x60 <= raw[14] <= 0x6f,
        raw[18] * 256 + raw[19] == raw.len() - 54,
        raw[20] == 58,
        raw.subrange(38, 54) == my_ip.0@ || raw[38] == 0xff,
    ensures
        is_message_for(my_ip.0@, raw),
        ipv6_source(frame_ip(raw)) == raw.subrange(22, 38),
        frame_source(raw) == raw.subrange(6, 12),
        frame_message(raw) == raw.subrange(54, raw.len() as int),
{
    let ip = frame_ip(raw);
    let len = raw.len() as int;
    assert(ip =~= raw.subrange(14, len));
    assert(ip[0] == raw[14]);
    assert(ip[4] == raw[18] && ip[5] == raw[19] && ip[6] == raw[20] && ip[24] == raw[38]);
    assert(ipv6_dest(ip) =~= raw.subrange(38, 54));
    assert(ipv6_source(ip) =~= raw.subrange(22, 38));
    assert(frame_message(raw) =~= raw.subrange(54, len));
    assert(frame_ether_type(raw) == EtherType::IPv6);
}

proof fn lemma_echo_reply_layout(my_ip: Ipv6Address, my_mac: MacAddress, raw: Seq<u8>)
    requires
        62 <= raw.len() <= MTU,
        raw[12] == 0x86,
        raw[13] == 0xdd,
        0x60 <= raw[14] <= 0x6f,
        raw[18] * 256 + raw[19] == raw.len() - 54,
        raw[20] == 58,
        raw.subrange(38, 54) == my_ip.0@ || raw[38] == 0xff,
        raw[54] == 128,
    ensures
        ({
            let reply = echo_reply_frame(my_ip.0@, my_mac.0@, raw);
            &&& reply.len() == raw.len()
            &&& reply.subrange(0, 6) == raw.subrange(6, 12)
            &&& reply.subrange(6, 12) == my_mac.0@
            &&& reply[12] == 0x86 && reply[13] == 0xdd
            &&& reply.subrange(22, 38) == my_ip.0@
            &&& reply.subrange(38, 54) == raw.subrange(22, 38)
            &&& reply[54] == 129
            &&& reply.subrange(58, reply.len() as int) == raw.subrange(58, raw.len() as int)
        }),
{
    lemma_request_layout(my_ip, raw);
    let len = raw.len() as int;
    let ip = frame_ip(raw);
    let msg = frame_message(raw);
    let payload = message_payload(msg);
    assert(payload =~= raw.subrange(62, len));
    let id = be_u16(msg[4], msg[5]);
    let sq = be_u16(msg[6], msg[7]);
    let m = echo_reply_message(id, sq, payload);
    let w = with_checksum(m, pseudo_checksum(my_ip.0@, ipv6_source(ip), m));
    let h = ipv6_header_bytes(
        my_ip.0@,
        ipv6_source(ip),
        Ipv6NextHeader::ICMPv6,
        len_u16(ICMPV6_HDR_LEN + payload.len()),
    );
    let e = eth_header_bytes(frame_source(raw), my_mac.0@, EtherType::IPv6);
    let reply = echo_reply_frame(my_ip.0@, my_mac.0@, raw);
    assert(reply == e + h + w);
    assert(reply.subrange(0, 6) =~= e.subrange(0, 6));
    assert(reply.subrange(6, 12) =~= e.subrange(6, 12));
    assert(reply.subrange(22, 38) =~= h.subrange(8, 24));
    assert(reply.subrange(38, 54) =~= h.subrange(24, 40));
    crate::wire::lemma_be_u16_roundtrip(id);
    crate::wire::lemma_be_u16_roundtrip(sq);
    assert(msg[4] == raw[58] && msg[5] == raw[59] && msg[6] == raw[60] && msg[7] == raw[61]);
    assert(reply.subrange(58, reply.len() as int) =~= w.subrange(4, w.len() as int));
    assert(w.subrange(4, w.len() as int) =~= raw.subrange(58, len));
}

proof fn lemma_advertisement_layout(my_ip: Ipv6Address, my_mac: MacAddress, raw: Seq<u8>)
    requires
        62 <= raw.len() <= MTU,
        raw[12] == 0x86,
        raw[13] == 0xdd,
        0x60 <= raw[14] <= 0x6f,
        raw[18] * 256 + raw[19] == raw.len() - 54,
        raw[20] == 58,
        raw.subrange(38, 54) == my_ip.0@ || raw[38] == 0xff,
        raw.len() >= 78,
    ensures
        ({
            let reply = advertisement_frame(my_ip.0@, my_mac.0@, raw);
            &&& reply.len() == 86
            &&& reply.subrange(0, 6) == raw.subrange(6, 12)
            &&& reply.subrange(6, 12) == my_mac.0@
            &&& reply[12] == 0x86 && reply[13] == 0xdd
            &&& reply.subrange(22, 38) == my_ip.0@
            &&& reply.subrange(38, 54) == raw.subrange(22, 38)
            &&& reply[54] == 136
            &&& reply.subrange(62, 78) == my_ip.0@
            &&& reply.subrange(80, 86) == my_mac.0@
        }),
{
    lemma_request_layout(my_ip, raw);
    let ip = frame_ip(raw);
    let m = neighbor_advertisement_message(my_ip.0@, my_mac.0@);
    let w = with_checksum(m, pseudo_checksum(my_ip.0@, ipv6_source(ip), m));
    let h = ipv6_header_bytes(my_ip.0@, ipv6_source(ip), Ipv6NextHeader::ICMPv6, 32u16);
    let e = eth_header_bytes(frame_source(raw), my_mac.0@, EtherType::IPv6);
    let reply = advertisement_frame(my_ip.0@, my_mac.0@, raw);
    assert(reply == e + h + w);
    assert(reply.subrange(0, 6) =~= e.subrange(0, 6));
    assert(reply.subrange(6, 12) =~= e.subrange(6, 12));
    assert(reply.subrange(22, 38) =~= h.subrange(8, 24));
    assert(reply.subrange(38, 54) =~= h.subrange(24, 40));
    assert(reply.subrange(62, 78) =~= w.subrange(8, 24));
    assert(reply.subrange(80, 86) =~= w.subrange(26, 32));
}

pub proof fn lemma_request_to_stack_answered(my_ip: Ipv6Address, my_mac: MacAddress, raw: Seq<u8>)
    requires
        62 <= raw.len() <= MTU,
        raw[12] == 0x86,
        raw[13] == 0xdd,
        0x60 <= raw[14] <= 0x6f,
        raw[18] * 256 + raw[19] == raw.len() - 54,
        raw[20] == 58,
        raw.subrange(38, 54) == my_ip.0@ || raw[38] == 0xff,
        raw[54] == 128 || (raw[54] == 135 && raw.len() >= 78 && raw.subrange(62, 78) == my_ip.0@),
    ensures
        ipv6_reply(my_ip.0@, my_mac.0@, raw) matches Some(reply) && {
            &&& reply.len() >= 62
            &&& reply.subrange(0, 6) == raw.subrange(6, 12)
            &&& reply.subrange(6, 12) == my_mac.0@
            &&& reply[12] == 0x86 && reply[13] == 0xdd
            &&& reply.subrange(22, 38) == my_ip.0@
            &&& reply.subrange(38, 54) == raw.subrange(22, 38)
            &&& raw[54] == 128 ==> {
                &&& reply.len() == raw.len()
                &&& reply[54] == 129
                &&& reply.subrange(58, reply.len() as int) == raw.subrange(58, raw.len() as int)
            }
            &&& raw[54] == 135 ==> {
                &&& reply.len() == 86
                &&& reply[54] == 136
                &&& reply.subrange(62, 78) == my_ip.0@
                &&& reply.subrange(80, 86) == my_mac.0@
            }
        },
        !reply_out_of_bounds(my_ip.0@, raw),
{
    lemma_request_layout(my_ip, raw);
    let msg = frame_message(raw);
    assert(msg[0] == raw[54]);
    if raw[54] == 128 {
        lemma_echo_reply_layout(my_ip, my_mac, raw);
    } else {
        assert(msg.subrange(8, 24) =~= raw.subrange(62, 78));
        lemma_advertisement_layout(my_ip, my_mac, raw);
    }
}

} // verus!
