use isla::ethernet::{EtherType, EthernetFrame, MacAddress};
use isla::icmpv6::{calculate_icmpv6_checksum, Icmpv6Packet, Icmpv6Type};
use isla::ipv6::{Ipv6Address, Ipv6NextHeader, Ipv6Packet};
use isla::packet::MTU;
use isla::responder::{process_ipv6_frame, reply_in_bounds};

const STACK_MAC: MacAddress = MacAddress([0xDE, 0xAD, 0xBE, 0xEF, 0x00, 0x01]);
const PEER_MAC: MacAddress = MacAddress([1, 2, 3, 4, 5, 6]);

fn my_ip() -> Ipv6Address {
    Ipv6Address::new(0xfe80, 0, 0, 0, 0, 0, 0, 1)
}

fn peer_ip() -> Ipv6Address {
    Ipv6Address::new(0xfe80, 0, 0, 0, 0, 0, 0, 2)
}

/// An Ethernet + IPv6 frame carrying `icmp` from the peer to `dest`.
fn frame_with(dest: Ipv6Address, icmp: &[u8]) -> Vec<u8> {
    let mut f = vec![0u8; 54 + icmp.len()];
    EthernetFrame::write_header(&mut f[0..14], STACK_MAC, PEER_MAC, EtherType::IPv6);
    Ipv6Packet::write_header(&mut f[14..54], peer_ip(), dest, Ipv6NextHeader::ICMPv6, icmp.len() as u16);
    f[54..].copy_from_slice(icmp);
    f
}

fn echo_request(payload: &[u8]) -> Vec<u8> {
    let mut icmp = vec![128u8, 0, 0, 0, 0x12, 0x34, 0x00, 0x07];
    icmp.extend_from_slice(payload);
    icmp
}

fn solicitation(target: Ipv6Address) -> Vec<u8> {
    let mut icmp = vec![135u8, 0, 0, 0, 0, 0, 0, 0];
    icmp.extend_from_slice(&target.octets());
    icmp
}

#[test]
fn echo_request_gets_echo_reply() {
    let raw = frame_with(my_ip(), &echo_request(b"hello"));
    let mut out = [0u8; MTU];
    assert!(reply_in_bounds(my_ip(), &raw));
    let len = process_ipv6_frame(my_ip(), STACK_MAC, &raw, &mut out);
    assert_eq!(len, 14 + 40 + 8 + 5);

    let eth = EthernetFrame::new(&out[..len]).unwrap();
    assert_eq!(eth.destination(), PEER_MAC);
    assert_eq!(eth.source(), STACK_MAC);
    assert_eq!(eth.ether_type(), EtherType::IPv6);
    let ip = Ipv6Packet::new(eth.payload()).unwrap();
    assert_eq!(ip.source_ip(), my_ip());
    assert_eq!(ip.dest_ip(), peer_ip());
    assert_eq!(ip.next_header(), Ipv6NextHeader::ICMPv6);
    assert_eq!(ip.payload_length(), 13);
    assert_eq!(ip.hop_limit(), 64);
    let icmp = Icmpv6Packet::new(ip.payload()).unwrap();
    assert_eq!(icmp.icmpv6_type(), Icmpv6Type::EchoReply);
    assert_eq!(&icmp.data[4..8], &[0x12, 0x34, 0x00, 0x07]);
    assert_eq!(icmp.payload(), b"hello");
    assert_eq!(calculate_icmpv6_checksum(&my_ip(), &peer_ip(), icmp.data), 0);
    // Nothing after the reply is touched.
    assert!(out[len..].iter().all(|b| *b == 0));
}

#[test]
fn multicast_echo_request_is_answered() {
    let group = Ipv6Address::new(0xff02, 0, 0, 0, 0, 0, 0, 1);
    let raw = frame_with(group, &echo_request(b""));
    let mut out = [0u8; MTU];
    let len = process_ipv6_frame(my_ip(), STACK_MAC, &raw, &mut out);
    assert_eq!(len, 62);
}

#[test]
fn solicitation_for_me_gets_advertisement() {
    let raw = frame_with(my_ip(), &solicitation(my_ip()));
    let mut out = [0u8; MTU];
    assert!(reply_in_bounds(my_ip(), &raw));
    let len = process_ipv6_frame(my_ip(), STACK_MAC, &raw, &mut out);
    assert_eq!(len, 86);
    let eth = EthernetFrame::new(&out[..len]).unwrap();
    assert_eq!(eth.destination(), PEER_MAC);
    let ip = Ipv6Packet::new(eth.payload()).unwrap();
    assert_eq!(ip.payload_length(), 32);
    assert_eq!(ip.dest_ip(), peer_ip());
    let icmp = Icmpv6Packet::new(ip.payload()).unwrap();
    assert_eq!(icmp.icmpv6_type(), Icmpv6Type::NeighborAdvertisement);
    assert_eq!(icmp.data[4], 0x60);
    assert_eq!(&icmp.data[8..24], &my_ip().octets());
    assert_eq!(&icmp.data[26..32], &STACK_MAC.0);
    assert_eq!(calculate_icmpv6_checksum(&my_ip(), &peer_ip(), icmp.data), 0);
}

#[test]
fn solicitation_for_other_target_is_ignored() {
    let other = Ipv6Address::new(0xfe80, 0, 0, 0, 0, 0, 0, 9);
    let raw = frame_with(my_ip(), &solicitation(other));
    let mut out = [0x11u8; MTU];
    assert_eq!(process_ipv6_frame(my_ip(), STACK_MAC, &raw, &mut out), 0);
    assert!(out.iter().all(|b| *b == 0x11));
}

#[test]
fn frames_not_for_the_stack_are_ignored() {
    let mut out = [0u8; MTU];
    // Addressed to another unicast address.
    let raw = frame_with(peer_ip(), &echo_request(b"x"));
    assert_eq!(process_ipv6_frame(my_ip(), STACK_MAC, &raw, &mut out), 0);
    // Not IPv6.
    let mut raw = frame_with(my_ip(), &echo_request(b"x"));
    raw[12] = 0x08;
    raw[13] = 0x00;
    assert_eq!(process_ipv6_frame(my_ip(), STACK_MAC, &raw, &mut out), 0);
    // Too short to be a frame.
    assert_eq!(process_ipv6_frame(my_ip(), STACK_MAC, &[0u8; 10], &mut out), 0);
    // Not ICMPv6.
    let mut raw = frame_with(my_ip(), &echo_request(b"x"));
    raw[14 + 6] = 17;
    assert_eq!(process_ipv6_frame(my_ip(), STACK_MAC, &raw, &mut out), 0);
    // An echo reply is not answered.
    let mut raw = frame_with(my_ip(), &echo_request(b"x"));
    raw[54] = 129;
    assert_eq!(process_ipv6_frame(my_ip(), STACK_MAC, &raw, &mut out), 0);
    assert!(out.iter().all(|b| *b == 0));
}

#[test]
fn truncated_solicitation_is_out_of_bounds() {
    let raw = frame_with(my_ip(), &[135u8, 0, 0, 0, 0, 0, 0, 0, 1, 2]);
    assert!(!reply_in_bounds(my_ip(), &raw));
    let big = frame_with(my_ip(), &echo_request(&[0u8; MTU]));
    assert!(!reply_in_bounds(my_ip(), &big));
}
