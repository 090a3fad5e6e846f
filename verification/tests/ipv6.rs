use isla::ipv6::{Ipv6Address, Ipv6NextHeader, Ipv6Packet};

#[test]
fn test_ipv6_parsing() {
    let mut data = [0u8; 40];
    let src = Ipv6Address::new(0xfe80, 0, 0, 0, 0, 0, 0, 1);
    let dest = Ipv6Address::new(0xfe80, 0, 0, 0, 0, 0, 0, 2);
    Ipv6Packet::write_header(&mut data, src, dest, Ipv6NextHeader::TCP, 100);

    let packet = Ipv6Packet::new(&data).unwrap();
    assert_eq!(packet.source_ip(), src);
    assert_eq!(packet.dest_ip(), dest);
    assert_eq!(packet.next_header(), Ipv6NextHeader::TCP);
    assert_eq!(packet.payload_length(), 100);
}

#[test]
fn ipv6_header_bytes() {
    let mut data = [0x55u8; 44];
    let src = Ipv6Address::new(0x2001, 0xdb8, 0, 0, 0, 0, 0, 1);
    let dest = Ipv6Address::new(0xff02, 0, 0, 0, 0, 0, 0, 1);
    Ipv6Packet::write_header(&mut data, src, dest, Ipv6NextHeader::ICMPv6, 0x0102);
    assert_eq!(&data[0..8], &[0x60, 0, 0, 0, 0x01, 0x02, 58, 64]);
    assert_eq!(&data[8..24], &src.octets());
    assert_eq!(&data[24..40], &dest.octets());
    assert_eq!(&data[40..], &[0x55; 4]);
    let packet = Ipv6Packet::new(&data).unwrap();
    assert_eq!(packet.hop_limit(), 64);
    assert_eq!(packet.payload_length(), 0x0102);
}

#[test]
fn ipv6_rejects_short_or_wrong_version() {
    assert!(Ipv6Packet::new(&[0x60u8; 39]).is_none());
    let mut data = [0u8; 40];
    data[0] = 0x45;
    assert!(Ipv6Packet::new(&data).is_none());
    data[0] = 0x6f;
    assert!(Ipv6Packet::new(&data).is_some());
}

#[test]
fn ipv6_payload_follows_length_field() {
    let mut data = [0u8; 46];
    let a = Ipv6Address::new(0, 0, 0, 0, 0, 0, 0, 1);
    Ipv6Packet::write_header(&mut data, a, a, Ipv6NextHeader::UDP, 4);
    data[40..].copy_from_slice(&[1, 2, 3, 4, 5, 6]);
    let packet = Ipv6Packet::new(&data).unwrap();
    assert_eq!(packet.payload(), &[1, 2, 3, 4]);
    // A length beyond the buffer gives everything after the header.
    Ipv6Packet::write_header(&mut data, a, a, Ipv6NextHeader::UDP, 100);
    let packet = Ipv6Packet::new(&data).unwrap();
    assert_eq!(packet.payload(), &[1, 2, 3, 4, 5, 6]);
}

#[test]
fn ipv6_next_header_codes() {
    assert_eq!(Ipv6NextHeader::from(58), Ipv6NextHeader::ICMPv6);
    assert_eq!(Ipv6NextHeader::from(6), Ipv6NextHeader::TCP);
    assert_eq!(Ipv6NextHeader::from(17), Ipv6NextHeader::UDP);
    assert_eq!(Ipv6NextHeader::from(41), Ipv6NextHeader::Unknown(41));
    let mut data = [0u8; 40];
    let a = Ipv6Address::new(0, 0, 0, 0, 0, 0, 0, 0);
    Ipv6Packet::write_header(&mut data, a, a, Ipv6NextHeader::Unknown(41), 0);
    assert_eq!(data[6], 41);
    assert_eq!(Ipv6Packet::new(&data).unwrap().next_header(), Ipv6NextHeader::Unknown(41));
}

#[test]
fn ipv6_address_parts() {
    let a = Ipv6Address::new(0xfe80, 0x1234, 0, 0, 0, 0, 0xabcd, 1);
    assert_eq!(a.octets(), [0xfe, 0x80, 0x12, 0x34, 0, 0, 0, 0, 0, 0, 0, 0, 0xab, 0xcd, 0, 1]);
    assert_eq!(a.segments(), [0xfe80, 0x1234, 0, 0, 0, 0, 0xabcd, 1]);
    assert!(!a.is_multicast());
    assert!(Ipv6Address::new(0xff02, 0, 0, 0, 0, 0, 0, 1).is_multicast());
    assert!(a == Ipv6Address::new(0xfe80, 0x1234, 0, 0, 0, 0, 0xabcd, 1));
    assert!(a != Ipv6Address::new(0xfe80, 0x1234, 0, 0, 0, 0, 0xabcd, 2));
}
