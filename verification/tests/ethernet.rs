use isla::ethernet::{EtherType, EthernetFrame, MacAddress};

#[test]
fn test_ethernet_parsing() {
    let mut data = [0u8; 14];
    let dest = MacAddress([0x01, 0x23, 0x45, 0x67, 0x89, 0xab]);
    let src = MacAddress([0xcd, 0xef, 0x01, 0x23, 0x45, 0x67]);
    EthernetFrame::write_header(&mut data, dest, src, EtherType::IPv4);

    let frame = EthernetFrame::new(&data).unwrap();
    assert_eq!(frame.destination(), dest);
    assert_eq!(frame.source(), src);
    assert_eq!(frame.ether_type(), EtherType::IPv4);
}

#[test]
fn ethernet_header_bytes_are_network_order() {
    let mut data = [0xAAu8; 20];
    let dest = MacAddress([1, 2, 3, 4, 5, 6]);
    let src = MacAddress([7, 8, 9, 10, 11, 12]);
    EthernetFrame::write_header(&mut data, dest, src, EtherType::IPv6);
    assert_eq!(&data[0..6], &[1, 2, 3, 4, 5, 6]);
    assert_eq!(&data[6..12], &[7, 8, 9, 10, 11, 12]);
    assert_eq!(data[12], 0x86);
    assert_eq!(data[13], 0xDD);
    // Bytes after the header are left alone.
    assert_eq!(&data[14..], &[0xAA; 6]);
}

#[test]
fn ethernet_frame_too_short() {
    let data = [0u8; 13];
    assert!(EthernetFrame::new(&data).is_none());
    let data = [0u8; 14];
    assert!(EthernetFrame::new(&data).is_some());
}

#[test]
fn ethernet_payload_is_rest_of_frame() {
    let mut data = [0u8; 18];
    EthernetFrame::write_header(&mut data, MacAddress([0; 6]), MacAddress([0; 6]), EtherType::ARP);
    data[14..].copy_from_slice(&[9, 8, 7, 6]);
    let frame = EthernetFrame::new(&data).unwrap();
    assert_eq!(frame.payload(), &[9, 8, 7, 6]);
    assert_eq!(frame.ether_type(), EtherType::ARP);
}

#[test]
fn ether_type_codes() {
    assert_eq!(EtherType::from(0x0800), EtherType::IPv4);
    assert_eq!(EtherType::from(0x0806), EtherType::ARP);
    assert_eq!(EtherType::from(0x86DD), EtherType::IPv6);
    assert_eq!(EtherType::from(0x1234), EtherType::Unknown(0x1234));
    let v: u16 = EtherType::IPv6.into();
    assert_eq!(v, 0x86DD);
    let v: u16 = EtherType::Unknown(0x0800).into();
    assert_eq!(v, 0x0800);
    // A non-canonical Unknown reads back as the named type.
    let mut data = [0u8; 14];
    EthernetFrame::write_header(&mut data, MacAddress([0; 6]), MacAddress([0; 6]), EtherType::Unknown(0x0806));
    assert_eq!(EthernetFrame::new(&data).unwrap().ether_type(), EtherType::ARP);
}

#[test]
fn ethernet_unknown_type_roundtrip() {
    let mut data = [0u8; 14];
    EthernetFrame::write_header(&mut data, MacAddress([0; 6]), MacAddress([0; 6]), EtherType::Unknown(0x88CC));
    assert_eq!(EthernetFrame::new(&data).unwrap().ether_type(), EtherType::Unknown(0x88CC));
}

#[test]
fn mac_address_text() {
    let mac = MacAddress([0xDE, 0xAD, 0xBE, 0xEF, 0x00, 0x01]);
    assert_eq!(mac.to_string(), "de:ad:be:ef:00:01");
    assert_eq!(MacAddress([0xff; 6]).to_string(), "ff:ff:ff:ff:ff:ff");
    assert_eq!(MacAddress([0x0a, 0x1b, 0x2c, 0x3d, 0x4e, 0x5f]).to_string(), "0a:1b:2c:3d:4e:5f");
}

#[test]
fn broadcast_address() {
    assert_eq!(MacAddress::broadcast(), MacAddress([0xff; 6]));
}
