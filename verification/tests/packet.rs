use isla::packet::{Packet, MTU};

#[test]
fn packet_new_is_empty() {
    let p = Packet::new();
    assert_eq!(p.len, 0);
    assert!(p.data.iter().all(|b| *b == 0));
    assert_eq!(p.data.len(), MTU);
}

#[test]
fn packet_from_slice_copies() {
    let p = Packet::from_slice(&[1, 2, 3]);
    assert_eq!(p.len, 3);
    assert_eq!(&p.data[..3], &[1, 2, 3]);
    assert!(p.data[3..].iter().all(|b| *b == 0));
    let full = [7u8; MTU];
    let q = Packet::from_slice(&full);
    assert_eq!(q.len, MTU);
    assert_eq!(q.data, full);
}
