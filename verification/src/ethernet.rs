//! Ethernet II frames: MAC addresses, EtherType codes, header parsing and writing.

use crate::wire::{be_bytes, be_u16, copy_bytes_at, read_u16_at, splice, write_u16_at};
use vstd::prelude::*;
use vstd::slice::slice_subrange;

verus! {

pub const ETH_ADDR_LEN: usize = 6;

pub const ETH_HDR_LEN: usize = 14;

/// A 48-bit hardware address.
#[derive(Copy, Clone, PartialEq, Eq, Debug)]
pub struct MacAddress(pub [u8; ETH_ADDR_LEN]);

/// The lower-case hexadecimal digit for `d` (`0 <= d < 16`).
pub open spec fn hex_digit(d: int) -> char {
    if d < 10 {
        (48 + d) as char
    } else {
        (87 + d) as char
    }
}

/// Two hexadecimal digits for the byte `b`, high nibble first.
pub open spec fn hex_byte(b: u8) -> Seq<char> {
    seq![hex_digit(b as int / 16), hex_digit(b as int % 16)]
}

/// The text of a MAC address: six two-digit hexadecimal groups joined by `:`.
pub open spec fn mac_text(a: Seq<u8>) -> Seq<char> {
    hex_byte(a[0]) + seq![':'] + hex_byte(a[1]) + seq![':'] + hex_byte(a[2]) + seq![':']
        + hex_byte(a[3]) + seq![':'] + hex_byte(a[4]) + seq![':'] + hex_byte(a[5])
}

/// The sixteen lower-case hexadecimal digits, in order of value.
pub open spec fn hex_digit_table() -> Seq<char> {
    seq!['0', '1', '2', '3', '4', '5', '6', '7', '8', '9', 'a', 'b', 'c', 'd', 'e', 'f']
}

proof fn lemma_hex_digit_table(d: int)
    requires
        0 <= d < 16,
    ensures
        hex_digit(d) == hex_digit_table()[d],
{
    if d == 0 {
        assert(hex_digit(0) == '0');
    } else if d == 1 {
        assert(hex_digit(1) == '1');
    } else if d == 2 {
        assert(hex_digit(2) == '2');
    } else if d == 3 {
        assert(hex_digit(3) == '3');
    } else if d == 4 {
        assert(hex_digit(4) == '4');
    } else if d == 5 {
        assert(hex_digit(5) == '5');
    } else if d == 6 {
        assert(hex_digit(6) == '6');
    } else if d == 7 {
        assert(hex_digit(7) == '7');
    } else if d == 8 {
        assert(hex_digit(8) == '8');
    } else if d == 9 {
        assert(hex_digit(9) == '9');
    } else if d == 10 {
        assert(hex_digit(10) == 'a');
    } else if d == 11 {
        assert(hex_digit(11) == 'b');
    } else if d == 12 {
        assert(hex_digit(12) == 'c');
    } else if d == 13 {
        assert(hex_digit(13) == 'd');
    } else if d == 14 {
        assert(hex_digit(14) == 'e');
    } else {
        assert(hex_digit(15) == 'f');
    }
}

/// The text of a MAC address has 17 characters: for each of the six bytes,
/// the lower-case hexadecimal digit of its high nibble then that of its low
/// nibble, the six pairs separated by `:`.
pub proof fn lemma_mac_text_digits(a: Seq<u8>)
    requires
        a.len() == ETH_ADDR_LEN,
    ensures
        ({
            let t = hex_digit_table();
            mac_text(a) == seq![
                t[a[0] as int / 16],
                t[a[0] as int % 16],
                ':',
                t[a[1] as int / 16],
                t[a[1] as int % 16],
                ':',
                t[a[2] as int / 16],
                t[a[2] as int % 16],
                ':',
                t[a[3] as int / 16],
                t[a[3] as int % 16],
                ':',
                t[a[4] as int / 16],
                t[a[4] as int % 16],
                ':',
                t[a[5] as int / 16],
                t[a[5] as int % 16],
            ]
        }),
{
    let t = hex_digit_table();
    lemma_hex_digit_table(a[0] as int / 16);
    lemma_hex_digit_table(a[0] as int % 16);
    lemma_hex_digit_table(a[1] as int / 16);
    lemma_hex_digit_table(a[1] as int % 16);
    lemma_hex_digit_table(a[2] as int / 16);
    lemma_hex_digit_table(a[2] as int % 16);
    lemma_hex_digit_table(a[3] as int / 16);
    lemma_hex_digit_table(a[3] as int % 16);
    lemma_hex_digit_table(a[4] as int / 16);
    lemma_hex_digit_table(a[4] as int % 16);
    lemma_hex_digit_table(a[5] as int / 16);
    lemma_hex_digit_table(a[5] as int % 16);
    assert(mac_text(a) =~= seq![
        t[a[0] as int / 16],
                t[a[0] as int % 16],
                ':',
                t[a[1] as int / 16],
                t[a[1] as int % 16],
                ':',
                t[a[2] as int / 16],
                t[a[2] as int % 16],
                ':',
                t[a[3] as int / 16],
                t[a[3] as int % 16],
                ':',
                t[a[4] as int / 16],
                t[a[4] as int % 16],
                ':',
                t[a[5] as int / 16],
                t[a[5] as int % 16],
    ]);
}

fn hex_digit_str(d: u8) -> (s: &'static str)
    requires
        d < 16,
    ensures
        s@ == seq![hex_digit(d as int)],
{
    match d {
        0 => {
            proof { reveal_strlit("0"); }
            "0"
        },
        1 => {
            proof { reveal_strlit("1"); }
            "1"
        },
        2 => {
            proof { reveal_strlit("2"); }
            "2"
        },
        3 => {
            proof { reveal_strlit("3"); }
            "3"
        },
        4 => {
            proof { reveal_strlit("4"); }
            "4"
        },
        5 => {
            proof { reveal_strlit("5"); }
            "5"
        },
        6 => {
            proof { reveal_strlit("6"); }
            "6"
        },
        7 => {
            proof { reveal_strlit("7"); }
            "7"
        },
        8 => {
            proof { reveal_strlit("8"); }
            "8"
        },
        9 => {
            proof { reveal_strlit("9"); }
            "9"
        },
        10 => {
            proof { reveal_strlit("a"); }
            "a"
        },
        11 => {
            proof { reveal_strlit("b"); }
            "b"
        },
        12 => {
            proof { reveal_strlit("c"); }
            "c"
        },
        13 => {
            proof { reveal_strlit("d"); }
            "d"
        },
        14 => {
            proof { reveal_strlit("e"); }
            "e"
        },
        _ => {
            proof { reveal_strlit("f"); }
            "f"
        },
    }
}

impl MacAddress {
    /// The all-ones broadcast address.
    pub fn broadcast() -> (mac: MacAddress)
        ensures
            mac.0@ == seq![0xffu8, 0xffu8, 0xffu8, 0xffu8, 0xffu8, 0xffu8],
    {
        let mac = MacAddress([0xff; ETH_ADDR_LEN]);
        assert(mac.0@ =~= seq![0xffu8, 0xffu8, 0xffu8, 0xffu8, 0xffu8, 0xffu8]);
        mac
    }

    /// The address in the usual notation, e.g. `de:ad:be:ef:00:01`.
    pub fn to_string(&self) -> (s: String)
        ensures
            s@ == mac_text(self.0@),
    {
        let mut s = String::new();
        let mut i: usize = 0;
        while i < ETH_ADDR_LEN
            invariant
                i <= ETH_ADDR_LEN,
                i > 0 ==> s@ == mac_text(self.0@).subrange(0, 3 * i - 1),
                i == 0 ==> s@ == Seq::<char>::empty(),
            decreases ETH_ADDR_LEN - i,
        {
            let b = self.0[i];
            if i > 0 {
                proof { reveal_strlit(":"); }
                s.append(":");
            }
            s.append(hex_digit_str(b / 16));
            s.append(hex_digit_str(b % 16));
            i = i + 1;
            assert(s@ =~= mac_text(self.0@).subrange(0, 3 * i - 1));
        }
        s
    }
}

/// The protocol carried in an Ethernet frame.
#[derive(Debug, Copy, Clone, PartialEq, Eq, Structural)]
pub enum EtherType {
    IPv4,
    ARP,
    IPv6,
    Unknown(u16),
}

/// The EtherType that the code `val` names.
pub open spec fn ether_type_of(val: u16) -> EtherType {
    if val == 0x0800 {
        EtherType::IPv4
    } else if val == 0x0806 {
        EtherType::ARP
    } else if val == 0x86DD {
        EtherType::IPv6
    } else {
        EtherType::Unknown(val)
    }
}

/// The code written on the wire for an EtherType.
pub open spec fn ether_type_value(t: EtherType) -> u16 {
    match t {
        EtherType::IPv4 => 0x0800,
        EtherType::ARP => 0x0806,
        EtherType::IPv6 => 0x86DD,
        EtherType::Unknown(val) => val,
    }
}

/// An EtherType is canonical when decoding its code gives it back: every
/// named variant is, and `Unknown(v)` is unless `v` is the code of a named one.
pub open spec fn ether_type_canonical(t: EtherType) -> bool {
    ether_type_of(ether_type_value(t)) == t
}

impl From<u16> for EtherType {
    fn from(val: u16) -> (t: Self) {
        match val {
            0x0800 => EtherType::IPv4,
            0x0806 => EtherType::ARP,
            0x86DD => EtherType::IPv6,
            other => EtherType::Unknown(other),
        }
    }
}

impl vstd::std_specs::convert::FromSpecImpl<u16> for EtherType {
    open spec fn obeys_from_spec() -> bool {
        true
    }

    open spec fn from_spec(val: u16) -> Self {
        ether_type_of(val)
    }
}

impl From<EtherType> for u16 {
    fn from(t: EtherType) -> (val: u16) {
        match t {
            EtherType::IPv4 => 0x0800,
            EtherType::ARP => 0x0806,
            EtherType::IPv6 => 0x86DD,
            EtherType::Unknown(val) => val,
        }
    }
}

impl vstd::std_specs::convert::FromSpecImpl<EtherType> for u16 {
    open spec fn obeys_from_spec() -> bool {
        true
    }

    open spec fn from_spec(t: EtherType) -> Self {
        ether_type_value(t)
    }
}

/// Every code survives decoding and re-encoding.
pub proof fn lemma_ether_type_value_of(val: u16)
    ensures
        ether_type_value(ether_type_of(val)) == val,
{
}

/// Exactly the `Unknown` variants carrying a named code fail to be canonical.
pub proof fn lemma_ether_type_canonical(t: EtherType)
    ensures
        ether_type_canonical(t) <==> !(t matches EtherType::Unknown(v) && (v == 0x0800 || v
            == 0x0806 || v == 0x86DD)),
{
}

/// Destination address field of a frame's bytes.
pub open spec fn frame_destination(b: Seq<u8>) -> Seq<u8> {
    b.subrange(0, 6)
}

/// Source address field of a frame's bytes.
pub open spec fn frame_source(b: Seq<u8>) -> Seq<u8> {
    b.subrange(6, 12)
}

/// EtherType field of a frame's bytes.
pub open spec fn frame_ether_type(b: Seq<u8>) -> EtherType {
    ether_type_of(be_u16(b[12], b[13]))
}

/// What follows the header in a frame's bytes.
pub open spec fn frame_payload(b: Seq<u8>) -> Seq<u8> {
    b.subrange(ETH_HDR_LEN as int, b.len() as int)
}

/// The 14 header bytes that `write_header` produces.
pub open spec fn eth_header_bytes(dest: Seq<u8>, src: Seq<u8>, t: EtherType) -> Seq<u8> {
    dest + src + be_bytes(ether_type_value(t))
}

/// A read-only view of an Ethernet frame's bytes.
pub struct EthernetFrame<'a> {
    pub data: &'a [u8],
}

/// Builds a MAC address from `b[pos..pos + 6]`.
pub(crate) fn mac_at(b: &[u8], pos: usize) -> (mac: MacAddress)
    requires
        pos + ETH_ADDR_LEN <= b@.len(),
    ensures
        mac.0@ == b@.subrange(pos as int, pos + ETH_ADDR_LEN),
{
    let b_len = b.len();
    let mut addr = [0u8; ETH_ADDR_LEN];
    let mut i: usize = 0;
    while i < ETH_ADDR_LEN
        invariant
            i <= ETH_ADDR_LEN,
            pos + ETH_ADDR_LEN <= b_len,
            b_len == b@.len(),
            forall|j: int| 0 <= j < i ==> addr@[j] == b@[pos + j],
        decreases ETH_ADDR_LEN - i,
    {
        addr[i] = b[pos + i];
        i = i + 1;
    }
    assert(addr@ =~= b@.subrange(pos as int, pos + ETH_ADDR_LEN));
    MacAddress(addr)
}

/// Writes an Ethernet header into `buf[pos..pos + 14]`.
pub(crate) fn write_eth_header_at(
    buf: &mut [u8],
    pos: usize,
    dest: MacAddress,
    src: MacAddress,
    eth_type: EtherType,
)
    requires
        pos + ETH_HDR_LEN <= old(buf)@.len(),
    ensures
        final(buf)@ == splice(old(buf)@, pos, eth_header_bytes(dest.0@, src.0@, eth_type)),
{
    let ghost b0 = buf@;
    let buf_len = buf.len();
    assert(pos + ETH_HDR_LEN <= buf_len);
    copy_bytes_at(buf, pos, &dest.0);
    copy_bytes_at(buf, pos + 6, &src.0);
    let code: u16 = eth_type.into();
    write_u16_at(buf, pos + 12, code);
    assert(buf@ =~= splice(b0, pos, eth_header_bytes(dest.0@, src.0@, eth_type)));
}

impl<'a> EthernetFrame<'a> {
    /// A frame over `data`, or `None` when `data` is shorter than a header.
    pub fn new(data: &'a [u8]) -> (res: Option<Self>)
        ensures
            res is Some <==> data@.len() >= ETH_HDR_LEN,
            res matches Some(f) ==> f.data@ == data@,
    {
        if data.len() < ETH_HDR_LEN {
            return None;
        }
        Some(Self { data })
    }

    pub fn destination(&self) -> (mac: MacAddress)
        requires
            self.data@.len() >= ETH_HDR_LEN,
        ensures
            mac.0@ == frame_destination(self.data@),
    {
        mac_at(self.data, 0)
    }

    pub fn source(&self) -> (mac: MacAddress)
        requires
            self.data@.len() >= ETH_HDR_LEN,
        ensures
            mac.0@ == frame_source(self.data@),
    {
        mac_at(self.data, 6)
    }

    pub fn ether_type(&self) -> (t: EtherType)
        requires
            self.data@.len() >= ETH_HDR_LEN,
        ensures
            t == frame_ether_type(self.data@),
    {
        let val = read_u16_at(self.data, 12);
        EtherType::from(val)
    }

    pub fn payload(&self) -> (p: &'a [u8])
        requires
            self.data@.len() >= ETH_HDR_LEN,
        ensures
            p@ == frame_payload(self.data@),
    {
        slice_subrange(self.data, ETH_HDR_LEN, self.data.len())
    }

    /// Writes an Ethernet header into the first 14 bytes of `buf`.
    pub fn write_header(buf: &mut [u8], dest: MacAddress, src: MacAddress, eth_type: EtherType)
        requires
            old(buf)@.len() >= ETH_HDR_LEN,
        ensures
            final(buf)@ == eth_header_bytes(dest.0@, src.0@, eth_type) + old(buf)@.subrange(
                ETH_HDR_LEN as int,
                old(buf)@.len() as int,
            ),
    {
        let ghost b0 = buf@;
        write_eth_header_at(buf, 0, dest, src, eth_type);
        assert(buf@ =~= eth_header_bytes(dest.0@, src.0@, eth_type) + b0.subrange(
            ETH_HDR_LEN as int,
            b0.len() as int,
        ));
    }
}

/// Where a frame's fields sit: destination in bytes 0..6, source in 6..12,
/// EtherType in bytes 12 and 13 (high byte first), with 0x0800 read as IPv4,
/// 0x0806 as ARP, 0x86DD as IPv6 and any other value `v` as `Unknown(v)`;
/// the payload is everything from byte 14 on.
pub proof fn lemma_frame_layout(b: Seq<u8>)
    requires
        b.len() >= ETH_HDR_LEN,
    ensures
        frame_destination(b) == b.subrange(0, 6),
        frame_source(b) == b.subrange(6, 12),
        frame_payload(b) == b.subrange(14, b.len() as int),
        frame_ether_type(b) == (if b[12] == 0x08 && b[13] == 0x00 {
            EtherType::IPv4
        } else if b[12] == 0x08 && b[13] == 0x06 {
            EtherType::ARP
        } else if b[12] == 0x86 && b[13] == 0xdd {
            EtherType::IPv6
        } else {
            EtherType::Unknown((b[12] * 256 + b[13]) as u16)
        }),
{
}

/// The bytes of a written header: destination, source, then the EtherType
/// code high byte first (0x0800 for IPv4, 0x0806 for ARP, 0x86DD for IPv6,
/// `v` for `Unknown(v)`).
pub proof fn lemma_eth_header_layout(dest: Seq<u8>, src: Seq<u8>, t: EtherType)
    requires
        dest.len() == ETH_ADDR_LEN,
        src.len() == ETH_ADDR_LEN,
    ensures
        ({
            let h = eth_header_bytes(dest, src, t);
            let code: int = match t {
                EtherType::IPv4 => 0x0800,
                EtherType::ARP => 0x0806,
                EtherType::IPv6 => 0x86DD,
                EtherType::Unknown(v) => v as int,
            };
            &&& h.len() == ETH_HDR_LEN
            &&& h.subrange(0, 6) == dest
            &&& h.subrange(6, 12) == src
            &&& h[12] * 256 + h[13] == code
        }),
{
    let h = eth_header_bytes(dest, src, t);
    assert(h.subrange(0, 6) =~= dest);
    assert(h.subrange(6, 12) =~= src);
}

/// A header written by `write_header` reads back as what was written: the
/// frame parses, and its destination, source and (canonical) EtherType are the
/// ones given; the payload is whatever followed the header.
pub proof fn lemma_ethernet_header_roundtrip(
    dest: Seq<u8>,
    src: Seq<u8>,
    t: EtherType,
    rest: Seq<u8>,
)
    requires
        dest.len() == ETH_ADDR_LEN,
        src.len() == ETH_ADDR_LEN,
        ether_type_canonical(t),
    ensures
        ({
            let b = eth_header_bytes(dest, src, t) + rest;
            &&& b.len() >= ETH_HDR_LEN
            &&& frame_destination(b) == dest
            &&& frame_source(b) == src
            &&& frame_ether_type(b) == t
            &&& frame_payload(b) == rest
        }),
{
    let b = eth_header_bytes(dest, src, t) + rest;
    assert(frame_destination(b) =~= dest);
    assert(frame_source(b) =~= src);
    assert(frame_payload(b) =~= rest);
    crate::wire::lemma_be_u16_roundtrip(ether_type_value(t));
}

} // verus!
