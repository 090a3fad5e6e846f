//! IPv6: addresses, next-header codes, fixed header parsing and writing.

use crate::wire::{be_bytes, be_u16, bytes_upto, copy_bytes_at, hi_byte, lo_byte, read_u16_at, splice, write_u16_at};
use vstd::prelude::*;
use vstd::slice::slice_subrange;

verus! {

pub const IPV6_HDR_LEN: usize = 40;

pub const IPV6_ADDR_LEN: usize = 16;

/// A 128-bit IPv6 address, held as its 16 bytes in network order.
#[derive(Copy, Clone, Debug)]
pub struct Ipv6Address(pub [u8; IPV6_ADDR_LEN]);

/// The 16 bytes of the address whose eight 16-bit groups are `a` .. `h`.
pub open spec fn ipv6_octets_of_segments(
    a: u16,
    b: u16,
    c: u16,
    d: u16,
    e: u16,
    f: u16,
    g: u16,
    h: u16,
) -> Seq<u8> {
    be_bytes(a) + be_bytes(b) + be_bytes(c) + be_bytes(d) + be_bytes(e) + be_bytes(f) + be_bytes(
        g,
    ) + be_bytes(h)
}

/// The `k`-th 16-bit group of an address given by its bytes.
pub open spec fn ipv6_segment(o: Seq<u8>, k: int) -> u16 {
    be_u16(o[2 * k], o[2 * k + 1])
}

impl Ipv6Address {
    /// The address with the eight 16-bit groups `a` .. `h` (so `fe80::1` is
    /// `new(0xfe80, 0, 0, 0, 0, 0, 0, 1)`).
    pub fn new(a: u16, b: u16, c: u16, d: u16, e: u16, f: u16, g: u16, h: u16) -> (addr: Self)
        ensures
            addr.0@ == ipv6_octets_of_segments(a, b, c, d, e, f, g, h),
    {
        let o: [u8; IPV6_ADDR_LEN] = [
            (a / 256) as u8,
            (a % 256) as u8,
            (b / 256) as u8,
            (b % 256) as u8,
            (c / 256) as u8,
            (c % 256) as u8,
            (d / 256) as u8,
            (d % 256) as u8,
            (e / 256) as u8,
            (e % 256) as u8,
            (f / 256) as u8,
            (f % 256) as u8,
            (g / 256) as u8,
            (g % 256) as u8,
            (h / 256) as u8,
            (h % 256) as u8,
        ];
        assert(o@ =~= ipv6_octets_of_segments(a, b, c, d, e, f, g, h));
        Ipv6Address(o)
    }

    /// The address's 16 bytes in network order.
    pub fn octets(&self) -> (o: [u8; IPV6_ADDR_LEN])
        ensures
            o@ == self.0@,
    {
        self.0
    }

    /// The address's eight 16-bit groups.
    pub fn segments(&self) -> (s: [u16; 8])
        ensures
            forall|k: int| 0 <= k < 8 ==> #[trigger] s@[k] == ipv6_segment(self.0@, k),
    {
        let mut s = [0u16; 8];
        let mut k: usize = 0;
        while k < 8
            invariant
                k <= 8,
                forall|j: int| 0 <= j < k ==> #[trigger] s@[j] == ipv6_segment(self.0@, j),
            decreases 8 - k,
        {
            let hi = self.0[2 * k];
            let lo = self.0[2 * k + 1];
            s[k] = (hi as u16) * 256 + (lo as u16);
            k = k + 1;
        }
        s
    }

    /// Whether the address is a multicast address (in `ff00::/8`).
    pub fn is_multicast(&self) -> (b: bool)
        ensures
            b == (self.0@[0] == 0xff),
    {
        self.0[0] == 0xff
    }
}

impl PartialEq for Ipv6Address {
    fn eq(&self, other: &Self) -> (r: bool) {
        let mut k: usize = 0;
        while k < IPV6_ADDR_LEN
            invariant
                k <= IPV6_ADDR_LEN,
                forall|j: int| 0 <= j < k ==> self.0@[j] == other.0@[j],
            decreases IPV6_ADDR_LEN - k,
        {
            if self.0[k] != other.0[k] {
                return false;
            }
            k = k + 1;
        }
        assert(self.0@ =~= other.0@);
        true
    }
}

impl vstd::std_specs::cmp::PartialEqSpecImpl for Ipv6Address {
    open spec fn obeys_eq_spec() -> bool {
        true
    }

    open spec fn eq_spec(&self, other: &Self) -> bool {
        self.0@ == other.0@
    }
}

impl Eq for Ipv6Address {

}

/// The protocol of the header that follows an IPv6 header.
#[derive(Debug, Copy, Clone, PartialEq, Eq, Structural)]
pub enum Ipv6NextHeader {
    ICMPv6,
    TCP,
    UDP,
    Unknown(u8),
}

/// The next-header kind that the code `val` names.
pub open spec fn next_header_of(val: u8) -> Ipv6NextHeader {
    if val == 58 {
        Ipv6NextHeader::ICMPv6
    } else if val == 6 {
        Ipv6NextHeader::TCP
    } else if val == 17 {
        Ipv6NextHeader::UDP
    } else {
        Ipv6NextHeader::Unknown(val)
    }
}

/// The code written on the wire for a next-header kind.
pub open spec fn next_header_value(nh: Ipv6NextHeader) -> u8 {
    match nh {
        Ipv6NextHeader::ICMPv6 => 58,
        Ipv6NextHeader::TCP => 6,
        Ipv6NextHeader::UDP => 17,
        Ipv6NextHeader::Unknown(p) => p,
    }
}

/// A next-header kind is canonical when decoding its code gives it back.
pub open spec fn next_header_canonical(nh: Ipv6NextHeader) -> bool {
    next_header_of(next_header_value(nh)) == nh
}

impl From<u8> for Ipv6NextHeader {
    fn from(val: u8) -> (nh: Self) {
        match val {
            58 => Ipv6NextHeader::ICMPv6,
            6 => Ipv6NextHeader::TCP,
            17 => Ipv6NextHeader::UDP,
            other => Ipv6NextHeader::Unknown(other),
        }
    }
}

impl vstd::std_specs::convert::FromSpecImpl<u8> for Ipv6NextHeader {
    open spec fn obeys_from_spec() -> bool {
        true
    }

    open spec fn from_spec(val: u8) -> Self {
        next_header_of(val)
    }
}

/// Every code survives decoding and re-encoding.
pub proof fn lemma_next_header_value_of(val: u8)
    ensures
        next_header_value(next_header_of(val)) == val,
{
}

/// Exactly the `Unknown` variants carrying a named code fail to be canonical.
pub proof fn lemma_next_header_canonical(nh: Ipv6NextHeader)
    ensures
        next_header_canonical(nh) <==> !(nh matches Ipv6NextHeader::Unknown(v) && (v == 58 || v
            == 6 || v == 17)),
{
}

/// The bytes hold a well-formed IPv6 header: at least 40 bytes, version 6.
pub open spec fn ipv6_valid(b: Seq<u8>) -> bool {
    b.len() >= IPV6_HDR_LEN && b[0] / 16 == 6
}

pub open spec fn ipv6_payload_length(b: Seq<u8>) -> u16 {
    be_u16(b[4], b[5])
}

pub open spec fn ipv6_next_header(b: Seq<u8>) -> Ipv6NextHeader {
    next_header_of(b[6])
}

pub open spec fn ipv6_hop_limit(b: Seq<u8>) -> u8 {
    b[7]
}

pub open spec fn ipv6_source(b: Seq<u8>) -> Seq<u8> {
    b.subrange(8, 24)
}

pub open spec fn ipv6_dest(b: Seq<u8>) -> Seq<u8> {
    b.subrange(24, 40)
}

/// The payload: the bytes after the header, cut to the payload-length field
/// when the buffer holds more than that.
pub open spec fn ipv6_payload(b: Seq<u8>) -> Seq<u8> {
    let end = IPV6_HDR_LEN + ipv6_payload_length(b);
    if end > b.len() {
        b.subrange(IPV6_HDR_LEN as int, b.len() as int)
    } else {
        b.subrange(IPV6_HDR_LEN as int, end)
    }
}

/// The 40 header bytes that `write_header` produces: version 6, traffic class
/// and flow label 0, the payload length, the next-header code, hop limit 64,
/// then the two addresses.
pub open spec fn ipv6_header_bytes(
    src: Seq<u8>,
    dest: Seq<u8>,
    nh: Ipv6NextHeader,
    payload_len: u16,
) -> Seq<u8> {
    seq![0x60u8, 0u8, 0u8, 0u8] + be_bytes(payload_len) + seq![next_header_value(nh), 64u8] + src
        + dest
}

/// A buffer holds an IPv6 header exactly when it has at least 40 bytes and its
/// first byte is one of 0x60 ..= 0x6f (version 6); no other byte of the header
/// (traffic class, flow label, lengths, addresses) takes part.
pub proof fn lemma_ipv6_valid_bytes(b: Seq<u8>)
    ensures
        ipv6_valid(b) <==> (b.len() >= 40 && 0x60 <= b[0] <= 0x6f),
{
}

/// Where an IPv6 header's fields sit: payload length in bytes 4 and 5 (high
/// byte first), next header in byte 6 (58 ICMPv6, 6 TCP, 17 UDP, any other
/// value `v` as `Unknown(v)`), hop limit in byte 7, source address in bytes
/// 8..24, destination in 24..40; the payload starts at byte 40 and ends after
/// payload-length bytes, or at the end of the buffer if that comes first.
pub proof fn lemma_ipv6_layout(b: Seq<u8>)
    requires
        b.len() >= IPV6_HDR_LEN,
    ensures
        ipv6_payload_length(b) == b[4] * 256 + b[5],
        ipv6_next_header(b) == (if b[6] == 58 {
            Ipv6NextHeader::ICMPv6
        } else if b[6] == 6 {
            Ipv6NextHeader::TCP
        } else if b[6] == 17 {
            Ipv6NextHeader::UDP
        } else {
            Ipv6NextHeader::Unknown(b[6])
        }),
        ipv6_hop_limit(b) == b[7],
        ipv6_source(b) == b.subrange(8, 24),
        ipv6_dest(b) == b.subrange(24, 40),
        ipv6_payload(b) == b.subrange(40, if 40 + b[4] * 256 + b[5] <= b.len() {
            40 + b[4] * 256 + b[5]
        } else {
            b.len() as int
        }),
{
}

/// The bytes of a written IPv6 header: 0x60, 0, 0, 0, the payload length high
/// byte first, the next-header code (58 ICMPv6, 6 TCP, 17 UDP, `v` for
/// `Unknown(v)`), hop limit 64, then source and destination addresses.
pub proof fn lemma_ipv6_header_layout(
    src: Seq<u8>,
    dest: Seq<u8>,
    nh: Ipv6NextHeader,
    payload_len: u16,
)
    requires
        src.len() == IPV6_ADDR_LEN,
        dest.len() == IPV6_ADDR_LEN,
    ensures
        ({
            let h = ipv6_header_bytes(src, dest, nh, payload_len);
            let code: u8 = match nh {
                Ipv6NextHeader::ICMPv6 => 58,
                Ipv6NextHeader::TCP => 6,
                Ipv6NextHeader::UDP => 17,
                Ipv6NextHeader::Unknown(v) => v,
            };
            &&& h.len() == IPV6_HDR_LEN
            &&& h[0] == 0x60 && h[1] == 0 && h[2] == 0 && h[3] == 0
            &&& h[4] * 256 + h[5] == payload_len
            &&& h[6] == code
            &&& h[7] == 64
            &&& h.subrange(8, 24) == src
            &&& h.subrange(24, 40) == dest
        }),
{
    let h = ipv6_header_bytes(src, dest, nh, payload_len);
    assert(h.subrange(8, 24) =~= src);
    assert(h.subrange(24, 40) =~= dest);
}

/// Two buffers of the same length that agree in their first byte are both
/// IPv6 headers or both not.
pub proof fn lemma_ipv6_valid_first_byte_only(b1: Seq<u8>, b2: Seq<u8>)
    requires
        b1.len() == b2.len(),
        b1.len() > 0,
        b1[0] == b2[0],
    ensures
        ipv6_valid(b1) == ipv6_valid(b2),
{
}

/// Builds an address from `b[pos..pos + 16]`.
pub(crate) fn ipv6_address_at(b: &[u8], pos: usize) -> (addr: Ipv6Address)
    requires
        pos + IPV6_ADDR_LEN <= b@.len(),
    ensures
        addr.0@ == b@.subrange(pos as int, pos + IPV6_ADDR_LEN),
{
    let b_len = b.len();
    let mut o = [0u8; IPV6_ADDR_LEN];
    let mut i: usize = 0;
    while i < IPV6_ADDR_LEN
        invariant
            i <= IPV6_ADDR_LEN,
            pos + IPV6_ADDR_LEN <= b_len,
            b_len == b@.len(),
            forall|j: int| 0 <= j < i ==> o@[j] == b@[pos + j],
        decreases IPV6_ADDR_LEN - i,
    {
        o[i] = b[pos + i];
        i = i + 1;
    }
    assert(o@ =~= b@.subrange(pos as int, pos + IPV6_ADDR_LEN));
    Ipv6Address(o)
}

/// Writes an IPv6 header into `buf[pos..pos + 40]`.
pub(crate) fn write_ipv6_header_at(
    buf: &mut [u8],
    pos: usize,
    src_ip: Ipv6Address,
    dest_ip: Ipv6Address,
    next_header: Ipv6NextHeader,
    payload_len: u16,
)
    requires
        pos + IPV6_HDR_LEN <= old(buf)@.len(),
    ensures
        final(buf)@ == splice(
            old(buf)@,
            pos,
            ipv6_header_bytes(src_ip.0@, dest_ip.0@, next_header, payload_len),
        ),
{
    let ghost b0 = buf@;
    let buf_len = buf.len();
    assert(pos + IPV6_HDR_LEN <= buf_len);
    // Version 6, Traffic Class 0, Flow Label 0
    buf[pos] = 0x60;
    buf[pos + 1] = 0x00;
    buf[pos + 2] = 0x00;
    buf[pos + 3] = 0x00;
    write_u16_at(buf, pos + 4, payload_len);
    buf[pos + 6] = match next_header {
        Ipv6NextHeader::ICMPv6 => 58,
        Ipv6NextHeader::TCP => 6,
        Ipv6NextHeader::UDP => 17,
        Ipv6NextHeader::Unknown(p) => p,
    };
    buf[pos + 7] = 64;  // Hop Limit
    copy_bytes_at(buf, pos + 8, &src_ip.0);
    copy_bytes_at(buf, pos + 24, &dest_ip.0);
    assert(buf@ =~= splice(
        b0,
        pos,
        ipv6_header_bytes(src_ip.0@, dest_ip.0@, next_header, payload_len),
    ));
}

/// The groups of the address built from eight groups are those groups.
pub proof fn lemma_segments_of_new(
    a: u16,
    b: u16,
    c: u16,
    d: u16,
    e: u16,
    f: u16,
    g: u16,
    h: u16,
)
    ensures
        ({
            let o = ipv6_octets_of_segments(a, b, c, d, e, f, g, h);
            &&& o.len() == IPV6_ADDR_LEN
            &&& ipv6_segment(o, 0) == a
            &&& ipv6_segment(o, 1) == b
            &&& ipv6_segment(o, 2) == c
            &&& ipv6_segment(o, 3) == d
            &&& ipv6_segment(o, 4) == e
            &&& ipv6_segment(o, 5) == f
            &&& ipv6_segment(o, 6) == g
            &&& ipv6_segment(o, 7) == h
        }),
{
    crate::wire::lemma_be_u16_roundtrip(a);
    crate::wire::lemma_be_u16_roundtrip(b);
    crate::wire::lemma_be_u16_roundtrip(c);
    crate::wire::lemma_be_u16_roundtrip(d);
    crate::wire::lemma_be_u16_roundtrip(e);
    crate::wire::lemma_be_u16_roundtrip(f);
    crate::wire::lemma_be_u16_roundtrip(g);
    crate::wire::lemma_be_u16_roundtrip(h);
}

/// A read-only view of an IPv6 packet's bytes.
pub struct Ipv6Packet<'a> {
    pub data: &'a [u8],
}

impl<'a> Ipv6Packet<'a> {
    /// A packet over `data`, or `None` when `data` is shorter than a header
    /// or its version field is not 6.
    pub fn new(data: &'a [u8]) -> (res: Option<Self>)
        ensures
            res is Some <==> ipv6_valid(data@),
            res matches Some(p) ==> p.data@ == data@,
    {
        if data.len() < IPV6_HDR_LEN {
            return None;
        }
        let first = data[0];
        let version = first >> 4;
        assert(first >> 4 == first / 16) by (bit_vector);
        if version != 6 {
            return None;
        }
        Some(Self { data })
    }

    pub fn payload_length(&self) -> (n: u16)
        requires
            self.data@.len() >= IPV6_HDR_LEN,
        ensures
            n == ipv6_payload_length(self.data@),
    {
        read_u16_at(self.data, 4)
    }

    pub fn next_header(&self) -> (nh: Ipv6NextHeader)
        requires
            self.data@.len() >= IPV6_HDR_LEN,
        ensures
            nh == ipv6_next_header(self.data@),
    {
        Ipv6NextHeader::from(self.data[6])
    }

    pub fn hop_limit(&self) -> (h: u8)
        requires
            self.data@.len() >= IPV6_HDR_LEN,
        ensures
            h == ipv6_hop_limit(self.data@),
    {
        self.data[7]
    }

    pub fn source_ip(&self) -> (addr: Ipv6Address)
        requires
            self.data@.len() >= IPV6_HDR_LEN,
        ensures
            addr.0@ == ipv6_source(self.data@),
    {
        ipv6_address_at(self.data, 8)
    }

    pub fn dest_ip(&self) -> (addr: Ipv6Address)
        requires
            self.data@.len() >= IPV6_HDR_LEN,
        ensures
            addr.0@ == ipv6_dest(self.data@),
    {
        ipv6_address_at(self.data, 24)
    }

    pub fn payload(&self) -> (p: &'a [u8])
        requires
            self.data@.len() >= IPV6_HDR_LEN,
        ensures
            p@ == ipv6_payload(self.data@),
    {
        let len = self.payload_length() as usize;
        let end = IPV6_HDR_LEN + len;
        if end > self.data.len() {
            slice_subrange(self.data, IPV6_HDR_LEN, self.data.len())
        } else {
            slice_subrange(self.data, IPV6_HDR_LEN, end)
        }
    }

    /// Writes an IPv6 header into the first 40 bytes of `buf`.
    pub fn write_header(
        buf: &mut [u8],
        src_ip: Ipv6Address,
        dest_ip: Ipv6Address,
        next_header: Ipv6NextHeader,
        payload_len: u16,
    )
        requires
            old(buf)@.len() >= IPV6_HDR_LEN,
        ensures
            final(buf)@ == ipv6_header_bytes(src_ip.0@, dest_ip.0@, next_header, payload_len)
                + old(buf)@.subrange(IPV6_HDR_LEN as int, old(buf)@.len() as int),
    {
        let ghost b0 = buf@;
        write_ipv6_header_at(buf, 0, src_ip, dest_ip, next_header, payload_len);
        assert(buf@ =~= ipv6_header_bytes(src_ip.0@, dest_ip.0@, next_header, payload_len)
            + b0.subrange(IPV6_HDR_LEN as int, b0.len() as int));
    }
}

/// A header written by `write_header` reads back as what was written: the
/// packet parses (version 6), its addresses, (canonical) next header and
/// payload length are the ones given, the hop limit is 64, and the payload is
/// what followed the header, cut to the payload length.
pub proof fn lemma_ipv6_header_roundtrip(
    src: Seq<u8>,
    dest: Seq<u8>,
    nh: Ipv6NextHeader,
    payload_len: u16,
    rest: Seq<u8>,
)
    requires
        src.len() == IPV6_ADDR_LEN,
        dest.len() == IPV6_ADDR_LEN,
        next_header_canonical(nh),
    ensures
        ({
            let b = ipv6_header_bytes(src, dest, nh, payload_len) + rest;
            &&& ipv6_valid(b)
            &&& ipv6_source(b) == src
            &&& ipv6_dest(b) == dest
            &&& ipv6_next_header(b) == nh
            &&& ipv6_payload_length(b) == payload_len
            &&& ipv6_hop_limit(b) == 64
            &&& ipv6_payload(b) == if payload_len <= rest.len() {
                bytes_upto(rest, payload_len as nat)
            } else {
                rest
            }
        }),
{
    let b = ipv6_header_bytes(src, dest, nh, payload_len) + rest;
    assert(b.len() == IPV6_HDR_LEN + rest.len());
    assert(ipv6_source(b) =~= src);
    assert(ipv6_dest(b) =~= dest);
    crate::wire::lemma_be_u16_roundtrip(payload_len);
    assert(b[4] == hi_byte(payload_len) && b[5] == lo_byte(payload_len));
    if payload_len <= rest.len() {
        assert(ipv6_payload(b) =~= bytes_upto(rest, payload_len as nat));
    } else {
        assert(ipv6_payload(b) =~= rest);
    }
}

} // verus!
