//! ICMPv6: message types, parsing, echo replies, neighbor advertisements, and
//! the checksum entry point (the computation itself is in `checksum`).

use crate::ethernet::MacAddress;
use crate::ipv6::Ipv6Address;
use crate::checksum::{
    checksum_sum, lemma_checksum_verifies, lemma_word_sum_bound, pseudo_checksum,
    pseudo_header_checksum, with_checksum,
};
use crate::wire::{be_bytes, be_u16, bytes_from, bytes_upto, copy_bytes_at, read_u16_at, splice, write_u16_at};
use vstd::prelude::*;
use vstd::slice::slice_subrange;

verus! {

pub const ICMPV6_HDR_LEN: usize = 8;

/// Length of the neighbor advertisement that `write_neighbor_advertisement` writes.
pub const NEIGHBOR_ADVERTISEMENT_LEN: usize = 32;

#[derive(Debug, Copy, Clone, PartialEq, Eq, Structural)]
pub enum Icmpv6Type {
    DestinationUnreachable,
    PacketTooBig,
    TimeExceeded,
    ParameterProblem,
    EchoRequest,
    EchoReply,
    NeighborSolicitation,
    NeighborAdvertisement,
    Unknown(u8),
}

/// The message type that the code `val` names.
pub open spec fn message_type_of(val: u8) -> Icmpv6Type {
    if val == 1 {
        Icmpv6Type::DestinationUnreachable
    } else if val == 2 {
        Icmpv6Type::PacketTooBig
    } else if val == 3 {
        Icmpv6Type::TimeExceeded
    } else if val == 4 {
        Icmpv6Type::ParameterProblem
    } else if val == 128 {
        Icmpv6Type::EchoRequest
    } else if val == 129 {
        Icmpv6Type::EchoReply
    } else if val == 135 {
        Icmpv6Type::NeighborSolicitation
    } else if val == 136 {
        Icmpv6Type::NeighborAdvertisement
    } else {
        Icmpv6Type::Unknown(val)
    }
}

impl From<u8> for Icmpv6Type {
    fn from(val: u8) -> (t: Self) {
        match val {
            1 => Icmpv6Type::DestinationUnreachable,
            2 => Icmpv6Type::PacketTooBig,
            3 => Icmpv6Type::TimeExceeded,
            4 => Icmpv6Type::ParameterProblem,
            128 => Icmpv6Type::EchoRequest,
            129 => Icmpv6Type::EchoReply,
            135 => Icmpv6Type::NeighborSolicitation,
            136 => Icmpv6Type::NeighborAdvertisement,
            other => Icmpv6Type::Unknown(other),
        }
    }
}

impl vstd::std_specs::convert::FromSpecImpl<u8> for Icmpv6Type {
    open spec fn obeys_from_spec() -> bool {
        true
    }

    open spec fn from_spec(val: u8) -> Self {
        message_type_of(val)
    }
}

// ---------------------------------------------------------------------------
// Messages
// ---------------------------------------------------------------------------

/// An echo reply with a zero checksum field: type 129, code 0, identifier,
/// sequence number, then the payload.
pub open spec fn echo_reply_message(identifier: u16, seq_num: u16, payload: Seq<u8>) -> Seq<u8> {
    seq![129u8, 0u8, 0u8, 0u8] + be_bytes(identifier) + be_bytes(seq_num) + payload
}

/// A solicited neighbor advertisement for `target` with a zero checksum field:
/// type 136, code 0, flags Solicited and Override, the target address, and a
/// Target Link-Layer Address option carrying `mac`.
pub open spec fn neighbor_advertisement_message(target: Seq<u8>, mac: Seq<u8>) -> Seq<u8> {
    seq![136u8, 0u8, 0u8, 0u8, 0x60u8, 0u8, 0u8, 0u8] + target + seq![2u8, 1u8] + mac
}

pub open spec fn message_valid(b: Seq<u8>) -> bool {
    b.len() >= ICMPV6_HDR_LEN
}

pub open spec fn message_type(b: Seq<u8>) -> Icmpv6Type {
    message_type_of(b[0])
}

pub open spec fn message_payload(b: Seq<u8>) -> Seq<u8> {
    b.skip(8)
}

/// Computes the ICMPv6 checksum of `icmp_data`, sent from `src_ip` to
/// `dest_ip`, over the IPv6 pseudo-header.
pub fn calculate_icmpv6_checksum(
    src_ip: &Ipv6Address,
    dest_ip: &Ipv6Address,
    icmp_data: &[u8],
) -> (csum: u16)
    requires
        icmp_data@.len() >= 1,
        checksum_sum(src_ip.0@, dest_ip.0@, icmp_data@) <= u32::MAX,
    ensures
        csum == pseudo_checksum(src_ip.0@, dest_ip.0@, icmp_data@),
{
    pseudo_header_checksum(src_ip, dest_ip, icmp_data)
}

/// A read-only view of an ICMPv6 message's bytes.
pub struct Icmpv6Packet<'a> {
    pub data: &'a [u8],
}

/// Writes an echo reply, checksum included, into `buf[pos..pos + 8 + payload.len()]`.
pub(crate) fn write_echo_reply_at(
    buf: &mut [u8],
    pos: usize,
    src_ip: Ipv6Address,
    dest_ip: Ipv6Address,
    identifier: u16,
    seq_num: u16,
    payload: &[u8],
)
    requires
        pos + ICMPV6_HDR_LEN + payload@.len() <= old(buf)@.len(),
        checksum_sum(src_ip.0@, dest_ip.0@, echo_reply_message(identifier, seq_num, payload@))
            <= u32::MAX,
    ensures
        ({
            let m = echo_reply_message(identifier, seq_num, payload@);
            final(buf)@ == splice(
                old(buf)@,
                pos,
                with_checksum(m, pseudo_checksum(src_ip.0@, dest_ip.0@, m)),
            )
        }),
{
    let ghost b0 = buf@;
    let ghost m = echo_reply_message(identifier, seq_num, payload@);
    let buf_len = buf.len();
    let plen = payload.len();
    assert(pos + ICMPV6_HDR_LEN + plen <= buf_len);
    buf[pos] = 129;  // Type: Echo Reply
    buf[pos + 1] = 0;  // Code: 0
    buf[pos + 2] = 0;  // Checksum placeholder
    buf[pos + 3] = 0;  // Checksum placeholder
    write_u16_at(buf, pos + 4, identifier);
    write_u16_at(buf, pos + 6, seq_num);
    copy_bytes_at(buf, pos + 8, payload);
    assert(buf@ =~= splice(b0, pos, m));
    let csum = {
        let written: &[u8] = &*buf;
        let msg = slice_subrange(written, pos, pos + 8 + plen);
        assert(msg@ =~= m);
        calculate_icmpv6_checksum(&src_ip, &dest_ip, msg)
    };
    write_u16_at(buf, pos + 2, csum);
    assert(buf@ =~= splice(b0, pos, with_checksum(m, csum)));
}

/// Writes a neighbor advertisement, checksum included, into `buf[pos..pos + 32]`.
pub(crate) fn write_neighbor_advertisement_at(
    buf: &mut [u8],
    pos: usize,
    src_ip: Ipv6Address,
    dest_ip: Ipv6Address,
    target_ip: Ipv6Address,
    target_mac: MacAddress,
)
    requires
        pos + NEIGHBOR_ADVERTISEMENT_LEN <= old(buf)@.len(),
    ensures
        ({
            let m = neighbor_advertisement_message(target_ip.0@, target_mac.0@);
            final(buf)@ == splice(
                old(buf)@,
                pos,
                with_checksum(m, pseudo_checksum(src_ip.0@, dest_ip.0@, m)),
            )
        }),
{
    let ghost b0 = buf@;
    let ghost m = neighbor_advertisement_message(target_ip.0@, target_mac.0@);
    let buf_len = buf.len();
    assert(pos + NEIGHBOR_ADVERTISEMENT_LEN <= buf_len);
    buf[pos] = 136;  // Type: Neighbor Advertisement
    buf[pos + 1] = 0;  // Code
    buf[pos + 2] = 0;  // Checksum
    buf[pos + 3] = 0;  // Checksum

    // Flags: Router=0, Solicited=1, Override=1 (0x60)
    buf[pos + 4] = 0x60;
    buf[pos + 5] = 0;
    buf[pos + 6] = 0;
    buf[pos + 7] = 0;

    copy_bytes_at(buf, pos + 8, &target_ip.0);

    // Option: Target Link-Layer Address (Type 2, Length 1 (8 bytes))
    buf[pos + 24] = 2;
    buf[pos + 25] = 1;
    copy_bytes_at(buf, pos + 26, &target_mac.0);
    assert(buf@ =~= splice(b0, pos, m));

    proof {
        lemma_word_sum_bound(src_ip.0@);
        lemma_word_sum_bound(dest_ip.0@);
        lemma_word_sum_bound(m);
    }
    let csum = {
        let written: &[u8] = &*buf;
        let msg = slice_subrange(written, pos, pos + NEIGHBOR_ADVERTISEMENT_LEN);
        assert(msg@ =~= m);
        calculate_icmpv6_checksum(&src_ip, &dest_ip, msg)
    };
    write_u16_at(buf, pos + 2, csum);
    assert(buf@ =~= splice(b0, pos, with_checksum(m, csum)));
}

impl<'a> Icmpv6Packet<'a> {
    /// A message over `data`, or `None` when `data` is shorter than 8 bytes.
    pub fn new(data: &'a [u8]) -> (res: Option<Self>)
        ensures
            res is Some <==> message_valid(data@),
            res matches Some(p) ==> p.data@ == data@,
    {
        if data.len() < ICMPV6_HDR_LEN {
            return None;
        }
        Some(Self { data })
    }

    pub fn icmpv6_type(&self) -> (t: Icmpv6Type)
        requires
            self.data@.len() >= ICMPV6_HDR_LEN,
        ensures
            t == message_type(self.data@),
    {
        Icmpv6Type::from(self.data[0])
    }

    pub fn code(&self) -> (c: u8)
        requires
            self.data@.len() >= ICMPV6_HDR_LEN,
        ensures
            c == self.data@[1],
    {
        self.data[1]
    }

    pub fn checksum(&self) -> (c: u16)
        requires
            self.data@.len() >= ICMPV6_HDR_LEN,
        ensures
            c == be_u16(self.data@[2], self.data@[3]),
    {
        read_u16_at(self.data, 2)
    }

    pub fn payload(&self) -> (p: &'a [u8])
        requires
            self.data@.len() >= ICMPV6_HDR_LEN,
        ensures
            p@ == message_payload(self.data@),
    {
        slice_subrange(self.data, ICMPV6_HDR_LEN, self.data.len())
    }

    /// Writes an echo reply (type 129) carrying `identifier`, `seq_num` and
    /// `payload` into the start of `buf`, with its checksum for a message sent
    /// from `src_ip` to `dest_ip`.
    pub fn write_echo_reply(
        buf: &mut [u8],
        src_ip: Ipv6Address,
        dest_ip: Ipv6Address,
        identifier: u16,
        seq_num: u16,
        payload: &[u8],
    )
        requires
            ICMPV6_HDR_LEN + payload@.len() <= old(buf)@.len(),
            checksum_sum(src_ip.0@, dest_ip.0@, echo_reply_message(identifier, seq_num, payload@))
                <= u32::MAX,
        ensures
            ({
                let m = echo_reply_message(identifier, seq_num, payload@);
                final(buf)@ == with_checksum(m, pseudo_checksum(src_ip.0@, dest_ip.0@, m))
                    + bytes_from(old(buf)@, m.len())
            }),
    {
        let ghost b0 = buf@;
        let ghost m = echo_reply_message(identifier, seq_num, payload@);
        write_echo_reply_at(buf, 0, src_ip, dest_ip, identifier, seq_num, payload);
        assert(buf@ =~= with_checksum(m, pseudo_checksum(src_ip.0@, dest_ip.0@, m)) + bytes_from(b0, m.len()));
    }

    /// Writes a neighbor advertisement (type 136) for `target_ip` at
    /// `target_mac` into the first 32 bytes of `buf`, with its checksum for a
    /// message sent from `src_ip` to `dest_ip`.
    pub fn write_neighbor_advertisement(
        buf: &mut [u8],
        src_ip: Ipv6Address,
        dest_ip: Ipv6Address,
        target_ip: Ipv6Address,
        target_mac: MacAddress,
    )
        requires
            old(buf)@.len() >= NEIGHBOR_ADVERTISEMENT_LEN,
        ensures
            ({
                let m = neighbor_advertisement_message(target_ip.0@, target_mac.0@);
                final(buf)@ == with_checksum(m, pseudo_checksum(src_ip.0@, dest_ip.0@, m))
                    + old(buf)@.skip(32)
            }),
    {
        let ghost b0 = buf@;
        let ghost m = neighbor_advertisement_message(target_ip.0@, target_mac.0@);
        write_neighbor_advertisement_at(buf, 0, src_ip, dest_ip, target_ip, target_mac);
        assert(buf@ =~= with_checksum(m, pseudo_checksum(src_ip.0@, dest_ip.0@, m)) + b0.skip(32));
    }
}

/// An echo reply written by `write_echo_reply` reads back as what was written:
/// it parses, its type is EchoReply with code 0, its identifier, sequence
/// number and payload are the ones given (followed by whatever came after it
/// in the buffer), and its checksum verifies.
pub proof fn lemma_echo_reply_roundtrip(
    src: Seq<u8>,
    dest: Seq<u8>,
    identifier: u16,
    seq_num: u16,
    payload: Seq<u8>,
    rest: Seq<u8>,
)
    ensures
        ({
            let m = echo_reply_message(identifier, seq_num, payload);
            let b = with_checksum(m, pseudo_checksum(src, dest, m)) + rest;
            &&& message_valid(b)
            &&& message_type(b) == Icmpv6Type::EchoReply
            &&& b[1] == 0
            &&& be_u16(b[4], b[5]) == identifier
            &&& be_u16(b[6], b[7]) == seq_num
            &&& message_payload(b) == payload + rest
            &&& pseudo_checksum(src, dest, bytes_upto(b, m.len())) == 0
        }),
{
    let m = echo_reply_message(identifier, seq_num, payload);
    let c = pseudo_checksum(src, dest, m);
    let b = with_checksum(m, c) + rest;
    crate::wire::lemma_be_u16_roundtrip(identifier);
    crate::wire::lemma_be_u16_roundtrip(seq_num);
    assert(message_payload(b) =~= payload + rest);
    assert(bytes_upto(b, m.len()) =~= with_checksum(m, c));
    lemma_checksum_verifies(src, dest, m);
}

/// A neighbor advertisement written by `write_neighbor_advertisement` reads
/// back as what was written: it parses, its type is NeighborAdvertisement with
/// code 0, its flags are Solicited and Override, it carries the target address
/// and a Target Link-Layer Address option with the given MAC address, and its
/// checksum verifies.
pub proof fn lemma_neighbor_advertisement_roundtrip(
    src: Seq<u8>,
    dest: Seq<u8>,
    target: Ipv6Address,
    mac: MacAddress,
    rest: Seq<u8>,
)
    ensures
        ({
            let m = neighbor_advertisement_message(target.0@, mac.0@);
            let b = with_checksum(m, pseudo_checksum(src, dest, m)) + rest;
            &&& message_valid(b)
            &&& message_type(b) == Icmpv6Type::NeighborAdvertisement
            &&& b[1] == 0
            &&& b[4] == 0x60
            &&& b.subrange(8, 24) == target.0@
            &&& b[24] == 2
            &&& b[25] == 1
            &&& b.subrange(26, 32) == mac.0@
            &&& pseudo_checksum(src, dest, bytes_upto(b, 32)) == 0
        }),
{
    let m = neighbor_advertisement_message(target.0@, mac.0@);
    let c = pseudo_checksum(src, dest, m);
    let b = with_checksum(m, c) + rest;
    assert(m.len() == 32);
    assert(b.subrange(8, 24) =~= target.0@);
    assert(b.subrange(26, 32) =~= mac.0@);
    assert(bytes_upto(b, 32) =~= with_checksum(m, c));
    lemma_checksum_verifies(src, dest, m);
}


/// The message type codes: 1, 2, 3, 4, 128, 129, 135 and 136 name the eight
/// known types; any other code `v` is `Unknown(v)`.
pub proof fn lemma_message_type_codes(v: u8)
    ensures
        v == 1 ==> message_type_of(v) == Icmpv6Type::DestinationUnreachable,
        v == 2 ==> message_type_of(v) == Icmpv6Type::PacketTooBig,
        v == 3 ==> message_type_of(v) == Icmpv6Type::TimeExceeded,
        v == 4 ==> message_type_of(v) == Icmpv6Type::ParameterProblem,
        v == 128 ==> message_type_of(v) == Icmpv6Type::EchoRequest,
        v == 129 ==> message_type_of(v) == Icmpv6Type::EchoReply,
        v == 135 ==> message_type_of(v) == Icmpv6Type::NeighborSolicitation,
        v == 136 ==> message_type_of(v) == Icmpv6Type::NeighborAdvertisement,
        !(v == 1 || v == 2 || v == 3 || v == 4 || v == 128 || v == 129 || v == 135 || v == 136)
            ==> message_type_of(v) == Icmpv6Type::Unknown(v),
{
}

/// Where a message's fields sit: type in byte 0, the payload from byte 8 on.
pub proof fn lemma_message_layout(b: Seq<u8>)
    requires
        b.len() >= ICMPV6_HDR_LEN,
    ensures
        message_type(b) == message_type_of(b[0]),
        message_payload(b) == b.skip(8),
{
}

/// The bytes of an echo reply before its checksum is filled in: type 129,
/// code 0, a zero checksum field, the identifier and sequence number high byte
/// first, then the payload.
pub proof fn lemma_echo_reply_message_layout(identifier: u16, seq_num: u16, payload: Seq<u8>)
    ensures
        ({
            let m = echo_reply_message(identifier, seq_num, payload);
            &&& m.len() == 8 + payload.len()
            &&& m[0] == 129 && m[1] == 0 && m[2] == 0 && m[3] == 0
            &&& m[4] * 256 + m[5] == identifier
            &&& m[6] * 256 + m[7] == seq_num
            &&& m.skip(8) == payload
        }),
{
    let m = echo_reply_message(identifier, seq_num, payload);
    assert(m.skip(8) =~= payload);
}

/// The bytes of a neighbor advertisement before its checksum is filled in:
/// type 136, code 0, a zero checksum field, flags 0x60 then three zero bytes,
/// the target address, and the option type 2, length 1, MAC address.
pub proof fn lemma_neighbor_advertisement_message_layout(target: Ipv6Address, mac: MacAddress)
    ensures
        ({
            let m = neighbor_advertisement_message(target.0@, mac.0@);
            &&& m.len() == 32
            &&& m[0] == 136 && m[1] == 0 && m[2] == 0 && m[3] == 0
            &&& m[4] == 0x60 && m[5] == 0 && m[6] == 0 && m[7] == 0
            &&& m.subrange(8, 24) == target.0@
            &&& m[24] == 2 && m[25] == 1
            &&& m.subrange(26, 32) == mac.0@
        }),
{
    let m = neighbor_advertisement_message(target.0@, mac.0@);
    assert(m.subrange(8, 24) =~= target.0@);
    assert(m.subrange(26, 32) =~= mac.0@);
}

} // verus!
