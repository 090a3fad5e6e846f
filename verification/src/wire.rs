//! Big-endian (network order) 16-bit fields inside byte buffers.

use byteorder::{ByteOrder, NetworkEndian};
use vstd::prelude::*;

verus! {

/// The 16-bit value whose network-order encoding is the two bytes `hi`, `lo`.
pub open spec fn be_u16(hi: u8, lo: u8) -> u16 {
    (hi as int * 256 + lo as int) as u16
}

/// First byte of the network-order encoding of `n`.
pub open spec fn hi_byte(n: u16) -> u8 {
    (n / 256) as u8
}

/// Second byte of the network-order encoding of `n`.
pub open spec fn lo_byte(n: u16) -> u8 {
    (n % 256) as u8
}

/// The two bytes of the network-order encoding of `n`.
pub open spec fn be_bytes(n: u16) -> Seq<u8> {
    seq![hi_byte(n), lo_byte(n)]
}

/// `base` with the bytes from `pos` on overwritten by `part`; `base` keeps its length
/// when `part` fits.
pub open spec fn splice(base: Seq<u8>, pos: usize, part: Seq<u8>) -> Seq<u8> {
    base.subrange(0, pos as int) + part + base.subrange(pos + part.len(), base.len() as int)
}

/// `n` taken as a 16-bit value (`n` mod 2^16).
pub open spec fn len_u16(n: int) -> u16 {
    n as u16
}

/// `n` as a `u16`, for a length known to fit.
pub(crate) fn u16_from_len(n: usize) -> (r: u16)
    requires
        n <= u16::MAX,
    ensures
        r == n,
        r == len_u16(n as int),
{
    n as u16
}

/// The first `n` bytes of `b`.
pub open spec fn bytes_upto(b: Seq<u8>, n: nat) -> Seq<u8> {
    b.subrange(0, n as int)
}

/// All of `b` is its first `b.len()` bytes.
pub proof fn lemma_bytes_upto_len(b: Seq<u8>)
    ensures
        bytes_upto(b, b.len()) == b,
{
    assert(bytes_upto(b, b.len()) =~= b);
}

/// The bytes of `b` from index `n` on.
pub open spec fn bytes_from(b: Seq<u8>, n: nat) -> Seq<u8> {
    b.subrange(n as int, b.len() as int)
}

/// Copies all of `src` into `buf`, starting at `buf[pos]`.
pub(crate) fn copy_bytes_at(buf: &mut [u8], pos: usize, src: &[u8])
    requires
        pos + src@.len() <= old(buf)@.len(),
    ensures
        final(buf)@ == splice(old(buf)@, pos, src@),
{
    let n = src.len();
    let buf_len = buf.len();
    let mut i: usize = 0;
    while i < n
        invariant
            n == src@.len(),
            i <= n,
            pos + n <= buf_len,
            buf_len == buf@.len(),
            buf@.len() == old(buf)@.len(),
            forall|j: int| 0 <= j < pos ==> buf@[j] == old(buf)@[j],
            forall|j: int| 0 <= j < i ==> buf@[pos + j] == src@[j],
            forall|j: int| pos + i <= j < buf@.len() ==> buf@[j] == old(buf)@[j],
        decreases n - i,
    {
        buf[pos + i] = src[i];
        i = i + 1;
    }
    assert(buf@ =~= splice(old(buf)@, pos, src@));
}

/// Decoding the encoding of a value gives the value back.
pub proof fn lemma_be_u16_roundtrip(n: u16)
    ensures
        be_u16(hi_byte(n), lo_byte(n)) == n,
{
}

/// Reads the network-order `u16` stored at `buf[pos]`, `buf[pos + 1]`.
///
/// Calls `byteorder::NetworkEndian::read_u16` (that is, `BigEndian::read_u16`)
/// on the suffix of `buf` that starts at `pos`. Its source builds the value with
/// `u16::from_be_bytes` from the first two bytes of the slice it is given, and
/// panics only when that slice is shorter than two bytes, which the `requires`
/// rules out.
#[verifier::external_body]
pub(crate) fn read_u16_at(buf: &[u8], pos: usize) -> (n: u16)
    requires
        pos + 2 <= buf@.len(),
    ensures
        n == be_u16(buf@[pos as int], buf@[pos + 1]),
{
    NetworkEndian::read_u16(&buf[pos..])
}

/// Writes the network-order encoding of `n` into `buf[pos]`, `buf[pos + 1]`.
///
/// Calls `byteorder::NetworkEndian::write_u16` (that is, `BigEndian::write_u16`)
/// on the suffix of `buf` that starts at `pos`. Its source copies
/// `n.to_be_bytes()` into the first two bytes of the slice it is given and
/// touches nothing else; it panics only when that slice is shorter than two
/// bytes, which the `requires` rules out.
#[verifier::external_body]
pub(crate) fn write_u16_at(buf: &mut [u8], pos: usize, n: u16)
    requires
        pos + 2 <= old(buf)@.len(),
    ensures
        final(buf)@ == old(buf)@.update(pos as int, hi_byte(n)).update(pos + 1, lo_byte(n)),
{
    NetworkEndian::write_u16(&mut buf[pos..], n)
}

} // verus!
