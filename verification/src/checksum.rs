//! The Internet checksum of an ICMPv6 message over the IPv6 pseudo-header.

use crate::ipv6::Ipv6Address;
use crate::wire::{hi_byte, lo_byte, read_u16_at};
use vstd::prelude::*;

verus! {

/// Sum of the network-order 16-bit words of `data`; an odd final byte counts
/// as the high byte of a word whose low byte is 0.
pub open spec fn word_sum(data: Seq<u8>) -> nat
    decreases data.len(),
{
    if data.len() == 0 {
        0
    } else if data.len() == 1 {
        data[0] as nat * 256
    } else {
        data[0] as nat * 256 + data[1] as nat + word_sum(data.subrange(2, data.len() as int))
    }
}

/// The unfolded sum of the checksum: the words of the pseudo-header (source
/// and destination address, the message length taken as a `u32`, next header
/// 58) and the words of the message.
pub open spec fn checksum_sum(src: Seq<u8>, dest: Seq<u8>, data: Seq<u8>) -> nat {
    word_sum(src) + word_sum(dest) + (data.len() as u32) as nat + 58 + word_sum(data)
}

/// Adds the carries above 16 bits back in until the value fits in 16 bits.
pub open spec fn fold_carries(s: nat) -> nat
    decreases s,
{
    if s < 0x10000 {
        s
    } else {
        fold_carries(s % 0x10000 + s / 0x10000)
    }
}

/// How many times 0xFFFF the folding removes from `s`.
pub open spec fn fold_quotient(s: nat) -> nat
    decreases s,
{
    if s < 0x10000 {
        0
    } else {
        s / 0x10000 + fold_quotient(s % 0x10000 + s / 0x10000)
    }
}

/// The checksum of an ICMPv6 message `data` sent from `src` to `dest`: the
/// one's complement of the folded sum.
pub open spec fn pseudo_checksum(src: Seq<u8>, dest: Seq<u8>, data: Seq<u8>) -> u16 {
    (0xFFFF - fold_carries(checksum_sum(src, dest, data))) as u16
}

/// `m` with its checksum field (bytes 2 and 3) set to `c`.
pub open spec fn with_checksum(m: Seq<u8>, c: u16) -> Seq<u8> {
    m.update(2, hi_byte(c)).update(3, lo_byte(c))
}

/// Each byte adds at most 65535 to the word sum.
pub proof fn lemma_word_sum_bound(data: Seq<u8>)
    ensures
        word_sum(data) <= 65535 * data.len(),
    decreases data.len(),
{
    if data.len() >= 2 {
        lemma_word_sum_bound(data.subrange(2, data.len() as int));
    }
}

/// Folding keeps the value's residue modulo 0xFFFF, lands in `1..=0xFFFF`
/// for a positive value, and reaches a value below 0x10000.
proof fn lemma_fold_carries(s: nat)
    ensures
        s == fold_carries(s) + 65535 * fold_quotient(s),
        fold_carries(s) < 0x10000,
        s > 0 ==> fold_carries(s) >= 1,
    decreases s,
{
    if s >= 0x10000 {
        let t: nat = s % 0x10000 + s / 0x10000;
        assert(s == 0x10000 * (s / 0x10000) + s % 0x10000);
        lemma_fold_carries(t);
    }
}

/// Writing `c` into a zero checksum field adds `c` to the word sum.
proof fn lemma_word_sum_with_checksum(m: Seq<u8>, c: u16)
    requires
        m.len() >= 4,
        m[2] == 0,
        m[3] == 0,
    ensures
        word_sum(with_checksum(m, c)) == word_sum(m) + c,
{
    let m2 = with_checksum(m, c);
    let len = m.len() as int;
    assert(m.subrange(2, len).subrange(2, len - 2) =~= m.subrange(4, len));
    assert(m2.subrange(2, len).subrange(2, len - 2) =~= m.subrange(4, len));
    assert(m.subrange(2, len)[0] == 0 && m.subrange(2, len)[1] == 0);
    assert(m2.subrange(2, len)[0] == hi_byte(c) && m2.subrange(2, len)[1] == lo_byte(c));
    assert(word_sum(m.subrange(2, len)) == word_sum(m.subrange(4, len)));
    assert(word_sum(m2.subrange(2, len)) == hi_byte(c) as nat * 256 + lo_byte(c) as nat
        + word_sum(m.subrange(4, len)));
}

/// A message whose checksum field holds the checksum computed while that field
/// was zero passes the check: the checksum computed over it is 0.
pub proof fn lemma_checksum_verifies(src: Seq<u8>, dest: Seq<u8>, m: Seq<u8>)
    requires
        m.len() >= 4,
        m[2] == 0,
        m[3] == 0,
    ensures
        pseudo_checksum(src, dest, with_checksum(m, pseudo_checksum(src, dest, m))) == 0,
{
    let s = checksum_sum(src, dest, m);
    lemma_fold_carries(s);
    let f = fold_carries(s);
    let c = pseudo_checksum(src, dest, m);
    assert(c == 0xFFFF - f);
    let m2 = with_checksum(m, c);
    lemma_word_sum_with_checksum(m, c);
    let s2 = checksum_sum(src, dest, m2);
    assert(s2 == s + c);
    lemma_fold_carries(s2);
}

/// Filling in the checksum sets bytes 2 and 3 to `c`, high byte first, and
/// changes nothing else.
pub proof fn lemma_with_checksum_layout(m: Seq<u8>, c: u16)
    requires
        m.len() >= 4,
    ensures
        with_checksum(m, c).len() == m.len(),
        with_checksum(m, c)[2] * 256 + with_checksum(m, c)[3] == c,
        forall|i: int|
            0 <= i < m.len() && i != 2 && i != 3 ==> #[trigger] with_checksum(m, c)[i] == m[i],
{
}

/// `k` zero bytes.
pub open spec fn zero_bytes(k: nat) -> Seq<u8> {
    Seq::new(k, |i: int| 0u8)
}

/// The word sum of a byte string: empty sums to 0, one byte `a` to `a * 256`,
/// two bytes `a`, `b` to `a * 256 + b`, and a string split after an even
/// number of bytes sums to the sum of its two parts.
pub proof fn lemma_word_sum_laws(x: Seq<u8>, y: Seq<u8>, a: u8, b: u8)
    ensures
        word_sum(Seq::<u8>::empty()) == 0,
        word_sum(seq![a]) == a * 256,
        word_sum(seq![a, b]) == a * 256 + b,
        x.len() % 2 == 0 ==> word_sum(x + y) == word_sum(x) + word_sum(y),
    decreases x.len(),
{
    assert(seq![a, b].subrange(2, 2) =~= Seq::<u8>::empty());
    assert(word_sum(seq![a, b].subrange(2, 2)) == 0);
    if x.len() % 2 == 0 && x.len() >= 2 {
        lemma_word_sum_laws(x.subrange(2, x.len() as int), y, a, b);
        assert((x + y).subrange(2, (x + y).len() as int) =~= x.subrange(2, x.len() as int) + y);
        assert((x + y)[0] == x[0] && (x + y)[1] == x[1]);
    } else if x.len() == 0 {
        assert(x + y =~= y);
    }
}

/// Zero bytes appended to a message add nothing to its word sum.
pub proof fn lemma_word_sum_zero_extension(m: Seq<u8>, k: nat)
    ensures
        word_sum(m + zero_bytes(k)) == word_sum(m),
    decreases m.len(), k,
{
    if m.len() >= 2 {
        lemma_word_sum_zero_extension(m.subrange(2, m.len() as int), k);
        assert((m + zero_bytes(k)).subrange(2, (m + zero_bytes(k)).len() as int) =~= m.subrange(
            2,
            m.len() as int,
        ) + zero_bytes(k));
        assert((m + zero_bytes(k))[0] == m[0] && (m + zero_bytes(k))[1] == m[1]);
    } else if m.len() == 1 {
        if k >= 1 {
            let z = m + zero_bytes(k);
            lemma_word_sum_zero_extension(Seq::<u8>::empty(), (k - 1) as nat);
            assert(z.subrange(2, z.len() as int) =~= Seq::<u8>::empty() + zero_bytes((k - 1) as nat));
            assert(z[0] == m[0] && z[1] == 0);
        } else {
            assert(m + zero_bytes(k) =~= m);
        }
    } else {
        assert(m + zero_bytes(k) =~= zero_bytes(k));
        if k >= 2 {
            lemma_word_sum_zero_extension(Seq::<u8>::empty(), (k - 2) as nat);
            assert(zero_bytes(k).subrange(2, k as int) =~= Seq::<u8>::empty() + zero_bytes(
                (k - 2) as nat,
            ));
        }
    }
}

/// The sum of the checksum takes in the addresses' words, the message length
/// (as a full 32-bit value), the next header 58 and the message's words.
pub proof fn lemma_checksum_sum_parts(src: Seq<u8>, dest: Seq<u8>, m: Seq<u8>)
    requires
        m.len() <= u32::MAX,
    ensures
        checksum_sum(src, dest, m) == word_sum(src) + word_sum(dest) + m.len() + 58 + word_sum(m),
{
}

/// Appending `k` zero bytes to a message adds exactly `k` (through the length
/// field) to the sum of its checksum, for any total length that fits in 32 bits.
pub proof fn lemma_checksum_sum_zero_extension(src: Seq<u8>, dest: Seq<u8>, m: Seq<u8>, k: nat)
    requires
        m.len() + k <= u32::MAX,
    ensures
        checksum_sum(src, dest, m + zero_bytes(k)) == checksum_sum(src, dest, m) + k,
{
    lemma_word_sum_zero_extension(m, k);
}

/// The checksum is the one's complement of the sum in one's-complement
/// arithmetic: it is below 0xFFFF, and checksum plus sum is a multiple of 0xFFFF.
pub proof fn lemma_checksum_complements_sum(src: Seq<u8>, dest: Seq<u8>, m: Seq<u8>)
    ensures
        pseudo_checksum(src, dest, m) < 0xFFFF,
        (pseudo_checksum(src, dest, m) + checksum_sum(src, dest, m)) % 0xFFFF == 0,
{
    let s = checksum_sum(src, dest, m);
    lemma_fold_carries(s);
    let q = fold_quotient(s);
    assert(pseudo_checksum(src, dest, m) + s == (q + 1) * 0xFFFF);
    vstd::arithmetic::div_mod::lemma_mod_multiples_basic(q + 1 as int, 0xFFFF);
}

/// Computes the checksum of the message `msg`, sent from `src_ip` to
/// `dest_ip`, over the IPv6 pseudo-header with next header 58.
pub fn pseudo_header_checksum(
    src_ip: &Ipv6Address,
    dest_ip: &Ipv6Address,
    msg: &[u8],
) -> (csum: u16)
    requires
        msg@.len() >= 1,
        checksum_sum(src_ip.0@, dest_ip.0@, msg@) <= u32::MAX,
    ensures
        csum == pseudo_checksum(src_ip.0@, dest_ip.0@, msg@),
{
    let ghost src = src_ip.0@;
    let ghost dest = dest_ip.0@;
    let ghost data = msg@;
    let ghost total = checksum_sum(src, dest, data);
    let n = msg.len();
    let mut sum: u32 = 0;

    // Pseudo-header
    let src_words = src_ip.segments();
    let mut k: usize = 0;
    assert(src.subrange(0, 16) =~= src);
    while k < 8
        invariant
            k <= 8,
            src == src_ip.0@,
            src.len() == 16,
            forall|j: int| 0 <= j < 8 ==> #[trigger] src_words@[j] == crate::ipv6::ipv6_segment(src, j),
            sum as nat + word_sum(src.subrange(2 * k, 16)) + word_sum(dest) + (data.len() as u32) as nat
                + 58 + word_sum(data) == total,
            total <= u32::MAX,
        decreases 8 - k,
    {
        let ghost rest = src.subrange(2 * k, 16);
        assert(rest.subrange(2, rest.len() as int) =~= src.subrange(2 * k + 2, 16));
        sum = sum + src_words[k] as u32;
        k = k + 1;
    }
    let dest_words = dest_ip.segments();
    let mut k: usize = 0;
    assert(dest.subrange(0, 16) =~= dest);
    assert(src.subrange(16, 16) =~= Seq::<u8>::empty());
    while k < 8
        invariant
            k <= 8,
            dest == dest_ip.0@,
            dest.len() == 16,
            forall|j: int| 0 <= j < 8 ==> #[trigger] dest_words@[j] == crate::ipv6::ipv6_segment(dest, j),
            sum as nat + word_sum(dest.subrange(2 * k, 16)) + (data.len() as u32) as nat + 58
                + word_sum(data) == total,
            total <= u32::MAX,
        decreases 8 - k,
    {
        let ghost rest = dest.subrange(2 * k, 16);
        assert(rest.subrange(2, rest.len() as int) =~= dest.subrange(2 * k + 2, 16));
        sum = sum + dest_words[k] as u32;
        k = k + 1;
    }
    assert(dest.subrange(16, 16) =~= Seq::<u8>::empty());

    sum = sum + msg.len() as u32;
    sum = sum + 58u32;  // Next Header (ICMPv6)

    // ICMPv6 Data
    let mut i: usize = 0;
    assert(data.subrange(0, n as int) =~= data);
    while i < msg.len() - 1
        invariant
            n == data.len(),
            n >= 1,
            data == msg@,
            i <= n,
            i % 2 == 0,
            sum as nat + word_sum(data.subrange(i as int, n as int)) == total,
            total <= u32::MAX,
        decreases n - i,
    {
        let ghost rest = data.subrange(i as int, n as int);
        assert(rest.subrange(2, rest.len() as int) =~= data.subrange(i + 2, n as int));
        let word = read_u16_at(msg, i);
        sum = sum + word as u32;
        i = i + 2;
    }

    if msg.len() % 2 != 0 {
        assert(i == n - 1);
        let last = msg[msg.len() - 1];
        assert((last as u32) << 8u32 == (last as u32) * 256) by (bit_vector)
            requires
                last < 256,
        ;
        sum = sum + ((last as u32) << 8);
    } else {
        assert(i == n);
    }
    assert(sum == total);

    while (sum >> 16) != 0
        invariant
            fold_carries(sum as nat) == fold_carries(total),
        decreases sum,
    {
        assert(sum >> 16u32 == sum / 0x10000) by (bit_vector);
        assert(sum & 0xFFFFu32 == sum % 0x10000) by (bit_vector);
        sum = (sum & 0xFFFF) + (sum >> 16);
    }
    assert(sum >> 16u32 == sum / 0x10000) by (bit_vector);
    assert(sum < 0x10000);
    let low = sum as u16;
    assert(!low == 0xFFFFu16 - low) by (bit_vector);
    !low
}

} // verus!
