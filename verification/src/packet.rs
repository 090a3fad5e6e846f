//! Fixed-size frame buffers.

use vstd::prelude::*;

verus! {

/// Largest Ethernet frame handled, header included.
pub const MTU: usize = 1514;

/// A frame held in a buffer of `MTU` bytes, of which the first `len` are used.
#[derive(Clone, Copy)]
pub struct Packet {
    pub len: usize,
    pub data: [u8; MTU],
}

impl Packet {
    /// An empty packet: length 0, all bytes zero.
    pub fn new() -> (p: Self)
        ensures
            p.len == 0,
            p.data@ == Seq::new(MTU as nat, |i: int| 0u8),
    {
        let p = Self { len: 0, data: [0u8; MTU] };
        assert(p.data@ =~= Seq::new(MTU as nat, |i: int| 0u8));
        p
    }

    /// A packet holding a copy of `slice`, the rest of its buffer zero.
    pub fn from_slice(slice: &[u8]) -> (p: Self)
        requires
            slice@.len() <= MTU,
        ensures
            p.len == slice@.len(),
            p.data@ == slice@ + Seq::new((MTU - slice@.len()) as nat, |i: int| 0u8),
    {
        let mut p = Self::new();
        p.len = slice.len();
        let n = slice.len();
        let mut i: usize = 0;
        while i < n
            invariant
                n == slice@.len(),
                n <= MTU,
                i <= n,
                p.len == n,
                forall|j: int| 0 <= j < i ==> p.data@[j] == slice@[j],
                forall|j: int| i <= j < MTU ==> p.data@[j] == 0u8,
            decreases n - i,
        {
            p.data[i] = slice[i];
            i = i + 1;
        }
        assert(p.data@ =~= slice@ + Seq::new((MTU - slice@.len()) as nat, |i: int| 0u8));
        p
    }
}

} // verus!
