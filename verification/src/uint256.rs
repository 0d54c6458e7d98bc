//! Unsigned 256-bit integers, held as 32 big-endian bytes.

use vstd::prelude::*;

verus! {

/// The number that a sequence of bytes denotes when read big-endian.
pub open spec fn be_value(bytes: Seq<u8>) -> nat
    decreases bytes.len(),
{
    if bytes.len() == 0 {
        0
    } else {
        be_value(bytes.drop_last()) * 256 + bytes.last() as nat
    }
}

/// A run of zero bytes denotes zero.
pub proof fn lemma_be_value_zeros(bytes: Seq<u8>)
    requires
        forall|i: int| 0 <= i < bytes.len() ==> bytes[i] == 0,
    ensures
        be_value(bytes) == 0,
    decreases bytes.len(),
{
    if bytes.len() > 0 {
        lemma_be_value_zeros(bytes.drop_last());
    }
}

/// An unsigned integer of 256 bits.
#[derive(Clone, Copy, Debug, PartialEq, Eq)]
pub struct Uint256 {
    /// The 32 bytes of the number, most significant first.
    pub bytes: [u8; 32],
}

impl View for Uint256 {
    type V = nat;

    open spec fn view(&self) -> nat {
        be_value(self.bytes@)
    }
}

impl Uint256 {
    /// The number zero.
    pub fn zero() -> (r: Self)
        ensures
            r@ == 0,
            forall|i: int| 0 <= i < 32 ==> r.bytes[i] == 0,
    {
        let r = Uint256 { bytes: [0u8; 32] };
        proof {
            lemma_be_value_zeros(r.bytes@);
        }
        r
    }

    /// The number whose big-endian bytes are `bytes`.
    pub fn from_be_bytes(bytes: [u8; 32]) -> (r: Self)
        ensures
            r.bytes == bytes,
            r@ == be_value(bytes@),
    {
        Uint256 { bytes }
    }

    /// The 32 big-endian bytes of the number.
    pub fn to_be_bytes(&self) -> (bytes: [u8; 32])
        ensures
            bytes == self.bytes,
            be_value(bytes@) == self@,
    {
        self.bytes
    }

    /// Widens a 32-bit number to 256 bits, keeping its value.
    pub fn from_u32(x: u32) -> (r: Self)
        ensures
            r@ == x as nat,
    {
        let mut bytes: [u8; 32] = [0u8; 32];
        assert((x >> 24) & 0xff < 256 && (x >> 16) & 0xff < 256 && (x >> 8) & 0xff < 256 && x
            & 0xff < 256) by (bit_vector);
        let b3: u8 = ((x >> 24) & 0xff) as u8;
        let b2: u8 = ((x >> 16) & 0xff) as u8;
        let b1: u8 = ((x >> 8) & 0xff) as u8;
        let b0: u8 = (x & 0xff) as u8;
        bytes[28] = b3;
        bytes[29] = b2;
        bytes[30] = b1;
        bytes[31] = b0;
        proof {
            let s31 = bytes@.drop_last();
            let s30 = s31.drop_last();
            let s29 = s30.drop_last();
            let s28 = s29.drop_last();
            lemma_be_value_zeros(s28);
            assert(be_value(s29) == b3);
            assert(be_value(s30) == b3 * 256 + b2);
            assert(be_value(s31) == (b3 * 256 + b2) * 256 + b1);
            assert(be_value(bytes@) == ((b3 * 256 + b2) * 256 + b1) * 256 + b0);
            assert(x == ((((x >> 24) & 0xff) * 256 + ((x >> 16) & 0xff)) * 256 + ((x >> 8)
                & 0xff)) * 256 + (x & 0xff)) by (bit_vector);
        }
        Uint256 { bytes }
    }
}

} // verus!
