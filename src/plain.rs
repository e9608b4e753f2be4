//! Values with a fixed byte image, the unit of the cursor's typed reads and
//! writes.
//!
//! Each value stands in a buffer as a fixed number of bytes, in
//! little-endian order for integers. Every byte string of that length is the
//! image of exactly one value, so a value read back from the bytes written
//! for it is the same value.
use vstd::prelude::*;
use vstd::bytes::{
    spec_u16_from_le_bytes, spec_u32_from_le_bytes, spec_u64_from_le_bytes,
    spec_u16_to_le_bytes, spec_u32_to_le_bytes, spec_u64_to_le_bytes, u16_from_le_bytes,
    u16_to_le_bytes, u32_from_le_bytes, u32_to_le_bytes, u64_from_le_bytes, u64_to_le_bytes,
};

verus! {

broadcast use vstd::array::array_len_matches_n;

/// A value that is stored as a fixed-length byte image.
pub trait Plain: Sized {
    /// The bytes that stand for the value.
    spec fn image(&self) -> Seq<u8>;

    /// The length of every image of this type.
    spec fn image_len() -> nat;

    /// Images have the fixed length, and distinct values have distinct images.
    proof fn lemma_image(a: Self, b: Self)
        ensures
            a.image().len() == Self::image_len(),
            a.image() == b.image() ==> a == b,
    ;

    fn size() -> (r: usize)
        ensures
            r as nat == Self::image_len(),
    ;

    fn encode(&self) -> (r: std::vec::Vec<u8>)
        ensures
            r@ == self.image(),
    ;

    fn decode(bytes: &[u8]) -> (r: Self)
        requires
            bytes@.len() == Self::image_len(),
        ensures
            r.image() == bytes@,
    ;
}

impl Plain for u8 {
    open spec fn image(&self) -> Seq<u8> {
        seq![*self]
    }

    open spec fn image_len() -> nat {
        1
    }

    proof fn lemma_image(a: Self, b: Self) {
        if a.image() == b.image() {
            assert(a.image()[0] == b.image()[0]);
        }
    }

    fn size() -> (r: usize) {
        1
    }

    fn encode(&self) -> (r: std::vec::Vec<u8>) {
        let mut r: std::vec::Vec<u8> = std::vec::Vec::new();
        r.push(*self);
        assert(r@ =~= seq![*self]);
        r
    }

    fn decode(bytes: &[u8]) -> (r: Self) {
        let r = bytes[0];
        assert(bytes@ =~= seq![r]);
        r
    }
}

impl Plain for u16 {
    open spec fn image(&self) -> Seq<u8> {
        spec_u16_to_le_bytes(*self)
    }

    open spec fn image_len() -> nat {
        2
    }

    proof fn lemma_image(a: Self, b: Self) {
        lemma_u16_image(a, b);
    }

    fn size() -> (r: usize) {
        2
    }

    fn encode(&self) -> (r: std::vec::Vec<u8>) {
        u16_to_le_bytes(*self)
    }

    fn decode(bytes: &[u8]) -> (r: Self) {
        proof {
            vstd::bytes::lemma_auto_spec_u16_to_from_le_bytes();
        }
        u16_from_le_bytes(bytes)
    }
}

impl Plain for u32 {
    open spec fn image(&self) -> Seq<u8> {
        spec_u32_to_le_bytes(*self)
    }

    open spec fn image_len() -> nat {
        4
    }

    proof fn lemma_image(a: Self, b: Self) {
        lemma_u32_image(a, b);
    }

    fn size() -> (r: usize) {
        4
    }

    fn encode(&self) -> (r: std::vec::Vec<u8>) {
        u32_to_le_bytes(*self)
    }

    fn decode(bytes: &[u8]) -> (r: Self) {
        proof {
            vstd::bytes::lemma_auto_spec_u32_to_from_le_bytes();
        }
        u32_from_le_bytes(bytes)
    }
}

impl Plain for u64 {
    open spec fn image(&self) -> Seq<u8> {
        spec_u64_to_le_bytes(*self)
    }

    open spec fn image_len() -> nat {
        8
    }

    proof fn lemma_image(a: Self, b: Self) {
        lemma_u64_image(a, b);
    }

    fn size() -> (r: usize) {
        8
    }

    fn encode(&self) -> (r: std::vec::Vec<u8>) {
        u64_to_le_bytes(*self)
    }

    fn decode(bytes: &[u8]) -> (r: Self) {
        proof {
            vstd::bytes::lemma_auto_spec_u64_to_from_le_bytes();
        }
        u64_from_le_bytes(bytes)
    }
}

/// A `usize` takes the width of the machine word: eight bytes on a 64-bit
/// target, four on a 32-bit one.
impl Plain for usize {
    open spec fn image(&self) -> Seq<u8> {
        if usize::BITS == 64 {
            spec_u64_to_le_bytes(*self as u64)
        } else {
            spec_u32_to_le_bytes(*self as u32)
        }
    }

    open spec fn image_len() -> nat {
        if usize::BITS == 64 {
            8
        } else {
            4
        }
    }

    proof fn lemma_image(a: Self, b: Self) {
        lemma_u64_image(a as u64, b as u64);
        lemma_u32_image(a as u32, b as u32);
    }

    fn size() -> (r: usize) {
        if usize::BITS == 64 {
            8
        } else {
            4
        }
    }

    fn encode(&self) -> (r: std::vec::Vec<u8>) {
        if usize::BITS == 64 {
            u64_to_le_bytes(*self as u64)
        } else {
            u32_to_le_bytes(*self as u32)
        }
    }

    fn decode(bytes: &[u8]) -> (r: Self) {
        proof {
            vstd::bytes::lemma_auto_spec_u64_to_from_le_bytes();
            vstd::bytes::lemma_auto_spec_u32_to_from_le_bytes();
        }
        if usize::BITS == 64 {
            u64_from_le_bytes(bytes) as usize
        } else {
            u32_from_le_bytes(bytes) as usize
        }
    }
}

impl<const K: usize> Plain for [u8; K] {
    open spec fn image(&self) -> Seq<u8> {
        self@
    }

    open spec fn image_len() -> nat {
        K as nat
    }

    proof fn lemma_image(a: Self, b: Self) {
        if a.image() == b.image() {
            assert(a@ =~= b@);
        }
    }

    fn size() -> (r: usize) {
        K
    }

    fn encode(&self) -> (r: std::vec::Vec<u8>) {
        let mut r: std::vec::Vec<u8> = std::vec::Vec::new();
        let mut i: usize = 0;
        while i < K
            invariant
                i <= K,
                r@ == self@.take(i as int),
            decreases K - i,
        {
            r.push(self[i]);
            i = i + 1;
            assert(r@ =~= self@.take(i as int));
        }
        assert(r@ =~= self@);
        r
    }

    fn decode(bytes: &[u8]) -> (r: Self) {
        let mut r: [u8; K] = [0u8; K];
        let mut i: usize = 0;
        while i < K
            invariant
                i <= K,
                bytes@.len() == K,
                r@.take(i as int) == bytes@.take(i as int),
            decreases K - i,
        {
            r[i] = bytes[i];
            i = i + 1;
            assert(r@.take(i as int) =~= bytes@.take(i as int));
        }
        assert(r@ =~= r@.take(K as int));
        assert(r@ =~= bytes@);
        r
    }
}

proof fn lemma_u16_image(a: u16, b: u16)
    ensures
        spec_u16_to_le_bytes(a).len() == 2,
        spec_u16_to_le_bytes(a) == spec_u16_to_le_bytes(b) ==> a == b,
{
    vstd::bytes::lemma_auto_spec_u16_to_from_le_bytes();
    assert(spec_u16_to_le_bytes(a).len() == 2 && spec_u16_to_le_bytes(b).len() == 2);
    assert(spec_u16_from_le_bytes(spec_u16_to_le_bytes(a)) == a);
    assert(spec_u16_from_le_bytes(spec_u16_to_le_bytes(b)) == b);
}

proof fn lemma_u32_image(a: u32, b: u32)
    ensures
        spec_u32_to_le_bytes(a).len() == 4,
        spec_u32_to_le_bytes(a) == spec_u32_to_le_bytes(b) ==> a == b,
{
    vstd::bytes::lemma_auto_spec_u32_to_from_le_bytes();
    assert(spec_u32_to_le_bytes(a).len() == 4 && spec_u32_to_le_bytes(b).len() == 4);
    assert(spec_u32_from_le_bytes(spec_u32_to_le_bytes(a)) == a);
    assert(spec_u32_from_le_bytes(spec_u32_to_le_bytes(b)) == b);
}

proof fn lemma_u64_image(a: u64, b: u64)
    ensures
        spec_u64_to_le_bytes(a).len() == 8,
        spec_u64_to_le_bytes(a) == spec_u64_to_le_bytes(b) ==> a == b,
{
    vstd::bytes::lemma_auto_spec_u64_to_from_le_bytes();
    assert(spec_u64_to_le_bytes(a).len() == 8 && spec_u64_to_le_bytes(b).len() == 8);
    assert(spec_u64_from_le_bytes(spec_u64_to_le_bytes(a)) == a);
    assert(spec_u64_from_le_bytes(spec_u64_to_le_bytes(b)) == b);
}

} // verus!
