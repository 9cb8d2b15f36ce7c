//! The integer and `f64x2` register types.

use crate::image::{
    decode_le, encode_le, lemma_le_bytes_len, lemma_le_bytes_of_value, lemma_le_value_bound,
    le_bytes, le_value,
};
use crate::arch::sse::m128;
use crate::marker::{Pod, Zeroable};
use vstd::arithmetic::power::pow;
use vstd::prelude::*;

verus! {

/// A 128-bit SIMD value whose integer lanes depend on the operation used:
/// lane `i` of width `w` bits is bits `w * i .. w * (i + 1)`.
#[allow(non_camel_case_types)]
#[derive(Clone, Copy)]
pub struct m128i(pub u128);

impl Zeroable for m128i {
    open spec fn size() -> nat {
        16
    }

    open spec fn image(&self) -> Seq<u8> {
        le_bytes(self.0 as nat, 16)
    }

    fn zeroed() -> (r: Self) {
        m128i(u128::zeroed())
    }
}

impl Pod for m128i {
    proof fn lemma_image_size(x: Self) {
        u128::lemma_image_size(x.0);
    }

    proof fn lemma_image_injective(x: Self, y: Self) {
        u128::lemma_image_injective(x.0, y.0);
    }

    fn size_of() -> (r: usize) {
        u128::size_of()
    }

    fn to_image(&self) -> (r: Vec<u8>) {
        self.0.to_image()
    }

    fn from_image(bytes: &[u8]) -> (r: Self) {
        m128i(u128::from_image(bytes))
    }
}

/// The register whose bytes, lowest lane first, are `bytes`.
fn from_lanes(bytes: &[u8]) -> (r: m128i)
    requires
        bytes@.len() == 16,
    ensures
        r.image() == bytes@,
{
    proof {
        lemma_le_value_bound(bytes@);
        lemma_le_bytes_of_value(bytes@);
    }
    m128i(decode_le(bytes))
}

impl m128i {
    /// Sets the `i8` values into the lanes, high to low: `e0` is lane 0.
    pub fn set_i8(
        e15: i8,
        e14: i8,
        e13: i8,
        e12: i8,
        e11: i8,
        e10: i8,
        e9: i8,
        e8: i8,
        e7: i8,
        e6: i8,
        e5: i8,
        e4: i8,
        e3: i8,
        e2: i8,
        e1: i8,
        e0: i8,
    ) -> (r: m128i)
        ensures
            r.image() == seq![
                e0 as u8, e1 as u8, e2 as u8, e3 as u8, e4 as u8, e5 as u8, e6 as u8, e7 as u8,
                e8 as u8, e9 as u8, e10 as u8, e11 as u8, e12 as u8, e13 as u8, e14 as u8,
                e15 as u8,
            ],
    {
        let lanes: [u8; 16] = [
            e0 as u8,
            e1 as u8,
            e2 as u8,
            e3 as u8,
            e4 as u8,
            e5 as u8,
            e6 as u8,
            e7 as u8,
            e8 as u8,
            e9 as u8,
            e10 as u8,
            e11 as u8,
            e12 as u8,
            e13 as u8,
            e14 as u8,
            e15 as u8,
        ];
        let r = from_lanes(lanes.as_slice());
        assert(r.image() =~= seq![
            e0 as u8, e1 as u8, e2 as u8, e3 as u8, e4 as u8, e5 as u8, e6 as u8, e7 as u8,
            e8 as u8, e9 as u8, e10 as u8, e11 as u8, e12 as u8, e13 as u8, e14 as u8,
            e15 as u8,
        ]);
        r
    }

    /// Sets the `i8` values into the lanes reversed, low to high: `e15` is
    /// lane 0.
    pub fn setr_i8(
        e15: i8,
        e14: i8,
        e13: i8,
        e12: i8,
        e11: i8,
        e10: i8,
        e9: i8,
        e8: i8,
        e7: i8,
        e6: i8,
        e5: i8,
        e4: i8,
        e3: i8,
        e2: i8,
        e1: i8,
        e0: i8,
    ) -> (r: m128i)
        ensures
            r.image() == seq![
                e15 as u8, e14 as u8, e13 as u8, e12 as u8, e11 as u8, e10 as u8, e9 as u8,
                e8 as u8, e7 as u8, e6 as u8, e5 as u8, e4 as u8, e3 as u8, e2 as u8, e1 as u8,
                e0 as u8,
            ],
    {
        Self::set_i8(e0, e1, e2, e3, e4, e5, e6, e7, e8, e9, e10, e11, e12, e13, e14, e15)
    }

    /// Extracts the `i16` lane with the `index` given (`0..8`), zero-extended.
    pub fn extract_i16(self, index: usize) -> (r: i32)
        requires
            index < 8,
        ensures
            r as nat == le_value(self.image().subrange(2 * index, 2 * index + 2)),
    {
        let bytes = encode_le(self.0, 16);
        proof {
            lemma_le_bytes_len(self.0 as nat, 16);
            let s = self.image().subrange(2 * index, 2 * index + 2);
            assert(s.drop_first().drop_first() =~= seq![]);
            assert(le_value(s.drop_first().drop_first()) == 0);
            assert(le_value(s.drop_first()) == s[1] as nat);
            assert(le_value(s) == s[0] as nat + 256 * s[1] as nat);
        }
        let lo = bytes[2 * index] as i32;
        let hi = bytes[2 * index + 1] as i32;
        lo + 256 * hi
    }

    /// Inserts the `i16` to the lane with the `index` given (`0..8`).
    pub fn insert_i16(self, val: i16, index: usize) -> (r: m128i)
        requires
            index < 8,
        ensures
            r.image() == self.image().subrange(0, 2 * index) + le_bytes((val as u16) as nat, 2)
                + self.image().subrange(2 * index + 2, 16),
    {
        let mut bytes = encode_le(self.0, 16);
        proof {
            lemma_le_bytes_len(self.0 as nat, 16);
        }
        let v = val as u16;
        bytes.set(2 * index, (v % 256) as u8);
        bytes.set(2 * index + 1, (v / 256) as u8);
        let r = from_lanes(bytes.as_slice());
        proof {
            let img = self.image();
            let lane = le_bytes(v as nat, 2);
            reveal_with_fuel(le_bytes, 3);
            assert(lane[0] == (v % 256) as u8 && lane[1] == ((v / 256) % 256) as u8);
            assert(v / 256 < 256);
            assert(r.image() =~= img.subrange(0, 2 * index) + lane + img.subrange(
                2 * index + 2,
                16,
            ));
        }
        r
    }

    /// The register's 128 bits as a single `i128`, and you can re-interpret
    /// that however you like.
    pub fn to_i128(self) -> (r: i128)
        ensures
            r == self.0 as i128,
    {
        self.0 as i128
    }

    /// Transmute this value into an `m128` without affecting bits.
    pub fn transmute_m128(self) -> (r: m128)
        ensures
            r.0 == self.0,
    {
        m128(self.0)
    }

    /// Casts this value into an `m128d` without affecting bits.
    pub fn cast_m128d(self) -> (r: m128d)
        ensures
            r.0 == self.0,
    {
        m128d(self.0)
    }
}

impl m128 {
    /// Transmute this value into an `m128i` without affecting bits.
    pub fn transmute_m128i(self) -> (r: m128i)
        ensures
            r.0 == self.0,
    {
        m128i(self.0)
    }

    /// Transmute this value into an `m128d` without affecting bits.
    pub fn transmute_m128d(self) -> (r: m128d)
        ensures
            r.0 == self.0,
    {
        m128d(self.0)
    }
}

/// A 128-bit SIMD value. Always used as `f64x2`: lane `i` is bits
/// `64 * i .. 64 * i + 64`.
#[allow(non_camel_case_types)]
#[derive(Clone, Copy)]
pub struct m128d(pub u128);

impl Zeroable for m128d {
    open spec fn size() -> nat {
        16
    }

    open spec fn image(&self) -> Seq<u8> {
        le_bytes(self.0 as nat, 16)
    }

    fn zeroed() -> (r: Self) {
        m128d(u128::zeroed())
    }
}

impl Pod for m128d {
    proof fn lemma_image_size(x: Self) {
        u128::lemma_image_size(x.0);
    }

    proof fn lemma_image_injective(x: Self, y: Self) {
        u128::lemma_image_injective(x.0, y.0);
    }

    fn size_of() -> (r: usize) {
        u128::size_of()
    }

    fn to_image(&self) -> (r: Vec<u8>) {
        self.0.to_image()
    }

    fn from_image(bytes: &[u8]) -> (r: Self) {
        m128d(u128::from_image(bytes))
    }
}

impl m128d {
    /// Casts this value into an `m128i` without affecting bits.
    pub fn cast_m128i(self) -> (r: m128i)
        ensures
            r.0 == self.0,
    {
        m128i(self.0)
    }

    /// Casts this value into an `m128` without affecting bits.
    pub fn cast_m128(self) -> (r: m128)
        ensures
            r.0 == self.0,
    {
        m128(self.0)
    }
}

} // verus!
