//! The two capability tags: [`Zeroable`], for types whose all-zero memory
//! image is a value, and [`Pod`], for "plain old data" whose memory image can
//! be any bytes at all.
//!
//! Each tagged type states its memory image as a sequence of bytes (integers
//! little-endian, arrays element after element) and proves that it has no
//! padding and no forbidden bit patterns: every image of the right size
//! belongs to exactly one value.

use crate::image::{
    decode_le, encode_le, lemma_le_bytes_len, lemma_le_bytes_of_value, lemma_le_value_bound,
    lemma_le_value_of_bytes, le_bytes, le_value,
};
use vstd::arithmetic::power::pow;
use vstd::prelude::*;

verus! {

/// `n` zero bytes.
pub open spec fn zero_bytes(n: nat) -> Seq<u8> {
    Seq::new(n, |_i: int| 0u8)
}

/// The memory images of the values of `s`, one after another.
pub open spec fn images<T: Zeroable>(s: Seq<T>) -> Seq<u8>
    decreases s.len(),
{
    if s.len() == 0 {
        seq![]
    } else {
        images(s.drop_last()) + s.last().image()
    }
}

/// Marker trait for types that can be safely made from all-zero bytes.
///
/// The type must be inhabited and must allow the all-zero bit pattern (so no
/// "non-zero" or "non-null" types).
pub trait Zeroable: Sized {
    /// The number of bytes in this type's memory image: its size.
    spec fn size() -> nat;

    /// This value's memory image, lowest address first.
    spec fn image(&self) -> Seq<u8>;

    /// The value whose memory image is all zero bytes.
    fn zeroed() -> (r: Self)
        ensures
            r.image() == zero_bytes(Self::size()),
    ;
}

/// Marker trait for "plain old data": the type allows any bit pattern and has
/// no padding, so every image of [`Zeroable::size`] bytes is the image of
/// exactly one value. Once a type is plain old data, its values can be cast
/// to and from any other plain old data of the same size.
pub trait Pod: Zeroable {
    /// Every image has the type's size.
    proof fn lemma_image_size(x: Self)
        ensures
            x.image().len() == Self::size(),
    ;

    /// Two values with the same image are the same value.
    proof fn lemma_image_injective(x: Self, y: Self)
        requires
            x.image() == y.image(),
        ensures
            x == y,
    ;

    /// The type's size, in bytes.
    fn size_of() -> (r: usize)
        ensures
            r as nat == Self::size(),
    ;

    /// A copy of this value's memory image.
    fn to_image(&self) -> (r: Vec<u8>)
        ensures
            r@ == self.image(),
    ;

    /// The value whose memory image is `bytes`.
    fn from_image(bytes: &[u8]) -> (r: Self)
        requires
            bytes@.len() == Self::size(),
        ensures
            r.image() == bytes@,
    ;
}

/// `le_bytes` of zero is all zero bytes.
proof fn lemma_le_zero(n: nat)
    ensures
        le_bytes(0, n) == zero_bytes(n),
    decreases n,
{
    if n > 0 {
        lemma_le_zero((n - 1) as nat);
        assert(le_bytes(0, n) =~= zero_bytes(n));
    }
}

/// Two numbers that fit in `n` bytes and have the same `n` bytes are equal.
proof fn lemma_le_injective(a: nat, b: nat, n: nat)
    requires
        a < pow(256, n),
        b < pow(256, n),
        le_bytes(a, n) == le_bytes(b, n),
    ensures
        a == b,
{
    lemma_le_value_of_bytes(a, n);
    lemma_le_value_of_bytes(b, n);
}

/// The number read from `n` bytes fits in `n` bytes and gives them back.
proof fn lemma_le_decode(s: Seq<u8>)
    ensures
        le_value(s) < pow(256, s.len()),
        le_bytes(le_value(s), s.len()) == s,
{
    lemma_le_value_bound(s);
    lemma_le_bytes_of_value(s);
}

/// How many values fit in each integer width.
proof fn lemma_int_ranges()
    ensures
        pow(256, 1) == 0x100,
        pow(256, 2) == 0x1_0000,
        pow(256, 4) == 0x1_0000_0000,
        pow(256, 8) == 0x1_0000_0000_0000_0000,
        pow(256, 16) == 0x1_0000_0000_0000_0000_0000_0000_0000_0000,
        pow(256, vstd::layout::size_of::<usize>()) == usize::MAX + 1,
        vstd::layout::size_of::<usize>() == 4 || vstd::layout::size_of::<usize>() == 8,
{
    broadcast use vstd::layout::layout_of_primitives;

    vstd::layout::unsigned_int_max_values();
}

impl Zeroable for u8 {
    open spec fn size() -> nat {
        1
    }

    open spec fn image(&self) -> Seq<u8> {
        le_bytes(*self as nat, 1)
    }

    fn zeroed() -> (r: Self) {
        proof {
            lemma_le_zero(1);
        }
        0
    }
}

impl Pod for u8 {
    proof fn lemma_image_size(x: Self) {
        lemma_le_bytes_len(x as nat, 1);
    }

    proof fn lemma_image_injective(x: Self, y: Self) {
        lemma_int_ranges();
        lemma_le_injective(x as nat, y as nat, 1);
    }

    fn size_of() -> (r: usize) {
        broadcast use vstd::layout::layout_of_primitives;

        core::mem::size_of::<u8>()
    }

    fn to_image(&self) -> (r: Vec<u8>) {
        encode_le(*self as u128, 1)
    }

    fn from_image(bytes: &[u8]) -> (r: Self) {
        proof {
            lemma_int_ranges();
            lemma_le_decode(bytes@);
        }
        decode_le(bytes) as u8
    }
}

impl Zeroable for i8 {
    open spec fn size() -> nat {
        1
    }

    open spec fn image(&self) -> Seq<u8> {
        le_bytes((*self as u8) as nat, 1)
    }

    fn zeroed() -> (r: Self) {
        proof {
            lemma_le_zero(1);
        }
        0
    }
}

impl Pod for i8 {
    proof fn lemma_image_size(x: Self) {
        lemma_le_bytes_len((x as u8) as nat, 1);
    }

    proof fn lemma_image_injective(x: Self, y: Self) {
        lemma_int_ranges();
        lemma_le_injective((x as u8) as nat, (y as u8) as nat, 1);
        assert((x as u8) == (y as u8) ==> x == y) by (bit_vector);
    }

    fn size_of() -> (r: usize) {
        broadcast use vstd::layout::layout_of_primitives;

        core::mem::size_of::<i8>()
    }

    fn to_image(&self) -> (r: Vec<u8>) {
        encode_le(*self as u8 as u128, 1)
    }

    fn from_image(bytes: &[u8]) -> (r: Self) {
        proof {
            lemma_int_ranges();
            lemma_le_decode(bytes@);
        }
        let v = decode_le(bytes) as u8;
        let r = v as i8;
        assert((v as i8) as u8 == v) by (bit_vector);
        r
    }
}

impl Zeroable for u16 {
    open spec fn size() -> nat {
        2
    }

    open spec fn image(&self) -> Seq<u8> {
        le_bytes(*self as nat, 2)
    }

    fn zeroed() -> (r: Self) {
        proof {
            lemma_le_zero(2);
        }
        0
    }
}

impl Pod for u16 {
    proof fn lemma_image_size(x: Self) {
        lemma_le_bytes_len(x as nat, 2);
    }

    proof fn lemma_image_injective(x: Self, y: Self) {
        lemma_int_ranges();
        lemma_le_injective(x as nat, y as nat, 2);
    }

    fn size_of() -> (r: usize) {
        broadcast use vstd::layout::layout_of_primitives;

        core::mem::size_of::<u16>()
    }

    fn to_image(&self) -> (r: Vec<u8>) {
        encode_le(*self as u128, 2)
    }

    fn from_image(bytes: &[u8]) -> (r: Self) {
        proof {
            lemma_int_ranges();
            lemma_le_decode(bytes@);
        }
        decode_le(bytes) as u16
    }
}

impl Zeroable for i16 {
    open spec fn size() -> nat {
        2
    }

    open spec fn image(&self) -> Seq<u8> {
        le_bytes((*self as u16) as nat, 2)
    }

    fn zeroed() -> (r: Self) {
        proof {
            lemma_le_zero(2);
        }
        0
    }
}

impl Pod for i16 {
    proof fn lemma_image_size(x: Self) {
        lemma_le_bytes_len((x as u16) as nat, 2);
    }

    proof fn lemma_image_injective(x: Self, y: Self) {
        lemma_int_ranges();
        lemma_le_injective((x as u16) as nat, (y as u16) as nat, 2);
        assert((x as u16) == (y as u16) ==> x == y) by (bit_vector);
    }

    fn size_of() -> (r: usize) {
        broadcast use vstd::layout::layout_of_primitives;

        core::mem::size_of::<i16>()
    }

    fn to_image(&self) -> (r: Vec<u8>) {
        encode_le(*self as u16 as u128, 2)
    }

    fn from_image(bytes: &[u8]) -> (r: Self) {
        proof {
            lemma_int_ranges();
            lemma_le_decode(bytes@);
        }
        let v = decode_le(bytes) as u16;
        let r = v as i16;
        assert((v as i16) as u16 == v) by (bit_vector);
        r
    }
}

impl Zeroable for u32 {
    open spec fn size() -> nat {
        4
    }

    open spec fn image(&self) -> Seq<u8> {
        le_bytes(*self as nat, 4)
    }

    fn zeroed() -> (r: Self) {
        proof {
            lemma_le_zero(4);
        }
        0
    }
}

impl Pod for u32 {
    proof fn lemma_image_size(x: Self) {
        lemma_le_bytes_len(x as nat, 4);
    }

    proof fn lemma_image_injective(x: Self, y: Self) {
        lemma_int_ranges();
        lemma_le_injective(x as nat, y as nat, 4);
    }

    fn size_of() -> (r: usize) {
        broadcast use vstd::layout::layout_of_primitives;

        core::mem::size_of::<u32>()
    }

    fn to_image(&self) -> (r: Vec<u8>) {
        encode_le(*self as u128, 4)
    }

    fn from_image(bytes: &[u8]) -> (r: Self) {
        proof {
            lemma_int_ranges();
            lemma_le_decode(bytes@);
        }
        decode_le(bytes) as u32
    }
}

impl Zeroable for i32 {
    open spec fn size() -> nat {
        4
    }

    open spec fn image(&self) -> Seq<u8> {
        le_bytes((*self as u32) as nat, 4)
    }

    fn zeroed() -> (r: Self) {
        proof {
            lemma_le_zero(4);
        }
        0
    }
}

impl Pod for i32 {
    proof fn lemma_image_size(x: Self) {
        lemma_le_bytes_len((x as u32) as nat, 4);
    }

    proof fn lemma_image_injective(x: Self, y: Self) {
        lemma_int_ranges();
        lemma_le_injective((x as u32) as nat, (y as u32) as nat, 4);
        assert((x as u32) == (y as u32) ==> x == y) by (bit_vector);
    }

    fn size_of() -> (r: usize) {
        broadcast use vstd::layout::layout_of_primitives;

        core::mem::size_of::<i32>()
    }

    fn to_image(&self) -> (r: Vec<u8>) {
        encode_le(*self as u32 as u128, 4)
    }

    fn from_image(bytes: &[u8]) -> (r: Self) {
        proof {
            lemma_int_ranges();
            lemma_le_decode(bytes@);
        }
        let v = decode_le(bytes) as u32;
        let r = v as i32;
        assert((v as i32) as u32 == v) by (bit_vector);
        r
    }
}

impl Zeroable for u64 {
    open spec fn size() -> nat {
        8
    }

    open spec fn image(&self) -> Seq<u8> {
        le_bytes(*self as nat, 8)
    }

    fn zeroed() -> (r: Self) {
        proof {
            lemma_le_zero(8);
        }
        0
    }
}

impl Pod for u64 {
    proof fn lemma_image_size(x: Self) {
        lemma_le_bytes_len(x as nat, 8);
    }

    proof fn lemma_image_injective(x: Self, y: Self) {
        lemma_int_ranges();
        lemma_le_injective(x as nat, y as nat, 8);
    }

    fn size_of() -> (r: usize) {
        broadcast use vstd::layout::layout_of_primitives;

        core::mem::size_of::<u64>()
    }

    fn to_image(&self) -> (r: Vec<u8>) {
        encode_le(*self as u128, 8)
    }

    fn from_image(bytes: &[u8]) -> (r: Self) {
        proof {
            lemma_int_ranges();
            lemma_le_decode(bytes@);
        }
        decode_le(bytes) as u64
    }
}

impl Zeroable for i64 {
    open spec fn size() -> nat {
        8
    }

    open spec fn image(&self) -> Seq<u8> {
        le_bytes((*self as u64) as nat, 8)
    }

    fn zeroed() -> (r: Self) {
        proof {
            lemma_le_zero(8);
        }
        0
    }
}

impl Pod for i64 {
    proof fn lemma_image_size(x: Self) {
        lemma_le_bytes_len((x as u64) as nat, 8);
    }

    proof fn lemma_image_injective(x: Self, y: Self) {
        lemma_int_ranges();
        lemma_le_injective((x as u64) as nat, (y as u64) as nat, 8);
        assert((x as u64) == (y as u64) ==> x == y) by (bit_vector);
    }

    fn size_of() -> (r: usize) {
        broadcast use vstd::layout::layout_of_primitives;

        core::mem::size_of::<i64>()
    }

    fn to_image(&self) -> (r: Vec<u8>) {
        encode_le(*self as u64 as u128, 8)
    }

    fn from_image(bytes: &[u8]) -> (r: Self) {
        proof {
            lemma_int_ranges();
            lemma_le_decode(bytes@);
        }
        let v = decode_le(bytes) as u64;
        let r = v as i64;
        assert((v as i64) as u64 == v) by (bit_vector);
        r
    }
}

impl Zeroable for u128 {
    open spec fn size() -> nat {
        16
    }

    open spec fn image(&self) -> Seq<u8> {
        le_bytes(*self as nat, 16)
    }

    fn zeroed() -> (r: Self) {
        proof {
            lemma_le_zero(16);
        }
        0
    }
}

impl Pod for u128 {
    proof fn lemma_image_size(x: Self) {
        lemma_le_bytes_len(x as nat, 16);
    }

    proof fn lemma_image_injective(x: Self, y: Self) {
        lemma_int_ranges();
        lemma_le_injective(x as nat, y as nat, 16);
    }

    fn size_of() -> (r: usize) {
        broadcast use vstd::layout::layout_of_primitives;

        core::mem::size_of::<u128>()
    }

    fn to_image(&self) -> (r: Vec<u8>) {
        encode_le(*self as u128, 16)
    }

    fn from_image(bytes: &[u8]) -> (r: Self) {
        proof {
            lemma_int_ranges();
            lemma_le_decode(bytes@);
        }
        decode_le(bytes) as u128
    }
}

impl Zeroable for i128 {
    open spec fn size() -> nat {
        16
    }

    open spec fn image(&self) -> Seq<u8> {
        le_bytes((*self as u128) as nat, 16)
    }

    fn zeroed() -> (r: Self) {
        proof {
            lemma_le_zero(16);
        }
        0
    }
}

impl Pod for i128 {
    proof fn lemma_image_size(x: Self) {
        lemma_le_bytes_len((x as u128) as nat, 16);
    }

    proof fn lemma_image_injective(x: Self, y: Self) {
        lemma_int_ranges();
        lemma_le_injective((x as u128) as nat, (y as u128) as nat, 16);
        assert((x as u128) == (y as u128) ==> x == y) by (bit_vector);
    }

    fn size_of() -> (r: usize) {
        broadcast use vstd::layout::layout_of_primitives;

        core::mem::size_of::<i128>()
    }

    fn to_image(&self) -> (r: Vec<u8>) {
        encode_le(*self as u128 as u128, 16)
    }

    fn from_image(bytes: &[u8]) -> (r: Self) {
        proof {
            lemma_int_ranges();
            lemma_le_decode(bytes@);
        }
        let v = decode_le(bytes) as u128;
        let r = v as i128;
        assert((v as i128) as u128 == v) by (bit_vector);
        r
    }
}

impl Zeroable for usize {
    open spec fn size() -> nat {
        vstd::layout::size_of::<usize>()
    }

    open spec fn image(&self) -> Seq<u8> {
        le_bytes(*self as nat, vstd::layout::size_of::<usize>())
    }

    fn zeroed() -> (r: Self) {
        proof {
            lemma_le_zero(vstd::layout::size_of::<usize>());
        }
        0
    }
}

impl Pod for usize {
    proof fn lemma_image_size(x: Self) {
        lemma_le_bytes_len(x as nat, vstd::layout::size_of::<usize>());
    }

    proof fn lemma_image_injective(x: Self, y: Self) {
        lemma_int_ranges();
        lemma_le_injective(x as nat, y as nat, vstd::layout::size_of::<usize>());
    }

    fn size_of() -> (r: usize) {
        broadcast use vstd::layout::layout_of_primitives;

        core::mem::size_of::<usize>()
    }

    fn to_image(&self) -> (r: Vec<u8>) {
        encode_le(*self as u128, core::mem::size_of::<usize>())
    }

    fn from_image(bytes: &[u8]) -> (r: Self) {
        proof {
            lemma_int_ranges();
            lemma_le_decode(bytes@);
        }
        decode_le(bytes) as usize
    }
}

impl Zeroable for isize {
    open spec fn size() -> nat {
        vstd::layout::size_of::<usize>()
    }

    open spec fn image(&self) -> Seq<u8> {
        le_bytes((*self as usize) as nat, vstd::layout::size_of::<usize>())
    }

    fn zeroed() -> (r: Self) {
        proof {
            lemma_le_zero(vstd::layout::size_of::<usize>());
        }
        0
    }
}

impl Pod for isize {
    proof fn lemma_image_size(x: Self) {
        lemma_le_bytes_len((x as usize) as nat, vstd::layout::size_of::<usize>());
    }

    proof fn lemma_image_injective(x: Self, y: Self) {
        lemma_int_ranges();
        lemma_le_injective(
            (x as usize) as nat,
            (y as usize) as nat,
            vstd::layout::size_of::<usize>(),
        );
        assert((x as usize) == (y as usize) ==> x == y) by (bit_vector);
    }

    fn size_of() -> (r: usize) {
        broadcast use vstd::layout::layout_of_primitives;

        core::mem::size_of::<isize>()
    }

    fn to_image(&self) -> (r: Vec<u8>) {
        encode_le(*self as usize as u128, core::mem::size_of::<usize>())
    }

    fn from_image(bytes: &[u8]) -> (r: Self) {
        proof {
            lemma_int_ranges();
            lemma_le_decode(bytes@);
        }
        let v = decode_le(bytes) as usize;
        let r = v as isize;
        assert((v as isize) as usize == v) by (bit_vector);
        r
    }
}

/// The images of a sequence of plain old data take one size per value.
pub proof fn lemma_images_len<T: Pod>(s: Seq<T>)
    ensures
        images(s).len() == s.len() * T::size(),
    decreases s.len(),
{
    if s.len() > 0 {
        lemma_images_len(s.drop_last());
        T::lemma_image_size(s.last());
        let n = s.len();
        let w = T::size();
        assert((n - 1) * w + w == n * w) by (nonlinear_arith);
    }
}

/// Appending a value appends its image.
pub proof fn lemma_images_push<T: Zeroable>(s: Seq<T>, x: T)
    ensures
        images(s.push(x)) == images(s) + x.image(),
{
    assert(s.push(x).drop_last() =~= s);
}

/// Two sequences of plain old data of one length with the same images are
/// the same sequence.
pub proof fn lemma_images_injective<T: Pod>(s1: Seq<T>, s2: Seq<T>)
    requires
        s1.len() == s2.len(),
        images(s1) == images(s2),
    ensures
        s1 == s2,
    decreases s1.len(),
{
    if s1.len() > 0 {
        let d1 = s1.drop_last();
        let d2 = s2.drop_last();
        lemma_images_len(d1);
        lemma_images_len(d2);
        let all = images(s1);
        let k = images(d1).len() as int;
        assert(images(d1) =~= all.subrange(0, k));
        assert(images(d2) =~= all.subrange(0, k));
        assert(s1.last().image() =~= all.subrange(k, all.len() as int));
        assert(s2.last().image() =~= all.subrange(k, all.len() as int));
        T::lemma_image_injective(s1.last(), s2.last());
        lemma_images_injective(d1, d2);
        assert(s1 =~= d1.push(s1.last()));
        assert(s2 =~= d2.push(s2.last()));
    }
}

/// Values whose images are all zero bytes have all-zero images together.
pub proof fn lemma_images_zero<T: Zeroable>(s: Seq<T>)
    requires
        forall|i: int| 0 <= i < s.len() ==> #[trigger] s[i].image() == zero_bytes(T::size()),
    ensures
        images(s) == zero_bytes(s.len() * T::size()),
    decreases s.len(),
{
    if s.len() > 0 {
        let d = s.drop_last();
        assert forall|i: int| 0 <= i < d.len() implies #[trigger] d[i].image() == zero_bytes(
            T::size(),
        ) by {
            assert(d[i] == s[i]);
        }
        lemma_images_zero(d);
        assert(s.last() == s[s.len() - 1]);
        let n = s.len();
        let w = T::size();
        assert((n - 1) * w + w == n * w) by (nonlinear_arith);
        assert(images(s) =~= zero_bytes(n * w));
    }
}

/// The memory images of the values of `s`, one after another.
pub fn encode_all<T: Pod>(s: &[T]) -> (r: Vec<u8>)
    ensures
        r@ == images(s@),
{
    let mut out: Vec<u8> = Vec::new();
    let mut i: usize = 0;
    while i < s.len()
        invariant
            i <= s@.len(),
            out@ == images(s@.subrange(0, i as int)),
        decreases s@.len() - i,
    {
        let mut img = s[i].to_image();
        proof {
            let longer = s@.subrange(0, i + 1);
            assert(longer.drop_last() =~= s@.subrange(0, i as int));
            assert(longer.last() == s@[i as int]);
        }
        out.append(&mut img);
        i = i + 1;
    }
    assert(s@.subrange(0, s@.len() as int) =~= s@);
    out
}

/// The `count` values whose memory images, one after another, are `bytes`.
pub fn decode_all<T: Pod>(bytes: &[u8], count: usize) -> (r: Vec<T>)
    requires
        bytes@.len() == count * T::size(),
    ensures
        r@.len() == count,
        images(r@) == bytes@,
{
    let w = T::size_of();
    let total = bytes.len();
    let mut out: Vec<T> = Vec::new();
    let mut k: usize = 0;
    while k < count
        invariant
            k <= count,
            w == T::size(),
            total == bytes@.len(),
            bytes@.len() == count * w,
            out@.len() == k,
            images(out@) == bytes@.subrange(0, k * w),
        decreases count - k,
    {
        proof {
            assert(k * w + w == (k + 1) * w && (k + 1) * w <= count * w) by (nonlinear_arith)
                requires
                    k < count,
            ;
        }
        let start = k * w;
        let end = start + w;
        let item = T::from_image(vstd::slice::slice_subrange(bytes, start, end));
        proof {
            lemma_images_push(out@, item);
            assert(bytes@.subrange(0, end as int) =~= bytes@.subrange(0, start as int)
                + bytes@.subrange(start as int, end as int));
        }
        out.push(item);
        k = k + 1;
    }
    assert(bytes@.subrange(0, count * w) =~= bytes@);
    out
}

impl Zeroable for () {
    open spec fn size() -> nat {
        0
    }

    open spec fn image(&self) -> Seq<u8> {
        seq![]
    }

    fn zeroed() -> (r: Self) {
        assert(zero_bytes(0) =~= seq![]);
    }
}

impl Pod for () {
    proof fn lemma_image_size(x: Self) {
    }

    proof fn lemma_image_injective(x: Self, y: Self) {
    }

    fn size_of() -> (r: usize) {
        broadcast use vstd::layout::layout_of_unit_tuple;

        core::mem::size_of::<()>()
    }

    fn to_image(&self) -> (r: Vec<u8>) {
        Vec::new()
    }

    fn from_image(bytes: &[u8]) -> (r: Self) {
        assert(bytes@ =~= seq![]);
    }
}

impl<T: Zeroable> Zeroable for core::marker::PhantomData<T> {
    open spec fn size() -> nat {
        0
    }

    open spec fn image(&self) -> Seq<u8> {
        seq![]
    }

    fn zeroed() -> (r: Self) {
        assert(zero_bytes(0) =~= seq![]);
        core::marker::PhantomData
    }
}

impl<T: Pod> Pod for core::marker::PhantomData<T> {
    proof fn lemma_image_size(x: Self) {
    }

    proof fn lemma_image_injective(x: Self, y: Self) {
    }

    fn size_of() -> (r: usize) {
        0
    }

    fn to_image(&self) -> (r: Vec<u8>) {
        Vec::new()
    }

    fn from_image(bytes: &[u8]) -> (r: Self) {
        assert(bytes@ =~= seq![]);
        core::marker::PhantomData
    }
}

impl Zeroable for bool {
    open spec fn size() -> nat {
        1
    }

    open spec fn image(&self) -> Seq<u8> {
        seq![if *self { 1u8 } else { 0u8 }]
    }

    fn zeroed() -> (r: Self) {
        assert(seq![0u8] =~= zero_bytes(1));
        false
    }
}

impl Zeroable for char {
    open spec fn size() -> nat {
        4
    }

    open spec fn image(&self) -> Seq<u8> {
        le_bytes((*self as u32) as nat, 4)
    }

    fn zeroed() -> (r: Self) {
        proof {
            lemma_le_zero(4);
        }
        '\0'
    }
}

impl<T: Zeroable + Copy, const N: usize> Zeroable for [T; N] {
    open spec fn size() -> nat {
        N as nat * T::size()
    }

    open spec fn image(&self) -> Seq<u8> {
        images(self@)
    }

    fn zeroed() -> (r: Self) {
        let r = [T::zeroed(); N];
        proof {
            lemma_images_zero(r@);
        }
        r
    }
}

impl<T: Pod + Copy, const N: usize> Pod for [T; N] {
    proof fn lemma_image_size(x: Self) {
        lemma_images_len(x@);
    }

    proof fn lemma_image_injective(x: Self, y: Self) {
        lemma_images_injective(x@, y@);
        assert(x =~= y);
    }

    fn size_of() -> (r: usize) {
        let z = Self::zeroed();
        proof {
            Self::lemma_image_size(z);
        }
        z.to_image().len()
    }

    fn to_image(&self) -> (r: Vec<u8>) {
        encode_all(self.as_slice())
    }

    fn from_image(bytes: &[u8]) -> (r: Self) {
        let items = decode_all::<T>(bytes, N);
        let mut r = Self::zeroed();
        let mut i: usize = 0;
        while i < N
            invariant
                i <= N,
                items@.len() == N,
                forall|j: int| 0 <= j < i ==> r@[j] == items@[j],
            decreases N - i,
        {
            r[i] = items[i];
            i = i + 1;
        }
        assert(r@ =~= items@);
        r
    }
}

} // verus!
