//! Casting between plain-old-data forms: a value, a referenced value, or a
//! slice of one [`Pod`] type becomes the same bytes seen as another.
//!
//! The source's memory image is re-read as the target type, so the bytes are
//! kept exactly. A cast of a borrowed value hands out a copy in the target
//! type; a cast of a mutably borrowed value hands the target-typed view to a
//! closure and writes what the closure returns back over the source, so that
//! the change shows through either type.

use crate::marker::{decode_all, encode_all, images, lemma_images_len, Pod, Zeroable};
use crate::rules::{
    check_ref_cast, check_slice_cast, check_value_cast, lemma_resize_keeps_bytes, resize_outcome,
    PodCastError,
};
use vstd::layout::align_of;
use vstd::pervasive::unreached;
use vstd::prelude::*;

verus! {

/// Relies on `<[T]>::as_ptr`: the address at which the slice's data starts,
/// as an integer.
#[verifier::external_body]
fn slice_address<T>(s: &[T]) -> (r: usize) {
    s.as_ptr() as usize
}

/// Relies on `core::ptr::from_ref`: the address of the referenced value, as an
/// integer.
#[verifier::external_body]
fn ref_address<T>(t: &T) -> (r: usize) {
    core::ptr::from_ref(t) as usize
}

/// Re-interprets `&T` as its bytes: a copy of its memory image. A ZST gives no
/// bytes.
pub fn bytes_of<T: Pod>(t: &T) -> (r: Vec<u8>)
    ensures
        r@ == t.image(),
        r@.len() == T::size(),
{
    proof {
        T::lemma_image_size(*t);
    }
    t.to_image()
}

/// Re-interprets `&mut T` as its bytes: `f` gets the memory image of `t` and
/// what it returns becomes the memory image of `t`.
pub fn bytes_of_mut<T: Pod, F: FnOnce(Vec<u8>) -> Vec<u8>>(t: &mut T, f: F)
    requires
        forall|v: Vec<u8>| v@.len() == T::size() ==> f.requires((v,)),
        forall|v: Vec<u8>, w: Vec<u8>| f.ensures((v,), w) ==> w@.len() == v@.len(),
    ensures
        exists|v: Vec<u8>, w: Vec<u8>|
            v@ == old(t).image() && f.ensures((v,), w) && final(t).image() == w@,
{
    let v = t.to_image();
    proof {
        T::lemma_image_size(*t);
    }
    let ghost v0 = v;
    let w = f(v);
    *t = T::from_image(w.as_slice());
    assert(v0@ == old(t).image() && f.ensures((v0,), w) && final(t).image() == w@);
}

/// Try to cast `A` into `B`: the result has the same memory image.
///
/// ## Failure
///
/// * If the types don't have the same size this fails.
pub fn try_cast<A: Pod, B: Pod>(a: A) -> (r: Result<B, PodCastError>)
    ensures
        r is Ok <==> A::size() == B::size(),
        r matches Ok(b) ==> b.image() == a.image(),
        r matches Err(e) ==> e == PodCastError::SizeMismatch,
{
    match check_value_cast(A::size_of(), B::size_of()) {
        Ok(()) => {
            let bytes = a.to_image();
            proof {
                A::lemma_image_size(a);
            }
            Ok(B::from_image(bytes.as_slice()))
        },
        Err(e) => Err(e),
    }
}

/// As [`try_cast`], but the sizes must match.
pub fn cast<A: Pod, B: Pod>(a: A) -> (r: B)
    requires
        A::size() == B::size(),
    ensures
        r.image() == a.image(),
{
    match try_cast::<A, B>(a) {
        Ok(b) => b,
        Err(_) => unreached(),
    }
}

/// Try to convert a `&A` into a `B` with the same memory image.
///
/// ## Failure
///
/// * If `B` asks for more alignment than `A` and the reference isn't aligned
///   for `B`. This is checked first.
/// * If the source type and target type aren't the same size.
pub fn try_cast_ref<A: Pod, B: Pod>(a: &A) -> (r: Result<B, PodCastError>)
    ensures
        match r {
            Ok(b) => A::size() == B::size() && b.image() == a.image(),
            Err(PodCastError::TargetAlignmentGreaterAndInputNotAligned) => align_of::<B>()
                > align_of::<A>(),
            Err(e) => e == PodCastError::SizeMismatch && A::size() != B::size(),
        },
{
    let addr = ref_address(a);
    match check_ref_cast(
        addr,
        A::size_of(),
        core::mem::align_of::<A>(),
        B::size_of(),
        core::mem::align_of::<B>(),
    ) {
        Ok(()) => {
            let bytes = a.to_image();
            proof {
                A::lemma_image_size(*a);
            }
            Ok(B::from_image(bytes.as_slice()))
        },
        Err(e) => Err(e),
    }
}

/// As [`try_cast_ref`], but the sizes must match and `B` may ask for no more
/// alignment than `A`.
pub fn cast_ref<A: Pod, B: Pod>(a: &A) -> (r: B)
    requires
        A::size() == B::size(),
        align_of::<B>() <= align_of::<A>(),
    ensures
        r.image() == a.image(),
{
    match try_cast_ref::<A, B>(a) {
        Ok(b) => b,
        Err(_) => unreached(),
    }
}

/// As [`try_cast_ref`], but `mut`: `f` gets the value seen as a `B`, and the
/// memory image of what it returns becomes that of `a`. On failure `f` is not
/// called and `a` is left as it was.
pub fn try_cast_mut<A: Pod, B: Pod, F: FnOnce(B) -> B>(a: &mut A, f: F) -> (r: Result<
    (),
    PodCastError,
>)
    requires
        forall|b: B| f.requires((b,)),
    ensures
        match r {
            Ok(()) => A::size() == B::size() && exists|b: B, c: B|
                b.image() == old(a).image() && f.ensures((b,), c) && final(a).image() == c.image(),
            Err(PodCastError::TargetAlignmentGreaterAndInputNotAligned) => align_of::<B>()
                > align_of::<A>() && *final(a) == *old(a),
            Err(e) => e == PodCastError::SizeMismatch && A::size() != B::size() && *final(a)
                == *old(a),
        },
{
    let addr = ref_address(a);
    match check_ref_cast(
        addr,
        A::size_of(),
        core::mem::align_of::<A>(),
        B::size_of(),
        core::mem::align_of::<B>(),
    ) {
        Ok(()) => {
            let bytes = a.to_image();
            proof {
                A::lemma_image_size(*a);
            }
            let b = B::from_image(bytes.as_slice());
            let c = f(b);
            let out = c.to_image();
            proof {
                B::lemma_image_size(c);
            }
            *a = A::from_image(out.as_slice());
            assert(b.image() == old(a).image() && f.ensures((b,), c) && final(a).image()
                == c.image());
            Ok(())
        },
        Err(e) => Err(e),
    }
}

/// As [`try_cast_mut`], but the sizes must match and `B` may ask for no more
/// alignment than `A`.
pub fn cast_mut<A: Pod, B: Pod, F: FnOnce(B) -> B>(a: &mut A, f: F)
    requires
        A::size() == B::size(),
        align_of::<B>() <= align_of::<A>(),
        forall|b: B| f.requires((b,)),
    ensures
        exists|b: B, c: B|
            b.image() == old(a).image() && f.ensures((b,), c) && final(a).image() == c.image(),
{
    let r = try_cast_mut(a, f);
    assert(r is Ok);
}

/// Try to convert `&[A]` into a `Vec<B>` with the same bytes, re-partitioned
/// into `B`-sized elements (possibly with a change in length):
/// `input.len() * size_of::<A>() == output.len() * size_of::<B>()`.
///
/// ## Failure
///
/// * If the target type has a greater alignment requirement and the input
///   slice isn't aligned. This is checked first.
/// * If the target element type is a different size from the current element
///   type, and the output slice wouldn't be a whole number of elements when
///   accounting for the size change (eg: three `u16` values is 1.5 `u32`
///   values, so that's a failure).
/// * Similarly, you can't convert between a ZST and a non-ZST.
pub fn try_cast_slice<A: Pod, B: Pod>(a: &[A]) -> (r: Result<Vec<B>, PodCastError>)
    ensures
        match r {
            Ok(v) => resize_outcome(a@.len(), A::size(), B::size()) == Ok::<nat, PodCastError>(
                v@.len(),
            ) && images(v@) == images(a@),
            Err(PodCastError::TargetAlignmentGreaterAndInputNotAligned) => align_of::<B>()
                > align_of::<A>(),
            Err(e) => resize_outcome(a@.len(), A::size(), B::size()) == Err::<nat, PodCastError>(
                e,
            ),
        },
{
    let addr = slice_address(a);
    let bytes = encode_all(a);
    proof {
        lemma_images_len(a@);
    }
    let total = bytes.len();
    let size_a = A::size_of();
    let size_b = B::size_of();
    match check_slice_cast(
        addr,
        a.len(),
        size_a,
        core::mem::align_of::<A>(),
        size_b,
        core::mem::align_of::<B>(),
    ) {
        Ok(n) => {
            proof {
                lemma_resize_keeps_bytes(a@.len(), A::size(), B::size(), n as nat);
            }
            Ok(decode_all::<B>(bytes.as_slice(), n))
        },
        Err(e) => Err(e),
    }
}

/// As [`try_cast_slice`], but the cast must succeed: `B` may ask for no more
/// alignment than `A`, and the bytes must re-partition into whole `B`s.
pub fn cast_slice<A: Pod, B: Pod>(a: &[A]) -> (r: Vec<B>)
    requires
        align_of::<B>() <= align_of::<A>(),
        resize_outcome(a@.len(), A::size(), B::size()) is Ok,
    ensures
        resize_outcome(a@.len(), A::size(), B::size()) == Ok::<nat, PodCastError>(r@.len()),
        images(r@) == images(a@),
{
    match try_cast_slice::<A, B>(a) {
        Ok(v) => v,
        Err(_) => unreached(),
    }
}

/// Overwrites `a` with `items`, element by element.
fn write_all<A: Copy>(a: &mut [A], items: &Vec<A>)
    requires
        items@.len() == old(a)@.len(),
    ensures
        final(a)@ == items@,
{
    let mut i: usize = 0;
    while i < a.len()
        invariant
            i <= a@.len(),
            a@.len() == items@.len(),
            forall|j: int| 0 <= j < i ==> a@[j] == items@[j],
        decreases a@.len() - i,
    {
        a[i] = items[i];
        i = i + 1;
    }
    assert(a@ =~= items@);
}

/// As [`try_cast_slice`], but `mut`: `f` gets the slice's bytes as `B`s, and
/// the bytes of what it returns (as many `B`s) are written back over `a`. On
/// failure `f` is not called and `a` is left as it was.
pub fn try_cast_slice_mut<A: Pod + Copy, B: Pod, F: FnOnce(Vec<B>) -> Vec<B>>(
    a: &mut [A],
    f: F,
) -> (r: Result<(), PodCastError>)
    requires
        forall|v: Vec<B>| f.requires((v,)),
        forall|v: Vec<B>, w: Vec<B>| f.ensures((v,), w) ==> w@.len() == v@.len(),
    ensures
        final(a)@.len() == old(a)@.len(),
        match r {
            Ok(()) => exists|v: Vec<B>, w: Vec<B>|
                resize_outcome(old(a)@.len(), A::size(), B::size()) == Ok::<nat, PodCastError>(
                    v@.len(),
                ) && images(v@) == images(old(a)@) && f.ensures((v,), w) && images(final(a)@)
                    == images(w@),
            Err(PodCastError::TargetAlignmentGreaterAndInputNotAligned) => align_of::<B>()
                > align_of::<A>() && final(a)@ == old(a)@,
            Err(e) => resize_outcome(old(a)@.len(), A::size(), B::size()) == Err::<
                nat,
                PodCastError,
            >(e) && final(a)@ == old(a)@,
        },
{
    let len = a.len();
    let addr = slice_address(a);
    let bytes = encode_all(a);
    proof {
        lemma_images_len(a@);
    }
    let total = bytes.len();
    let size_a = A::size_of();
    let size_b = B::size_of();
    match check_slice_cast(
        addr,
        len,
        size_a,
        core::mem::align_of::<A>(),
        size_b,
        core::mem::align_of::<B>(),
    ) {
        Ok(n) => {
            proof {
                lemma_resize_keeps_bytes(a@.len(), A::size(), B::size(), n as nat);
            }
            let v = decode_all::<B>(bytes.as_slice(), n);
            let ghost v0 = v;
            let w = f(v);
            let out = encode_all(w.as_slice());
            proof {
                lemma_images_len(w@);
            }
            let items = decode_all::<A>(out.as_slice(), len);
            write_all(a, &items);
            assert(resize_outcome(old(a)@.len(), A::size(), B::size()) == Ok::<nat, PodCastError>(
                v0@.len(),
            ) && images(v0@) == images(old(a)@) && f.ensures((v0,), w) && images(final(a)@)
                == images(w@));
            Ok(())
        },
        Err(e) => Err(e),
    }
}

/// As [`try_cast_slice_mut`], but the cast must succeed: `B` may ask for no
/// more alignment than `A`, and the bytes must re-partition into whole `B`s.
pub fn cast_slice_mut<A: Pod + Copy, B: Pod, F: FnOnce(Vec<B>) -> Vec<B>>(a: &mut [A], f: F)
    requires
        align_of::<B>() <= align_of::<A>(),
        resize_outcome(old(a)@.len(), A::size(), B::size()) is Ok,
        forall|v: Vec<B>| f.requires((v,)),
        forall|v: Vec<B>, w: Vec<B>| f.ensures((v,), w) ==> w@.len() == v@.len(),
    ensures
        final(a)@.len() == old(a)@.len(),
        exists|v: Vec<B>, w: Vec<B>|
            resize_outcome(old(a)@.len(), A::size(), B::size()) == Ok::<nat, PodCastError>(
                v@.len(),
            ) && images(v@) == images(old(a)@) && f.ensures((v,), w) && images(final(a)@)
                == images(w@),
{
    let r = try_cast_slice_mut(a, f);
    assert(r is Ok);
}

} // verus!
