//! Wrappers that mark a value for use where an alignment of 2, 4, 8, 16 or
//! 32 bytes is wanted. A wrapper holds exactly its inner value: its memory
//! image is the inner value's image, so it is plain old data whenever the
//! inner type is.

use crate::marker::{Pod, Zeroable};
use vstd::prelude::*;

verus! {

/// Wrap the inner value for an alignment of 2.
///
/// This is for alignment shenanigans, you're not expected to use it in a
/// struct, more just in function arguments and such.
#[derive(Debug, Clone, Copy)]
pub struct Align2<T>(pub T);

impl<T: Zeroable> Zeroable for Align2<T> {
    open spec fn size() -> nat {
        T::size()
    }

    open spec fn image(&self) -> Seq<u8> {
        self.0.image()
    }

    fn zeroed() -> (r: Self) {
        Align2(T::zeroed())
    }
}

impl<T: Pod> Pod for Align2<T> {
    proof fn lemma_image_size(x: Self) {
        T::lemma_image_size(x.0);
    }

    proof fn lemma_image_injective(x: Self, y: Self) {
        T::lemma_image_injective(x.0, y.0);
    }

    fn size_of() -> (r: usize) {
        T::size_of()
    }

    fn to_image(&self) -> (r: Vec<u8>) {
        self.0.to_image()
    }

    fn from_image(bytes: &[u8]) -> (r: Self) {
        Align2(T::from_image(bytes))
    }
}

/// Wrap the inner value for an alignment of 4.
///
/// This is for alignment shenanigans, you're not expected to use it in a
/// struct, more just in function arguments and such.
#[derive(Debug, Clone, Copy)]
pub struct Align4<T>(pub T);

impl<T: Zeroable> Zeroable for Align4<T> {
    open spec fn size() -> nat {
        T::size()
    }

    open spec fn image(&self) -> Seq<u8> {
        self.0.image()
    }

    fn zeroed() -> (r: Self) {
        Align4(T::zeroed())
    }
}

impl<T: Pod> Pod for Align4<T> {
    proof fn lemma_image_size(x: Self) {
        T::lemma_image_size(x.0);
    }

    proof fn lemma_image_injective(x: Self, y: Self) {
        T::lemma_image_injective(x.0, y.0);
    }

    fn size_of() -> (r: usize) {
        T::size_of()
    }

    fn to_image(&self) -> (r: Vec<u8>) {
        self.0.to_image()
    }

    fn from_image(bytes: &[u8]) -> (r: Self) {
        Align4(T::from_image(bytes))
    }
}

/// Wrap the inner value for an alignment of 8.
///
/// This is for alignment shenanigans, you're not expected to use it in a
/// struct, more just in function arguments and such.
#[derive(Debug, Clone, Copy)]
pub struct Align8<T>(pub T);

impl<T: Zeroable> Zeroable for Align8<T> {
    open spec fn size() -> nat {
        T::size()
    }

    open spec fn image(&self) -> Seq<u8> {
        self.0.image()
    }

    fn zeroed() -> (r: Self) {
        Align8(T::zeroed())
    }
}

impl<T: Pod> Pod for Align8<T> {
    proof fn lemma_image_size(x: Self) {
        T::lemma_image_size(x.0);
    }

    proof fn lemma_image_injective(x: Self, y: Self) {
        T::lemma_image_injective(x.0, y.0);
    }

    fn size_of() -> (r: usize) {
        T::size_of()
    }

    fn to_image(&self) -> (r: Vec<u8>) {
        self.0.to_image()
    }

    fn from_image(bytes: &[u8]) -> (r: Self) {
        Align8(T::from_image(bytes))
    }
}

/// Wrap the inner value for an alignment of 16.
///
/// This is for alignment shenanigans, you're not expected to use it in a
/// struct, more just in function arguments and such.
#[derive(Debug, Clone, Copy)]
pub struct Align16<T>(pub T);

impl<T: Zeroable> Zeroable for Align16<T> {
    open spec fn size() -> nat {
        T::size()
    }

    open spec fn image(&self) -> Seq<u8> {
        self.0.image()
    }

    fn zeroed() -> (r: Self) {
        Align16(T::zeroed())
    }
}

impl<T: Pod> Pod for Align16<T> {
    proof fn lemma_image_size(x: Self) {
        T::lemma_image_size(x.0);
    }

    proof fn lemma_image_injective(x: Self, y: Self) {
        T::lemma_image_injective(x.0, y.0);
    }

    fn size_of() -> (r: usize) {
        T::size_of()
    }

    fn to_image(&self) -> (r: Vec<u8>) {
        self.0.to_image()
    }

    fn from_image(bytes: &[u8]) -> (r: Self) {
        Align16(T::from_image(bytes))
    }
}

/// Wrap the inner value for an alignment of 32.
///
/// This is for alignment shenanigans, you're not expected to use it in a
/// struct, more just in function arguments and such.
#[derive(Debug, Clone, Copy)]
pub struct Align32<T>(pub T);

impl<T: Zeroable> Zeroable for Align32<T> {
    open spec fn size() -> nat {
        T::size()
    }

    open spec fn image(&self) -> Seq<u8> {
        self.0.image()
    }

    fn zeroed() -> (r: Self) {
        Align32(T::zeroed())
    }
}

impl<T: Pod> Pod for Align32<T> {
    proof fn lemma_image_size(x: Self) {
        T::lemma_image_size(x.0);
    }

    proof fn lemma_image_injective(x: Self, y: Self) {
        T::lemma_image_injective(x.0, y.0);
    }

    fn size_of() -> (r: usize) {
        T::size_of()
    }

    fn to_image(&self) -> (r: Vec<u8>) {
        self.0.to_image()
    }

    fn from_image(bytes: &[u8]) -> (r: Self) {
        Align32(T::from_image(bytes))
    }
}

} // verus!
