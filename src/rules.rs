//! The rules that decide whether a cast between plain-old-data forms is
//! allowed, stated over plain numbers: element sizes, alignments, an address
//! and an element count.

use vstd::prelude::*;

verus! {

/// The things that can go wrong when casting between [`Pod`](crate::Pod) data forms.
#[derive(Debug, Clone, Copy, PartialEq, Eq, Structural)]
pub enum PodCastError {
    /// You tried to cast a slice to an element type with a higher alignment
    /// requirement but the slice wasn't aligned.
    TargetAlignmentGreaterAndInputNotAligned,
    /// You tried to cast between a zero-sized type and a non-zero-sized type.
    /// Because the output slice resizes based on the input and output types,
    /// it's fairly nonsensical to throw a ZST into the mix. You can go from a
    /// ZST to another ZST, if you want.
    CantConvertBetweenZSTAndNonZST,
    /// If the element size changes then the output slice changes length
    /// accordingly. If the output slice wouldn't be a whole number of elements
    /// then the conversion fails.
    OutputSliceWouldHaveSlop,
    /// When casting an individual `T`, `&T`, or `&mut T` value the source size
    /// and destination size must be an exact match.
    SizeMismatch,
}

/// True when a view of type-`B` data at `addr` could be misaligned: `B` asks
/// for more alignment than the source type already guarantees, and `addr` is
/// not a multiple of it.
pub open spec fn misaligned(addr: nat, align_a: nat, align_b: nat) -> bool {
    align_b > align_a && addr % align_b != 0
}

/// What casting a single value of size `size_a` into one of size `size_b`
/// yields.
pub open spec fn value_cast_outcome(size_a: nat, size_b: nat) -> Result<(), PodCastError> {
    if size_a == size_b {
        Ok(())
    } else {
        Err(PodCastError::SizeMismatch)
    }
}

/// What viewing the value at `addr` (of size `size_a`, alignment `align_a`)
/// as a value of size `size_b` and alignment `align_b` yields: alignment is
/// checked first, then size.
pub open spec fn ref_cast_outcome(
    addr: nat,
    size_a: nat,
    align_a: nat,
    size_b: nat,
    align_b: nat,
) -> Result<(), PodCastError> {
    if misaligned(addr, align_a, align_b) {
        Err(PodCastError::TargetAlignmentGreaterAndInputNotAligned)
    } else {
        value_cast_outcome(size_a, size_b)
    }
}

/// What viewing `len` elements of size `size_a` as elements of size `size_b`
/// yields when alignment is not in question: the new element count, or why
/// there is none.
pub open spec fn resize_outcome(len: nat, size_a: nat, size_b: nat) -> Result<nat, PodCastError> {
    if size_a == size_b {
        Ok(len)
    } else if size_a == 0 || size_b == 0 {
        Err(PodCastError::CantConvertBetweenZSTAndNonZST)
    } else if (len * size_a) % size_b == 0 {
        Ok((len * size_a) / size_b)
    } else {
        Err(PodCastError::OutputSliceWouldHaveSlop)
    }
}

/// What viewing a slice of `len` elements starting at `addr` (element size
/// `size_a`, alignment `align_a`) as a slice of elements of size `size_b`
/// and alignment `align_b` yields: the new element count, or the first rule
/// that fails, in the order alignment, equal sizes, zero sizes, slop.
pub open spec fn slice_cast_outcome(
    addr: nat,
    len: nat,
    size_a: nat,
    align_a: nat,
    size_b: nat,
    align_b: nat,
) -> Result<nat, PodCastError> {
    if misaligned(addr, align_a, align_b) {
        Err(PodCastError::TargetAlignmentGreaterAndInputNotAligned)
    } else {
        resize_outcome(len, size_a, size_b)
    }
}

/// Decides a single-value cast from a value of `size_a` bytes into one of
/// `size_b` bytes.
pub fn check_value_cast(size_a: usize, size_b: usize) -> (r: Result<(), PodCastError>)
    ensures
        r == value_cast_outcome(size_a as nat, size_b as nat),
{
    if size_a == size_b {
        Ok(())
    } else {
        Err(PodCastError::SizeMismatch)
    }
}

fn is_misaligned(addr: usize, align_a: usize, align_b: usize) -> (r: bool)
    ensures
        r == misaligned(addr as nat, align_a as nat, align_b as nat),
{
    align_b > align_a && addr % align_b != 0
}

/// Decides a reference cast: the referenced value sits at `addr`.
pub fn check_ref_cast(
    addr: usize,
    size_a: usize,
    align_a: usize,
    size_b: usize,
    align_b: usize,
) -> (r: Result<(), PodCastError>)
    ensures
        r == ref_cast_outcome(addr as nat, size_a as nat, align_a as nat, size_b as nat, align_b as nat),
{
    if is_misaligned(addr, align_a, align_b) {
        Err(PodCastError::TargetAlignmentGreaterAndInputNotAligned)
    } else {
        check_value_cast(size_a, size_b)
    }
}

/// Decides how `len` elements of `size_a` bytes are re-partitioned into
/// elements of `size_b` bytes, alignment aside; `len * size_a` is the byte
/// length of the data, so it fits in a `usize`.
pub fn check_resize(len: usize, size_a: usize, size_b: usize) -> (r: Result<usize, PodCastError>)
    requires
        len * size_a <= usize::MAX,
    ensures
        match (r, resize_outcome(len as nat, size_a as nat, size_b as nat)) {
            (Ok(n), Ok(m)) => n as nat == m,
            (Err(e), Err(f)) => e == f,
            _ => false,
        },
{
    if size_a == size_b {
        Ok(len)
    } else if size_a == 0 || size_b == 0 {
        Err(PodCastError::CantConvertBetweenZSTAndNonZST)
    } else {
        let total = len * size_a;
        if total % size_b == 0 {
            Ok(total / size_b)
        } else {
            Err(PodCastError::OutputSliceWouldHaveSlop)
        }
    }
}

/// Decides a slice cast: the slice starts at `addr` and holds `len` elements
/// of `size_a` bytes each.
pub fn check_slice_cast(
    addr: usize,
    len: usize,
    size_a: usize,
    align_a: usize,
    size_b: usize,
    align_b: usize,
) -> (r: Result<usize, PodCastError>)
    requires
        len * size_a <= usize::MAX,
    ensures
        match (r, slice_cast_outcome(addr as nat, len as nat, size_a as nat, align_a as nat, size_b as nat, align_b as nat)) {
            (Ok(n), Ok(m)) => n as nat == m,
            (Err(e), Err(f)) => e == f,
            _ => false,
        },
{
    if is_misaligned(addr, align_a, align_b) {
        Err(PodCastError::TargetAlignmentGreaterAndInputNotAligned)
    } else {
        check_resize(len, size_a, size_b)
    }
}

/// Casting a slice between element types of one size keeps the element
/// count, and nothing but alignment can make it fail.
pub proof fn lemma_same_size_keeps_len(
    addr: nat,
    len: nat,
    size_a: nat,
    align_a: nat,
    size_b: nat,
    align_b: nat,
)
    requires
        size_a == size_b,
        !misaligned(addr, align_a, align_b),
    ensures
        slice_cast_outcome(addr, len, size_a, align_a, size_b, align_b) == Ok::<
            nat,
            PodCastError,
        >(len),
{
}

/// A slice of non-zero-sized elements whose byte length is not a whole
/// number of target elements gives the slop error, never a shorter slice,
/// once alignment is satisfied.
pub proof fn lemma_slop_is_refused(
    addr: nat,
    len: nat,
    size_a: nat,
    align_a: nat,
    size_b: nat,
    align_b: nat,
)
    requires
        size_a > 0,
        size_b > 0,
        (len * size_a) % size_b != 0,
        !misaligned(addr, align_a, align_b),
    ensures
        slice_cast_outcome(addr, len, size_a, align_a, size_b, align_b) == Err::<
            nat,
            PodCastError,
        >(PodCastError::OutputSliceWouldHaveSlop),
{
    if size_a == size_b {
        vstd::arithmetic::div_mod::lemma_mod_multiples_basic(len as int, size_a as int);
    }
}

/// Casting between a zero-sized and a non-zero-sized element type gives the
/// ZST error for every slice length, the empty slice too, once alignment is
/// satisfied.
pub proof fn lemma_zst_mix_is_refused(
    addr: nat,
    len: nat,
    size_a: nat,
    align_a: nat,
    size_b: nat,
    align_b: nat,
)
    requires
        (size_a == 0) != (size_b == 0),
        !misaligned(addr, align_a, align_b),
    ensures
        slice_cast_outcome(addr, len, size_a, align_a, size_b, align_b) == Err::<
            nat,
            PodCastError,
        >(PodCastError::CantConvertBetweenZSTAndNonZST),
{
}

/// Alignment is checked first: a misaligned slice cast reports the alignment
/// error whatever the sizes would have given.
pub proof fn lemma_slice_alignment_first(
    addr: nat,
    len: nat,
    size_a: nat,
    align_a: nat,
    size_b: nat,
    align_b: nat,
)
    requires
        misaligned(addr, align_a, align_b),
    ensures
        slice_cast_outcome(addr, len, size_a, align_a, size_b, align_b) == Err::<
            nat,
            PodCastError,
        >(PodCastError::TargetAlignmentGreaterAndInputNotAligned),
{
}

/// Alignment is checked first: a misaligned reference cast reports the
/// alignment error, even where the sizes differ as well.
pub proof fn lemma_ref_alignment_first(
    addr: nat,
    size_a: nat,
    align_a: nat,
    size_b: nat,
    align_b: nat,
)
    requires
        misaligned(addr, align_a, align_b),
    ensures
        ref_cast_outcome(addr, size_a, align_a, size_b, align_b) == Err::<(), PodCastError>(
            PodCastError::TargetAlignmentGreaterAndInputNotAligned,
        ),
{
}

/// A successful slice cast re-partitions exactly the source's bytes:
/// `new_len * size_b == len * size_a`.
pub proof fn lemma_resize_keeps_bytes(len: nat, size_a: nat, size_b: nat, n: nat)
    requires
        resize_outcome(len, size_a, size_b) == Ok::<nat, PodCastError>(n),
    ensures
        n * size_b == len * size_a,
{
    if size_a != size_b {
        let total = len * size_a;
        assert(n * size_b == total) by (nonlinear_arith)
            requires
                total % size_b == 0,
                n == total / size_b,
                size_b > 0,
        ;
    }
}

} // verus!
