//! The `f32x4` register type and the exception flag set of the SSE control
//! register.

use crate::image::le_bytes;
use crate::marker::{Pod, Zeroable};
use vstd::prelude::*;

verus! {

/// A 128-bit SIMD value. Always used as `f32x4`: lane `i` is bits
/// `32 * i .. 32 * i + 32`.
#[allow(non_camel_case_types)]
#[derive(Clone, Copy)]
pub struct m128(pub u128);

impl Zeroable for m128 {
    open spec fn size() -> nat {
        16
    }

    open spec fn image(&self) -> Seq<u8> {
        le_bytes(self.0 as nat, 16)
    }

    fn zeroed() -> (r: Self) {
        m128(u128::zeroed())
    }
}

impl Pod for m128 {
    proof fn lemma_image_size(x: Self) {
        u128::lemma_image_size(x.0);
    }

    proof fn lemma_image_injective(x: Self, y: Self) {
        u128::lemma_image_injective(x.0, y.0);
    }

    fn size_of() -> (r: usize) {
        u128::size_of()
    }

    fn to_image(&self) -> (r: Vec<u8>) {
        self.0.to_image()
    }

    fn from_image(bytes: &[u8]) -> (r: Self) {
        m128(u128::from_image(bytes))
    }
}

/// The mask bit of the invalid-operation exception.
pub const MASK_INVALID: u32 = 0x0080;

/// The mask bit of the denormal-operand exception.
pub const MASK_DENORM: u32 = 0x0100;

/// The mask bit of the divide-by-zero exception.
pub const MASK_DIV_ZERO: u32 = 0x0200;

/// The mask bit of the overflow exception.
pub const MASK_OVERFLOW: u32 = 0x0400;

/// The mask bit of the underflow exception.
pub const MASK_UNDERFLOW: u32 = 0x0800;

/// The mask bit of the inexact-result (precision) exception.
pub const MASK_INEXACT: u32 = 0x1000;

/// All the exception mask bits together: the bits an [`ExceptionMask`] may
/// hold.
pub const MASK_ALL: u32 = 0x1F80;

/// True of the six exception mask bits.
pub open spec fn is_mask_bit(flag: u32) -> bool {
    flag == MASK_INVALID || flag == MASK_DENORM || flag == MASK_DIV_ZERO || flag == MASK_OVERFLOW
        || flag == MASK_UNDERFLOW || flag == MASK_INEXACT
}

/// `bits` with `flag` set when `on`, cleared otherwise, by a branch-free
/// merge: the bits of `flag` are taken from an all-ones or all-zeros word.
fn with_flag(bits: u32, flag: u32, on: bool) -> (r: u32)
    ensures
        r == if on {
            bits | flag
        } else {
            bits & !flag
        },
{
    let fill: u32 = if on {
        0xFFFF_FFFF
    } else {
        0
    };
    let r = bits ^ ((fill ^ bits) & flag);
    assert(fill == 0xFFFF_FFFF ==> bits ^ ((fill ^ bits) & flag) == bits | flag) by (bit_vector);
    assert(fill == 0 ==> bits ^ ((fill ^ bits) & flag) == bits & !flag) by (bit_vector);
    r
}

/// A bit set of the SSE exception masks, in their places in the control
/// register ([`MASK_INVALID`] and the others): a set bit masks that
/// exception. Only the bits of [`MASK_ALL`] can be set.
#[derive(Debug, Clone, Copy, PartialEq, Eq, Structural)]
pub struct ExceptionMask(u32);

impl View for ExceptionMask {
    type V = u32;

    closed spec fn view(&self) -> u32 {
        self.0
    }
}

impl Default for ExceptionMask {
    /// No exception masked.
    fn default() -> (r: Self)
        ensures
            r@ == 0,
            r.wf(),
    {
        proof {
            assert(0u32 & !0x1F80u32 == 0) by (bit_vector);
        }
        ExceptionMask(0)
    }
}

impl ExceptionMask {
    /// Only exception flag bits are set.
    pub open spec fn wf(self) -> bool {
        self@ & !MASK_ALL == 0
    }

    /// The raw `u32` mask value.
    pub fn to_raw(self) -> (r: u32)
        ensures
            r == self@,
    {
        self.0
    }

    /// Turns a raw `u32` value into an exception mask without any checks; it
    /// must hold no bit outside [`MASK_ALL`].
    pub fn from_raw_unchecked(val: u32) -> (r: Self)
        requires
            val & !MASK_ALL == 0,
        ensures
            r@ == val,
            r.wf(),
    {
        Self(val)
    }

    /// Check the [`MASK_INVALID`] bit.
    pub fn invalid(self) -> (r: bool)
        ensures
            r == (self@ & MASK_INVALID != 0),
    {
        (self.0 & MASK_INVALID) > 0
    }

    /// Set the [`MASK_INVALID`] bit.
    pub fn set_invalid(&mut self, invalid: bool)
        requires
            old(self).wf(),
        ensures
            final(self).wf(),
            final(self)@ == if invalid {
                old(self)@ | MASK_INVALID
            } else {
                old(self)@ & !MASK_INVALID
            },
    {
        let v = with_flag(self.0, MASK_INVALID, invalid);
        self.0 = v;
        proof {
            lemma_flag_keeps_wf(old(self)@, MASK_INVALID, invalid);
        }
    }

    /// Check the [`MASK_DENORM`] bit.
    pub fn denorm(self) -> (r: bool)
        ensures
            r == (self@ & MASK_DENORM != 0),
    {
        (self.0 & MASK_DENORM) > 0
    }

    /// Set the [`MASK_DENORM`] bit.
    pub fn set_denorm(&mut self, denorm: bool)
        requires
            old(self).wf(),
        ensures
            final(self).wf(),
            final(self)@ == if denorm {
                old(self)@ | MASK_DENORM
            } else {
                old(self)@ & !MASK_DENORM
            },
    {
        let v = with_flag(self.0, MASK_DENORM, denorm);
        self.0 = v;
        proof {
            lemma_flag_keeps_wf(old(self)@, MASK_DENORM, denorm);
        }
    }

    /// Check the [`MASK_DIV_ZERO`] bit.
    pub fn div_zero(self) -> (r: bool)
        ensures
            r == (self@ & MASK_DIV_ZERO != 0),
    {
        (self.0 & MASK_DIV_ZERO) > 0
    }

    /// Set the [`MASK_DIV_ZERO`] bit.
    pub fn set_div_zero(&mut self, div_zero: bool)
        requires
            old(self).wf(),
        ensures
            final(self).wf(),
            final(self)@ == if div_zero {
                old(self)@ | MASK_DIV_ZERO
            } else {
                old(self)@ & !MASK_DIV_ZERO
            },
    {
        let v = with_flag(self.0, MASK_DIV_ZERO, div_zero);
        self.0 = v;
        proof {
            lemma_flag_keeps_wf(old(self)@, MASK_DIV_ZERO, div_zero);
        }
    }

    /// Check the [`MASK_OVERFLOW`] bit.
    pub fn overflow(self) -> (r: bool)
        ensures
            r == (self@ & MASK_OVERFLOW != 0),
    {
        (self.0 & MASK_OVERFLOW) > 0
    }

    /// Set the [`MASK_OVERFLOW`] bit.
    pub fn set_overflow(&mut self, overflow: bool)
        requires
            old(self).wf(),
        ensures
            final(self).wf(),
            final(self)@ == if overflow {
                old(self)@ | MASK_OVERFLOW
            } else {
                old(self)@ & !MASK_OVERFLOW
            },
    {
        let v = with_flag(self.0, MASK_OVERFLOW, overflow);
        self.0 = v;
        proof {
            lemma_flag_keeps_wf(old(self)@, MASK_OVERFLOW, overflow);
        }
    }

    /// Check the [`MASK_UNDERFLOW`] bit.
    pub fn underflow(self) -> (r: bool)
        ensures
            r == (self@ & MASK_UNDERFLOW != 0),
    {
        (self.0 & MASK_UNDERFLOW) > 0
    }

    /// Set the [`MASK_UNDERFLOW`] bit.
    pub fn set_underflow(&mut self, underflow: bool)
        requires
            old(self).wf(),
        ensures
            final(self).wf(),
            final(self)@ == if underflow {
                old(self)@ | MASK_UNDERFLOW
            } else {
                old(self)@ & !MASK_UNDERFLOW
            },
    {
        let v = with_flag(self.0, MASK_UNDERFLOW, underflow);
        self.0 = v;
        proof {
            lemma_flag_keeps_wf(old(self)@, MASK_UNDERFLOW, underflow);
        }
    }

    /// Check the [`MASK_INEXACT`] bit.
    pub fn inexact(self) -> (r: bool)
        ensures
            r == (self@ & MASK_INEXACT != 0),
    {
        (self.0 & MASK_INEXACT) > 0
    }

    /// Set the [`MASK_INEXACT`] bit.
    pub fn set_inexact(&mut self, inexact: bool)
        requires
            old(self).wf(),
        ensures
            final(self).wf(),
            final(self)@ == if inexact {
                old(self)@ | MASK_INEXACT
            } else {
                old(self)@ & !MASK_INEXACT
            },
    {
        let v = with_flag(self.0, MASK_INEXACT, inexact);
        self.0 = v;
        proof {
            lemma_flag_keeps_wf(old(self)@, MASK_INEXACT, inexact);
        }
    }
}

/// Setting or clearing one exception mask bit keeps a mask free of other
/// bits.
proof fn lemma_flag_keeps_wf(bits: u32, flag: u32, on: bool)
    requires
        bits & !MASK_ALL == 0,
        is_mask_bit(flag),
    ensures
        (if on {
            bits | flag
        } else {
            bits & !flag
        }) & !MASK_ALL == 0,
{
    assert(bits & !0x1F80u32 == 0 && (flag == 0x80u32 || flag == 0x100u32 || flag == 0x200u32
        || flag == 0x400u32 || flag == 0x800u32 || flag == 0x1000u32) ==> (bits | flag)
        & !0x1F80u32 == 0) by (bit_vector);
    assert(bits & !0x1F80u32 == 0 ==> (bits & !flag) & !0x1F80u32 == 0) by (bit_vector);
}

} // verus!
