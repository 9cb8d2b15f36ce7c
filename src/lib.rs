//! Core-only odds and ends: plain-old-data casting, and plain-value models of
//! the x86 SIMD register types.

pub mod align;
pub mod arch;
pub mod cast;
pub mod image;
pub mod marker;
pub mod rules;

pub use align::{Align16, Align2, Align32, Align4, Align8};
pub use cast::{
    bytes_of, bytes_of_mut, cast, cast_mut, cast_ref, cast_slice, cast_slice_mut, try_cast,
    try_cast_mut, try_cast_ref, try_cast_slice, try_cast_slice_mut,
};
pub use marker::{Pod, Zeroable};
pub use rules::PodCastError;
