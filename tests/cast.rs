use lokacore::rules::{
    check_ref_cast, check_resize, check_slice_cast, check_value_cast,
};
use lokacore::{
    bytes_of, bytes_of_mut, cast, cast_mut, cast_ref, cast_slice, cast_slice_mut, try_cast,
    try_cast_mut, try_cast_ref, try_cast_slice, try_cast_slice_mut, Align16, Align4, Pod,
    PodCastError, Zeroable,
};

#[test]
fn zeroed_bytes_are_all_zero() {
    let z: [u32; 4] = Zeroable::zeroed();
    assert_eq!(bytes_of(&z), vec![0u8; 16]);
    let z: u64 = Zeroable::zeroed();
    assert_eq!(bytes_of(&z), vec![0u8; 8]);
    let z: i128 = Zeroable::zeroed();
    assert_eq!(bytes_of(&z), vec![0u8; 16]);
    let z: Align16<[u16; 8]> = Zeroable::zeroed();
    assert_eq!(bytes_of(&z), vec![0u8; 16]);
    let z: () = Zeroable::zeroed();
    assert_eq!(bytes_of(&z), Vec::<u8>::new());
}

#[test]
fn zeroed_without_pod() {
    let b: bool = Zeroable::zeroed();
    assert!(!b);
    let c: char = Zeroable::zeroed();
    assert_eq!(c, '\0');
    let flags: [bool; 3] = Zeroable::zeroed();
    assert_eq!(flags, [false; 3]);
}

#[test]
fn bytes_are_little_endian() {
    assert_eq!(bytes_of(&0x0102_0304u32), vec![4, 3, 2, 1]);
    assert_eq!(bytes_of(&-2i16), vec![0xFE, 0xFF]);
    assert_eq!(bytes_of(&[1u16, 0x0203]), vec![1, 0, 3, 2]);
    assert_eq!(bytes_of(&usize::MAX).len(), core::mem::size_of::<usize>());
}

#[test]
fn sizes_match_the_compiler() {
    assert_eq!(u8::size_of(), core::mem::size_of::<u8>());
    assert_eq!(i64::size_of(), core::mem::size_of::<i64>());
    assert_eq!(u128::size_of(), core::mem::size_of::<u128>());
    assert_eq!(isize::size_of(), core::mem::size_of::<isize>());
    assert_eq!(<[u16; 5]>::size_of(), 10);
    assert_eq!(<[[u8; 3]; 4]>::size_of(), 12);
    assert_eq!(<()>::size_of(), 0);
}

#[test]
fn cast_keeps_the_bytes() {
    let a = 0xDEAD_BEEFu32;
    let b: [u8; 4] = cast(a);
    assert_eq!(bytes_of(&b), bytes_of(&a));
    assert_eq!(b, [0xEF, 0xBE, 0xAD, 0xDE]);
    let c: i32 = cast(a);
    assert_eq!(c, 0xDEAD_BEEFu32 as i32);
    let back: u32 = cast(b);
    assert_eq!(back, a);
}

#[test]
fn try_cast_size_mismatch() {
    assert_eq!(try_cast::<u32, u64>(5u32), Err(PodCastError::SizeMismatch));
    assert_eq!(try_cast::<u32, i32>(5u32), Ok(5i32));
    assert_eq!(try_cast::<u8, ()>(1u8), Err(PodCastError::SizeMismatch));
    assert_eq!(try_cast::<(), ()>(()), Ok(()));
}

#[test]
fn try_cast_signed_bits() {
    assert_eq!(try_cast::<i8, u8>(-1i8), Ok(255u8));
    assert_eq!(try_cast::<u64, i64>(u64::MAX), Ok(-1i64));
    assert_eq!(try_cast::<[i16; 2], u32>([-1i16, 1]), Ok(0x0001_FFFFu32));
}

#[test]
fn try_cast_ref_checks() {
    let x = 7u32;
    assert_eq!(try_cast_ref::<u32, i32>(&x), Ok(7i32));
    assert_eq!(try_cast_ref::<u32, [u8; 4]>(&x), Ok([7, 0, 0, 0]));
    assert_eq!(try_cast_ref::<u32, u16>(&x), Err(PodCastError::SizeMismatch));
    let y: [u8; 4] = cast_ref::<u32, [u8; 4]>(&x);
    assert_eq!(y, [7, 0, 0, 0]);
}

#[test]
fn misaligned_ref_reports_alignment_first() {
    let v: Vec<u32> = vec![0; 4];
    let bytes: Vec<u8> = vec![0; 16];
    let base = bytes.as_ptr() as usize;
    let start = if base % 4 == 0 { 1 } else { 0 };
    let odd: &[u8; 8] = <&[u8; 8]>::try_from(&bytes[start..start + 8]).unwrap();
    // Sizes differ too (8 against 4), yet the alignment error comes first.
    assert_eq!(
        try_cast_ref::<[u8; 8], u32>(odd),
        Err(PodCastError::TargetAlignmentGreaterAndInputNotAligned)
    );
    // Only a size error is left where the target asks for no more alignment.
    assert_eq!(try_cast_ref::<u32, u16>(&v[1]), Err(PodCastError::SizeMismatch));
}

#[test]
fn misaligned_slice_reports_alignment_first() {
    let bytes: Vec<u8> = vec![0; 16];
    let base = bytes.as_ptr() as usize;
    let start = if base % 4 == 0 { 1 } else { 0 };
    // Three bytes would also leave slop for `u32`.
    assert_eq!(
        try_cast_slice::<u8, u32>(&bytes[start..start + 3]),
        Err(PodCastError::TargetAlignmentGreaterAndInputNotAligned)
    );
}

#[test]
fn same_size_slice_keeps_len() {
    let s = [1u32, 2, 3, 0xFFFF_FFFF];
    let t: Vec<i32> = cast_slice(&s);
    assert_eq!(t.len(), s.len());
    assert_eq!(t, vec![1, 2, 3, -1]);
    assert_eq!(try_cast_slice::<u32, i32>(&[]), Ok(Vec::new()));
}

#[test]
fn u16_slice_to_u32_has_slop() {
    let s: Vec<u16> = vec![1, 2, 3];
    assert_eq!(
        try_cast_slice::<u16, u32>(&s),
        Err(PodCastError::OutputSliceWouldHaveSlop)
    );
}

#[test]
fn u16_slice_to_u8_doubles_len() {
    let s: Vec<u16> = vec![1, 2, 3];
    let b = try_cast_slice::<u16, u8>(&s).unwrap();
    assert_eq!(b.len(), 6);
    assert_eq!(b, vec![1, 0, 2, 0, 3, 0]);
}

#[test]
fn slop_is_never_truncated() {
    let s = [1u32, 2, 3];
    assert_eq!(
        try_cast_slice::<u32, [u8; 8]>(&s),
        Err(PodCastError::OutputSliceWouldHaveSlop)
    );
    let s = [1u8, 2, 3, 4, 5];
    assert_eq!(
        try_cast_slice::<u8, [u8; 2]>(&s),
        Err(PodCastError::OutputSliceWouldHaveSlop)
    );
}

#[test]
fn slice_regrouped_into_bigger_elements() {
    let s = [1u8, 2, 3, 4, 5, 6];
    let t: Vec<[u8; 3]> = cast_slice(&s);
    assert_eq!(t, vec![[1, 2, 3], [4, 5, 6]]);
}

#[test]
fn zst_mix_is_refused() {
    let units = [(), ()];
    assert_eq!(
        try_cast_slice::<(), u8>(&units),
        Err(PodCastError::CantConvertBetweenZSTAndNonZST)
    );
    let none: [(); 0] = [];
    assert_eq!(
        try_cast_slice::<(), u8>(&none),
        Err(PodCastError::CantConvertBetweenZSTAndNonZST)
    );
    assert_eq!(
        try_cast_slice::<u8, ()>(&[1u8, 2]),
        Err(PodCastError::CantConvertBetweenZSTAndNonZST)
    );
    assert_eq!(
        try_cast_slice::<u8, ()>(&[]),
        Err(PodCastError::CantConvertBetweenZSTAndNonZST)
    );
    assert_eq!(try_cast_slice::<(), ()>(&units), Ok(vec![(), ()]));
}

#[test]
fn bytes_of_mut_writes_back() {
    let mut x = 0u32;
    bytes_of_mut(&mut x, |mut b| {
        b[0] = 1;
        b[3] = 2;
        b
    });
    assert_eq!(x, 0x0200_0001);
}

#[test]
fn try_cast_mut_writes_back() {
    let mut x = 5u32;
    let r = try_cast_mut::<u32, [u16; 2], _>(&mut x, |mut h| {
        h[1] = 1;
        h
    });
    assert_eq!(r, Ok(()));
    assert_eq!(x, 0x0001_0005);
    let r = try_cast_mut::<u32, u64, _>(&mut x, |_| 9);
    assert_eq!(r, Err(PodCastError::SizeMismatch));
    assert_eq!(x, 0x0001_0005);
    cast_mut::<u32, i32, _>(&mut x, |v| v - 0x0001_0006);
    assert_eq!(x, 0xFFFF_FFFF);
}

#[test]
fn try_cast_slice_mut_writes_back() {
    let mut s = [0u16; 4];
    let r = try_cast_slice_mut::<u16, u8, _>(&mut s, |mut b| {
        b[1] = 1;
        b[6] = 7;
        b
    });
    assert_eq!(r, Ok(()));
    assert_eq!(s, [0x0100, 0, 0, 7]);
    let mut t = [1u8, 2, 3];
    let r = try_cast_slice_mut::<u8, [u8; 2], _>(&mut t, |v| v);
    assert_eq!(r, Err(PodCastError::OutputSliceWouldHaveSlop));
    assert_eq!(t, [1, 2, 3]);
    let mut w = [1u32, 2];
    cast_slice_mut::<u32, [u8; 4], _>(&mut w, |mut v| {
        v.swap(0, 1);
        v
    });
    assert_eq!(w, [2, 1]);
}

#[test]
fn align_wrappers_hold_their_value() {
    let a = Align4([1u8, 2, 3, 4]);
    let x: u32 = cast(a);
    assert_eq!(x, 0x0403_0201);
    let b: Align4<[u8; 4]> = cast(x);
    assert_eq!(b.0, [1, 2, 3, 4]);
}

#[test]
fn check_value_cast_values() {
    assert_eq!(check_value_cast(4, 4), Ok(()));
    assert_eq!(check_value_cast(4, 8), Err(PodCastError::SizeMismatch));
}

#[test]
fn check_ref_cast_values() {
    assert_eq!(check_ref_cast(6, 4, 2, 4, 4), Err(PodCastError::TargetAlignmentGreaterAndInputNotAligned));
    assert_eq!(check_ref_cast(8, 4, 2, 4, 4), Ok(()));
    assert_eq!(check_ref_cast(6, 4, 4, 4, 2), Ok(()));
    assert_eq!(check_ref_cast(6, 8, 2, 4, 4), Err(PodCastError::TargetAlignmentGreaterAndInputNotAligned));
    assert_eq!(check_ref_cast(8, 8, 2, 4, 4), Err(PodCastError::SizeMismatch));
}

#[test]
fn check_slice_cast_values() {
    assert_eq!(check_slice_cast(0, 3, 2, 2, 4, 4), Err(PodCastError::OutputSliceWouldHaveSlop));
    assert_eq!(check_slice_cast(0, 3, 2, 2, 1, 1), Ok(6));
    assert_eq!(check_slice_cast(2, 3, 2, 2, 4, 4), Err(PodCastError::TargetAlignmentGreaterAndInputNotAligned));
    assert_eq!(check_slice_cast(2, 4, 2, 2, 4, 4), Err(PodCastError::TargetAlignmentGreaterAndInputNotAligned));
    assert_eq!(check_slice_cast(4, 4, 2, 2, 4, 4), Ok(2));
    assert_eq!(check_slice_cast(1, 0, 0, 1, 4, 4), Err(PodCastError::TargetAlignmentGreaterAndInputNotAligned));
    assert_eq!(check_slice_cast(4, 0, 0, 1, 4, 4), Err(PodCastError::CantConvertBetweenZSTAndNonZST));
    assert_eq!(check_slice_cast(4, 7, 0, 1, 0, 1), Ok(7));
}

#[test]
fn check_resize_values() {
    assert_eq!(check_resize(5, 4, 4), Ok(5));
    assert_eq!(check_resize(0, 0, 2), Err(PodCastError::CantConvertBetweenZSTAndNonZST));
    assert_eq!(check_resize(6, 2, 3), Ok(4));
    assert_eq!(check_resize(5, 2, 3), Err(PodCastError::OutputSliceWouldHaveSlop));
    assert_eq!(check_resize(usize::MAX, 1, 1), Ok(usize::MAX));
}
