use lokacore::arch::sse::{
    MASK_ALL, MASK_DENORM, MASK_DIV_ZERO, MASK_INEXACT, MASK_INVALID, MASK_OVERFLOW,
    MASK_UNDERFLOW,
};
use lokacore::arch::{m128, m128d, m128i, ExceptionMask};
use lokacore::{bytes_of, cast, try_cast};

#[test]
fn exception_mask_flags() {
    let mut m = ExceptionMask::from_raw_unchecked(0);
    assert!(!m.invalid());
    m.set_invalid(true);
    assert!(m.invalid());
    assert_eq!(m.to_raw(), 0x0080);
    m.set_denorm(true);
    m.set_div_zero(true);
    m.set_overflow(true);
    m.set_underflow(true);
    m.set_inexact(true);
    assert_eq!(m.to_raw(), MASK_ALL);
    assert_eq!(MASK_ALL, 0x1F80);
    assert!(m.denorm() && m.div_zero() && m.overflow() && m.underflow() && m.inexact());
    m.set_overflow(false);
    assert!(!m.overflow());
    assert_eq!(m.to_raw(), MASK_ALL & !MASK_OVERFLOW);
    m.set_invalid(false);
    m.set_inexact(false);
    assert_eq!(m.to_raw(), MASK_DENORM | MASK_DIV_ZERO | MASK_UNDERFLOW);
    m.set_underflow(true);
    assert_eq!(m.to_raw(), MASK_DENORM | MASK_DIV_ZERO | MASK_UNDERFLOW);
    m.set_denorm(false);
    m.set_div_zero(false);
    m.set_underflow(false);
    assert_eq!(m, ExceptionMask::default());
}

#[test]
#[allow(non_snake_case)]
fn ExceptionMask_methods() {
    let mut mask = ExceptionMask::from_raw_unchecked(0);
    //
    assert!(!mask.invalid());
    mask.set_invalid(true);
    assert!(mask.invalid());
    //
    assert!(!mask.denorm());
    mask.set_denorm(true);
    assert!(mask.denorm());
    //
    assert!(!mask.div_zero());
    mask.set_div_zero(true);
    assert!(mask.div_zero());
    //
    assert!(!mask.overflow());
    mask.set_overflow(true);
    assert!(mask.overflow());
    //
    assert!(!mask.underflow());
    mask.set_underflow(true);
    assert!(mask.underflow());
    //
    assert!(!mask.inexact());
    mask.set_inexact(true);
    assert!(mask.inexact());
    //
    let e = ExceptionMask::default();
    assert_eq!(e.to_raw(), 0);
    //
    let mut e = ExceptionMask::default();
    e.set_invalid(true);
    assert_eq!(e.to_raw(), MASK_INVALID);
    //
    let mut e = ExceptionMask::default();
    e.set_denorm(true);
    assert_eq!(e.to_raw(), MASK_DENORM);
    //
    let mut e = ExceptionMask::default();
    e.set_div_zero(true);
    assert_eq!(e.to_raw(), MASK_DIV_ZERO);
    //
    let mut e = ExceptionMask::default();
    e.set_overflow(true);
    assert_eq!(e.to_raw(), MASK_OVERFLOW);
    //
    let mut e = ExceptionMask::default();
    e.set_underflow(true);
    assert_eq!(e.to_raw(), MASK_UNDERFLOW);
    //
    let mut e = ExceptionMask::default();
    e.set_inexact(true);
    assert_eq!(e.to_raw(), MASK_INEXACT);
}

#[test]
fn m128i_from_u128_max() {
    let m: m128i = cast(u128::MAX);
    assert_eq!(m.to_i128(), -1);
    assert_eq!(m.extract_i16(3), 0xFFFF);
}

#[test]
fn m128i_set_i8_lanes() {
    let m = m128i::set_i8(15, 14, 13, 12, 11, 10, 9, 8, 7, 6, 5, 4, 3, 2, 1, -1);
    let lanes: [i8; 16] = cast(m);
    assert_eq!(lanes, [-1, 1, 2, 3, 4, 5, 6, 7, 8, 9, 10, 11, 12, 13, 14, 15]);
    let r = m128i::setr_i8(15, 14, 13, 12, 11, 10, 9, 8, 7, 6, 5, 4, 3, 2, 1, -1);
    let lanes: [i8; 16] = cast(r);
    assert_eq!(lanes, [15, 14, 13, 12, 11, 10, 9, 8, 7, 6, 5, 4, 3, 2, 1, -1]);
}

#[test]
fn m128i_extract_and_insert_i16() {
    let m: m128i = cast([10i16, -2, 30, 40, 50, 60, 70, -32768]);
    assert_eq!(m.extract_i16(0), 10);
    assert_eq!(m.extract_i16(1), 0xFFFE);
    assert_eq!(m.extract_i16(7), 0x8000);
    let n = m.insert_i16(-5, 2);
    let lanes: [i16; 8] = cast(n);
    assert_eq!(lanes, [10, -2, -5, 40, 50, 60, 70, -32768]);
    assert_eq!(n.extract_i16(2), 0xFFFB);
}

#[test]
fn m128i_to_i128_is_bit_identical() {
    let m = m128i(1u128 << 127 | 5);
    assert_eq!(m.to_i128(), i128::MIN + 5);
    assert_eq!(try_cast::<m128i, i128>(m).map(|x| x == i128::MIN + 5), Ok(true));
}

#[test]
fn m128_and_m128d_hold_their_bits() {
    let f: m128 = cast([1u32, 2, 3, 4]);
    assert_eq!(f.0, 1 | 2 << 32 | 3 << 64 | 4 << 96);
    let d: m128d = cast([7u64, 8]);
    assert_eq!(bytes_of(&d)[8], 8);
    let back: [u64; 2] = cast(d);
    assert_eq!(back, [7, 8]);
}

#[test]
fn m128d_cast_m128i() {
    let m: m128d = cast(12_345_678_u128);
    let mi: m128i = m.cast_m128i();
    let mi_bits: u128 = cast(mi);
    assert_eq!(mi_bits, 12_345_678_u128);
}

#[test]
fn register_casts_keep_bits() {
    let bits = 0x0123_4567_89AB_CDEF_FEDC_BA98_7654_3210u128;
    let f = m128(bits);
    assert_eq!(f.transmute_m128i().0, bits);
    assert_eq!(f.transmute_m128d().0, bits);
    let i = m128i(bits);
    assert_eq!(i.transmute_m128().0, bits);
    assert_eq!(i.cast_m128d().0, bits);
    let d = m128d(bits);
    assert_eq!(d.cast_m128().0, bits);
    assert_eq!(d.cast_m128i().to_i128(), bits as i128);
}
