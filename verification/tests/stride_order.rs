use std::cmp::Ordering;
use stride_kernel::stride::Stride;
use stride_kernel::stride::BIG_STRIDE;
use stride_kernel::stride::STRIDE_REVERSE;

fn order(a: u16, b: u16) -> Option<Ordering> {
    Stride { value: a }.partial_cmp(&Stride { value: b })
}

#[test]
fn constants_are_the_full_and_half_range() {
    assert_eq!(BIG_STRIDE, 65535);
    assert_eq!(STRIDE_REVERSE, 32767);
}

#[test]
fn a_stride_equals_itself() {
    for v in [0u16, 1, 32767, 32768, 65535] {
        assert_eq!(order(v, v), Some(Ordering::Equal));
        assert!(Stride { value: v } == Stride { value: v });
    }
}

#[test]
fn different_raw_values_are_never_equal() {
    assert!(Stride { value: 0 } != Stride { value: 65535 });
    assert_ne!(order(0, 65535), Some(Ordering::Equal));
}

#[test]
fn near_strides_follow_numeric_order() {
    assert_eq!(order(10, 20), Some(Ordering::Less));
    assert_eq!(order(20, 10), Some(Ordering::Greater));
    assert_eq!(order(0, 32767), Some(Ordering::Less));
    assert_eq!(order(32767, 0), Some(Ordering::Greater));
    assert_eq!(order(1000, 33767), Some(Ordering::Less));
}

#[test]
fn far_strides_are_inverted() {
    assert_eq!(order(0, 32768), Some(Ordering::Greater));
    assert_eq!(order(32768, 0), Some(Ordering::Less));
    assert_eq!(order(65535, 0), Some(Ordering::Less));
    assert_eq!(order(0, 65535), Some(Ordering::Greater));
    assert_eq!(order(100, 65000), Some(Ordering::Greater));
}

#[test]
fn operators_follow_the_wraparound_order() {
    assert!(Stride { value: 65535 } < Stride { value: 3 });
    assert!(Stride { value: 3 } > Stride { value: 65535 });
    assert!(Stride { value: 3 }.is_after(&Stride { value: 65535 }));
    assert!(!Stride { value: 65535 }.is_after(&Stride { value: 3 }));
    assert!(!Stride { value: 7 }.is_after(&Stride { value: 7 }));
}

#[test]
fn swapping_the_sides_flips_the_order() {
    for (a, b) in [(0u16, 1u16), (5, 40000), (65535, 1), (30000, 62768)] {
        let forward = order(a, b).unwrap();
        let backward = order(b, a).unwrap();
        assert_eq!(forward, backward.reverse());
    }
}

#[test]
fn a_new_stride_is_zero() {
    assert_eq!(Stride::new().value, 0);
}

#[test]
fn advance_adds_the_step_of_the_priority() {
    let mut s = Stride::new();
    s.advance(16);
    assert_eq!(s.value, 4095);
    s.advance(2);
    assert_eq!(s.value, 4095 + 32767);
    s.advance(1);
    assert_eq!(s.value, 4095 + 32767 - 1);
}

#[test]
fn advance_wraps_around() {
    let mut s = Stride { value: 65000 };
    s.advance(16);
    assert_eq!(s.value, 3559);
    assert!(Stride { value: 65000 } < s);
}
