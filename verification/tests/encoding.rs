use compute::bits::{GarbledInt, GarbledInt8, GarbledUint, GarbledUint8};

#[test]
fn bits_are_most_significant_first() {
    let a: GarbledUint8 = 0x80_u8.into();
    assert_eq!(a.width(), 8);
    assert!(a.bit_at(0));
    for i in 1..8 {
        assert!(!a.bit_at(i));
    }
    let b: GarbledUint8 = 5_u8.into();
    assert_eq!(b.bits(), &vec![false, false, false, false, false, true, false, true]);
}

#[test]
fn negative_numbers_are_in_twos_complement() {
    let a: GarbledInt8 = (-1_i8).into();
    assert_eq!(a.bits(), &vec![true; 8]);
    let b: GarbledInt8 = (-128_i8).into();
    assert!(b.bit_at(0));
    assert_eq!(b.bits(), &vec![true, false, false, false, false, false, false, false]);
    let c: GarbledInt8 = (-100_i8).into();
    assert_eq!(c.bits(), &vec![true, false, false, true, true, true, false, false]);
    let d: GarbledInt8 = 127_i8.into();
    assert_eq!(d.bits(), &vec![false, true, true, true, true, true, true, true]);
}

#[test]
fn encode_rejects_what_does_not_fit() {
    assert!(GarbledUint::<8>::encode(255).is_some());
    assert!(GarbledUint::<8>::encode(256).is_none());
    assert!(GarbledUint::<128>::encode(u128::MAX).is_some());
    assert!(GarbledUint::<127>::encode(u128::MAX).is_none());
    assert!(GarbledInt::<8>::encode(-128).is_some());
    assert!(GarbledInt::<8>::encode(-129).is_none());
    assert!(GarbledInt::<8>::encode(127).is_some());
    assert!(GarbledInt::<8>::encode(128).is_none());
    assert!(GarbledInt::<128>::encode(i128::MIN).is_some());
}

#[test]
fn width_zero_and_oversized_widths_are_rejected() {
    assert!(GarbledUint::<0>::encode(0).is_none());
    assert!(GarbledUint::<0>::new(Vec::new()).is_none());
    assert!(GarbledInt::<0>::encode(0).is_none());
    assert!(GarbledInt::<0>::new(Vec::new()).is_none());
    assert!(GarbledUint::<129>::encode(0).is_none());
    assert!(GarbledUint::<129>::new(vec![false; 129]).is_none());
}

#[test]
fn new_takes_exactly_the_width() {
    assert!(GarbledUint::<4>::new(vec![true, false, true, false]).is_some());
    assert!(GarbledUint::<4>::new(vec![true, false, true]).is_none());
    assert!(GarbledInt::<4>::new(vec![true, false, true, false, true]).is_none());
    let a = GarbledUint::<4>::new(vec![true, false, true, false]).unwrap();
    let b = GarbledUint::<4>::encode(10).unwrap();
    assert!(a == b);
}
