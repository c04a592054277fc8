use compute::bits::{
    GarbledInt, GarbledInt128, GarbledInt16, GarbledInt32, GarbledInt64, GarbledInt8, GarbledUint,
    GarbledUint128, GarbledUint16, GarbledUint32, GarbledUint64, GarbledUint8,
};
use compute::comparator::{
    build_and_execute_comparator, build_and_execute_equality,
    build_and_execute_signed_comparator, build_and_execute_signed_equality,
    compare_signed_with_seed, compare_with_seed, decode_ordering, equal_signed_with_seed,
    equal_with_seed,
};
use std::cmp::Ordering;

#[test]
fn test_uint_equality() {
    let a: GarbledUint8 = 123_u8.into();
    let b: GarbledUint8 = 123_u8.into();
    let c: GarbledUint8 = 124_u8.into();

    assert_eq!(&a, &b);
    assert_ne!(&a, &c);
}

#[test]
fn test_unsigned_comparison() {
    let a: GarbledUint8 = 100_u8.into();
    let b: GarbledUint8 = 150_u8.into();

    assert!(a < b);
    assert!(b > a);
    assert!(a != b);

    let c: GarbledUint8 = 200_u8.into();
    let d: GarbledUint8 = 200_u8.into();

    assert!(c == d);
    assert!(c <= d);
    assert!(c >= d);
}

#[test]
fn test_uint_edge_cases() {
    let zero: GarbledUint8 = 0_u8.into();
    let max: GarbledUint8 = u8::MAX.into();

    assert!(zero < max);
    assert!(max > zero);
    assert!(zero != max);
}

#[test]
fn test_uint_larger_comparison() {
    let a16: GarbledUint16 = 1000_u16.into();
    let b16: GarbledUint16 = 2000_u16.into();
    assert!(a16 < b16);

    let a32: GarbledUint32 = 10000_u32.into();
    let b32: GarbledUint32 = 20000_u32.into();
    assert!(a32 < b32);

    let a64: GarbledUint64 = 10000000000_u64.into();
    let b64: GarbledUint64 = 20000000000_u64.into();
    assert!(a64 < b64);

    let a128: GarbledUint128 = 100000000000000000000_u128.into();
    let b128: GarbledUint128 = 200000000000000000000_u128.into();
    assert!(a128 < b128);
}

#[test]
fn test_int_comparison() {
    let d8: GarbledInt8 = (-100_i8).into();
    let e8: GarbledInt8 = 100_i8.into();

    assert!(d8 < e8);
}

#[test]
fn test_int_larger_comparison() {
    let a16: GarbledInt16 = 1000_i16.into();
    let b16: GarbledInt16 = 2000_i16.into();
    assert!(a16 < b16);

    let a32: GarbledInt32 = 10000_i32.into();
    let b32: GarbledInt32 = 20000_i32.into();
    assert!(a32 < b32);

    let a64: GarbledInt64 = 10000000000_i64.into();
    let b64: GarbledInt64 = 20000000000_i64.into();
    assert!(a64 < b64);

    let a128: GarbledInt128 = 100000000000000000000_i128.into();
    let b128: GarbledInt128 = 200000000000000000000_i128.into();
    assert!(a128 < b128);
}

#[test]
fn three_way_results_on_unsigned_examples() {
    let a: GarbledUint8 = 100_u8.into();
    let b: GarbledUint8 = 150_u8.into();
    assert_eq!(build_and_execute_comparator(&a, &b), Ordering::Less);
    assert_eq!(build_and_execute_comparator(&b, &a), Ordering::Greater);
    let c: GarbledUint8 = 200_u8.into();
    let d: GarbledUint8 = 200_u8.into();
    assert_eq!(build_and_execute_comparator(&c, &d), Ordering::Equal);
    let zero: GarbledUint8 = 0_u8.into();
    let max: GarbledUint8 = 255_u8.into();
    assert_eq!(zero.cmp(&max), Ordering::Less);
    assert_eq!(max.cmp(&zero), Ordering::Greater);
    let x: GarbledUint16 = 1000_u16.into();
    let y: GarbledUint16 = 2000_u16.into();
    assert_eq!(x.partial_cmp(&y), Some(Ordering::Less));
}

#[test]
fn comparing_a_value_with_itself_is_equal() {
    let values: [u8; 5] = [0, 1, 127, 128, 255];
    for v in values {
        let a: GarbledUint8 = v.into();
        assert!(build_and_execute_equality(&a, &a));
        assert_eq!(build_and_execute_comparator(&a, &a), Ordering::Equal);
    }
    let signed: [i8; 5] = [-128, -1, 0, 1, 127];
    for v in signed {
        let a: GarbledInt8 = v.into();
        assert!(a == a);
        assert_eq!(build_and_execute_signed_comparator(&a, &a), Ordering::Equal);
    }
}

#[test]
fn unsigned_order_matches_native_order_on_all_bytes_near_the_edges() {
    let values: [u8; 8] = [0, 1, 2, 127, 128, 129, 254, 255];
    for x in values {
        for y in values {
            let a: GarbledUint8 = x.into();
            let b: GarbledUint8 = y.into();
            assert_eq!(a.cmp(&b), x.cmp(&y));
            assert_eq!(a == b, x == y);
            assert_eq!(a < b, x < y);
            assert_eq!(a <= b, x <= y);
            assert_eq!(a > b, x > y);
            assert_eq!(a >= b, x >= y);
            assert_eq!(a != b, x != y);
        }
    }
}

#[test]
fn signed_order_matches_native_order_across_the_sign() {
    let values: [i8; 9] = [-128, -127, -100, -1, 0, 1, 100, 126, 127];
    for x in values {
        for y in values {
            let a: GarbledInt8 = x.into();
            let b: GarbledInt8 = y.into();
            assert_eq!(a.cmp(&b), x.cmp(&y));
            assert_eq!(a == b, x == y);
            assert_eq!(a < b, x < y);
        }
    }
    let low: GarbledInt128 = i128::MIN.into();
    let high: GarbledInt128 = i128::MAX.into();
    assert!(low < high);
    let minus_one: GarbledInt64 = (-1_i64).into();
    let nought: GarbledInt64 = 0_i64.into();
    assert!(minus_one < nought);
}

#[test]
fn order_is_antisymmetric_and_transitive_on_examples() {
    let a: GarbledUint32 = 7_u32.into();
    let b: GarbledUint32 = 70_000_u32.into();
    let c: GarbledUint32 = 4_000_000_000_u32.into();
    assert_eq!(a.cmp(&b), Ordering::Less);
    assert_eq!(b.cmp(&a), Ordering::Greater);
    assert_eq!(b.cmp(&c), Ordering::Less);
    assert_eq!(a.cmp(&c), Ordering::Less);
}

#[test]
fn the_answer_does_not_depend_on_the_seed() {
    let a: GarbledUint16 = 513_u16.into();
    let b: GarbledUint16 = 514_u16.into();
    let seeds: [u128; 4] = [0, 1, 0xDEAD_BEEF, u128::MAX];
    for seed in seeds {
        assert_eq!(compare_with_seed(&a, &b, seed), Ordering::Less);
        assert_eq!(compare_with_seed(&b, &a, seed), Ordering::Greater);
        assert_eq!(compare_with_seed(&a, &a, seed), Ordering::Equal);
        assert!(equal_with_seed(&a, &a, seed));
        assert!(!equal_with_seed(&a, &b, seed));
    }
    let m: GarbledInt16 = (-513_i16).into();
    let p: GarbledInt16 = 513_i16.into();
    for seed in seeds {
        assert_eq!(compare_signed_with_seed(&m, &p, seed), Ordering::Less);
        assert_eq!(compare_signed_with_seed(&p, &m, seed), Ordering::Greater);
    }
}

#[test]
fn ordering_is_read_from_two_bits() {
    assert_eq!(decode_ordering(true, false), Ordering::Less);
    assert_eq!(decode_ordering(false, true), Ordering::Equal);
    assert_eq!(decode_ordering(false, false), Ordering::Greater);
}

#[test]
fn one_bit_operands_compare() {
    let zero = GarbledUint::<1>::encode(0).unwrap();
    let one = GarbledUint::<1>::encode(1).unwrap();
    assert_eq!(zero.cmp(&one), Ordering::Less);
    assert!(zero != one);
    let minus = GarbledInt::<1>::encode(-1).unwrap();
    let nought = GarbledInt::<1>::encode(0).unwrap();
    assert_eq!(minus.cmp(&nought), Ordering::Less);
}

#[test]
fn signed_equality_tells_the_sign_apart() {
    let m: GarbledInt8 = (-1_i8).into();
    let p: GarbledInt8 = 1_i8.into();
    let m2: GarbledInt8 = (-1_i8).into();
    assert!(build_and_execute_signed_equality(&m, &m2));
    assert!(!build_and_execute_signed_equality(&m, &p));
    assert!(equal_signed_with_seed(&m, &m2, 9));
    assert!(!equal_signed_with_seed(&p, &m, 9));
    assert!(m == m2);
    assert!(m != p);
    let low: GarbledInt8 = (-128_i8).into();
    let nought: GarbledInt8 = 0_i8.into();
    assert!(low != nought);
}

#[test]
fn borrowed_right_operands_compare_alike() {
    let a: GarbledUint8 = 123_u8.into();
    let b: GarbledUint8 = 123_u8.into();
    let c: GarbledUint8 = 124_u8.into();
    assert!(a == &b);
    assert!(!(a == &c));
    assert!(a != &c);
    assert!(a < &c);
    assert!(c > &a);
    assert!(a <= &b);
    assert_eq!(a.partial_cmp(&&c), Some(Ordering::Less));
}
