use safe_bigmath::heapint::{u128_to_le_bytes, HeapInt, INLINE_LIMIT};

#[test]
fn small_values_are_inline() {
    assert!(matches!(HeapInt::from_u128(0), HeapInt::U120(0)));
    assert!(matches!(HeapInt::from_u128(77), HeapInt::U120(77)));
    let top = INLINE_LIMIT - 1;
    assert!(matches!(HeapInt::from_u128(top), HeapInt::U120(v) if v == top));
    assert!(HeapInt::zero().is_inline());
    assert!(HeapInt::zero().is_zero());
}

#[test]
fn large_values_take_a_buffer() {
    match HeapInt::from_u128(INLINE_LIMIT) {
        HeapInt::Ptr { digits } => {
            let mut expected = vec![0u8; 15];
            expected.push(1);
            assert_eq!(digits, expected);
        }
        HeapInt::U120(_) => panic!("2^120 does not fit inline"),
    }
    match HeapInt::from_u128(u128::MAX) {
        HeapInt::Ptr { digits } => assert_eq!(digits, vec![255u8; 16]),
        HeapInt::U120(_) => panic!("2^128 - 1 does not fit inline"),
    }
}

#[test]
fn digits_are_normalised() {
    let padded = vec![1u8, 2, 0, 0, 0];
    assert!(matches!(HeapInt::from_le_bytes(padded), HeapInt::U120(513)));
    assert!(matches!(HeapInt::from_le_bytes(vec![]), HeapInt::U120(0)));
    assert!(matches!(HeapInt::from_le_bytes(vec![0, 0, 0]), HeapInt::U120(0)));
    let mut long = vec![7u8; 20];
    long.extend_from_slice(&[0, 0, 0]);
    match HeapInt::from_le_bytes(long) {
        HeapInt::Ptr { digits } => assert_eq!(digits, vec![7u8; 20]),
        HeapInt::U120(_) => panic!("twenty digits do not fit inline"),
    }
    let mut demoted = vec![9u8; 15];
    demoted.extend_from_slice(&[0, 0, 0, 0]);
    let expected = u128::from_le_bytes([9, 9, 9, 9, 9, 9, 9, 9, 9, 9, 9, 9, 9, 9, 9, 0]);
    assert!(matches!(HeapInt::from_le_bytes(demoted), HeapInt::U120(v) if v == expected));
}

#[test]
fn digits_of_a_value() {
    assert_eq!(u128_to_le_bytes(0), Vec::<u8>::new());
    assert_eq!(u128_to_le_bytes(1), vec![1]);
    assert_eq!(u128_to_le_bytes(256), vec![0, 1]);
    assert_eq!(u128_to_le_bytes(0x0102_03), vec![3, 2, 1]);
    assert_eq!(HeapInt::from_u128(300).to_le_bytes(), vec![44, 1]);
    assert_eq!(HeapInt::zero().to_le_bytes(), Vec::<u8>::new());
    assert_eq!(HeapInt::from_u128(u128::MAX).to_le_bytes(), vec![255u8; 16]);
}

#[test]
fn magnitude_arithmetic() {
    let a = HeapInt::from_u128(u128::MAX);
    let one = HeapInt::from_u128(1);
    let sum = a.add(&one);
    let mut expected = vec![0u8; 16];
    expected.push(1);
    assert_eq!(sum.to_le_bytes(), expected);
    assert_eq!(sum.to_u128(), None);
    assert_eq!(sum.checked_sub(&one).unwrap().to_u128(), Some(u128::MAX));
    assert!(one.checked_sub(&sum).is_none());
    assert_eq!(one.checked_sub(&one).unwrap().to_u128(), Some(0));
    let product = a.mul(&a);
    let (q, r) = product.checked_div_rem(&a).unwrap();
    assert_eq!(q.to_u128(), Some(u128::MAX));
    assert_eq!(r.to_u128(), Some(0));
    assert!(product.checked_div_rem(&HeapInt::zero()).is_none());
    let (q, r) = HeapInt::from_u128(17).checked_div_rem(&HeapInt::from_u128(5)).unwrap();
    assert_eq!(q.to_u128(), Some(3));
    assert_eq!(r.to_u128(), Some(2));
    assert_eq!(HeapInt::from_u128(3).pow(4).to_u128(), Some(81));
    assert_eq!(HeapInt::from_u128(2).pow(127).to_u128(), Some(1u128 << 127));
    assert_eq!(HeapInt::from_u128(2).pow(128).to_u128(), None);
}

#[test]
fn magnitude_comparison() {
    let small = HeapInt::from_u128(5);
    let large = HeapInt::from_u128(u128::MAX);
    let larger = large.add(&small);
    assert!(small.less(&large));
    assert!(!large.less(&small));
    assert!(large.less(&larger));
    assert!(!larger.less(&large));
    assert!(!large.less(&large));
    assert!(large.same(&HeapInt::from_u128(u128::MAX)));
    assert!(!large.same(&larger));
    assert!(large == large.clone());
    assert!(larger.is_odd() == false);
    assert!(large.is_odd());
    assert!(!larger.is_zero());
}
