use safe_bigmath::codec::{bytes_required, decode, encode, DecodeError, SHORT_FORM_MAX};
use safe_bigmath::{SafeDec, SafeInt};

#[test]
fn exact_bytes_of_small_values() {
    assert_eq!(encode(&SafeInt::from(0)), vec![0]);
    assert_eq!(encode(&SafeInt::from(1)), vec![4, 1]);
    assert_eq!(encode(&SafeInt::from(-1)), vec![6, 1]);
    assert_eq!(encode(&SafeInt::from(255)), vec![4, 255]);
    assert_eq!(encode(&SafeInt::from(256)), vec![8, 0, 1]);
    assert_eq!(encode(&SafeInt::from(-300)), vec![10, 44, 1]);
    assert_eq!(
        encode(&SafeInt::from_u128(u128::MAX)),
        [vec![64u8], vec![255u8; 16]].concat()
    );
}

#[test]
fn short_form_holds_sixty_three_bytes() {
    assert_eq!(SHORT_FORM_MAX, 63);
    let v = SafeInt::from(2).pow(496);
    let bytes = encode(&v);
    let mut expected = vec![252u8];
    expected.extend_from_slice(&[0u8; 62]);
    expected.push(1);
    assert_eq!(bytes, expected);
    assert_eq!(decode(&bytes), Ok((v, 64)));
}

#[test]
fn long_form_carries_a_length() {
    let v = SafeInt::from(2).pow(504).neg();
    let bytes = encode(&v);
    let mut expected = vec![3u8, 64, 0, 0, 0, 0, 0, 0, 0];
    expected.extend_from_slice(&[0u8; 63]);
    expected.push(1);
    assert_eq!(bytes, expected);
    assert_eq!(decode(&bytes), Ok((v, 73)));
}

#[test]
fn round_trip() {
    let samples = [
        SafeInt::from(0),
        SafeInt::from(1),
        SafeInt::from(-1),
        SafeInt::from(i64::MAX),
        SafeInt::from(i64::MIN),
        SafeInt::from_u128(u128::MAX),
        SafeInt::from(10).pow(100),
        SafeInt::from(10).pow(100).neg(),
        SafeInt::from(3).pow(1000),
        SafeInt::from(-3).pow(1001),
    ];
    for v in samples.iter() {
        let bytes = encode(v);
        assert_eq!(bytes_required(&bytes), Some(bytes.len()));
        let (back, used) = decode(&bytes).unwrap();
        assert_eq!(&back, v);
        assert_eq!(used, bytes.len());
        let mut followed = bytes.clone();
        followed.extend_from_slice(&[9, 9, 9]);
        let (back, used) = decode(&followed).unwrap();
        assert_eq!(&back, v);
        assert_eq!(used, bytes.len());
    }
}

#[test]
fn decimal_encodes_as_its_raw_integer() {
    let raw = SafeInt::from(-123456);
    assert_eq!(SafeDec::<3>::from_raw(raw.clone()).encode(), encode(&raw));
    assert_eq!(SafeDec::<0>::from_raw(raw.clone()).encode(), encode(&raw));
    assert_eq!(SafeDec::<9>::from_raw(raw.clone()).encode(), encode(&raw));
    let big = SafeInt::from(7).pow(300);
    assert_eq!(SafeDec::<12>::from_raw(big.clone()).encode(), encode(&big));
    let (back, used) = SafeDec::<3>::decode(&encode(&raw)).unwrap();
    assert_eq!(back.to_string(), "-123.456");
    assert_eq!(used, 4);
}

#[test]
fn decode_refuses_truncated_input() {
    assert_eq!(decode(&[]), Err(DecodeError::Truncated));
    assert_eq!(decode(&[4]), Err(DecodeError::Truncated));
    assert_eq!(decode(&[12, 1, 2]), Err(DecodeError::Truncated));
    assert_eq!(decode(&[1]), Err(DecodeError::Truncated));
    assert_eq!(decode(&[1, 64, 0, 0, 0]), Err(DecodeError::Truncated));
    let mut cut = vec![1u8, 64, 0, 0, 0, 0, 0, 0, 0];
    cut.extend_from_slice(&[1u8; 63]);
    assert_eq!(decode(&cut), Err(DecodeError::Truncated));
    let all = encode(&SafeInt::from(10).pow(30));
    assert_eq!(decode(&all[..all.len() - 1]), Err(DecodeError::Truncated));
}

#[test]
fn decode_refuses_invalid_headers() {
    assert_eq!(decode(&[5, 0, 0, 0, 0, 0, 0, 0, 0]), Err(DecodeError::InvalidHeader));
    assert_eq!(decode(&[7]), Err(DecodeError::InvalidHeader));
    assert_eq!(decode(&[255]), Err(DecodeError::InvalidHeader));
}

#[test]
fn decode_refuses_second_spellings() {
    assert_eq!(decode(&[4, 0]), Err(DecodeError::NonCanonical));
    assert_eq!(decode(&[8, 1, 0]), Err(DecodeError::NonCanonical));
    assert_eq!(decode(&[2]), Err(DecodeError::NonCanonical));
    assert_eq!(decode(&[1, 2, 0, 0, 0, 0, 0, 0, 0, 1, 1]), Err(DecodeError::NonCanonical));
    let mut padded = vec![3u8, 64, 0, 0, 0, 0, 0, 0, 0];
    padded.extend_from_slice(&[1u8; 63]);
    padded.push(0);
    assert_eq!(decode(&padded), Err(DecodeError::NonCanonical));
}

#[test]
fn required_length_follows_the_header() {
    assert_eq!(bytes_required(&[]), Some(1));
    assert_eq!(bytes_required(&[0]), Some(1));
    assert_eq!(bytes_required(&[8]), Some(3));
    assert_eq!(bytes_required(&[254]), Some(64));
    assert_eq!(bytes_required(&[1]), Some(9));
    assert_eq!(bytes_required(&[3, 64, 0, 0]), Some(9));
    assert_eq!(bytes_required(&[1, 64, 0, 0, 0, 0, 0, 0, 0]), Some(73));
    assert_eq!(bytes_required(&[1, 2, 0, 0, 0, 0, 0, 0, 0]), Some(9));
    assert_eq!(bytes_required(&[5]), Some(1));
    assert_eq!(bytes_required(&[1, 255, 255, 255, 255, 255, 255, 255, 255]), None);
}
