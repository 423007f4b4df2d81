use safe_bigmath::codec::{encode, DecodeError};
use safe_bigmath::dedup::{bytes_required_with, DedupContext};
use safe_bigmath::SafeInt;

#[test]
fn short_values_are_never_referenced() {
    let mut ctx = DedupContext::new();
    let five = SafeInt::from(5);
    assert_eq!(ctx.encode_with(&five), vec![4, 5]);
    assert_eq!(ctx.encode_with(&five), vec![4, 5]);
    assert_eq!(ctx.len(), 0);
    let nine_bytes = SafeInt::from(2).pow(63);
    assert_eq!(encode(&nine_bytes).len(), 9);
    assert_eq!(ctx.encode_with(&nine_bytes), encode(&nine_bytes));
    assert_eq!(ctx.encode_with(&nine_bytes), encode(&nine_bytes));
    assert_eq!(ctx.len(), 0);
}

#[test]
fn a_recurring_value_becomes_a_reference() {
    let mut ctx = DedupContext::new();
    let a = SafeInt::from(2).pow(64);
    let b = SafeInt::from(10).pow(30).neg();
    assert_eq!(encode(&a).len(), 10);
    assert_eq!(ctx.encode_with(&a), encode(&a));
    assert_eq!(ctx.len(), 1);
    assert_eq!(ctx.encode_with(&a), vec![5, 0, 0, 0, 0, 0, 0, 0, 0]);
    assert_eq!(ctx.encode_with(&b), encode(&b));
    assert_eq!(ctx.encode_with(&b), vec![5, 1, 0, 0, 0, 0, 0, 0, 0]);
    assert_eq!(ctx.encode_with(&a), vec![5, 0, 0, 0, 0, 0, 0, 0, 0]);
    assert_eq!(ctx.len(), 2);
    assert_eq!(ctx.position(&b), Some(1));
    assert_eq!(ctx.position(&SafeInt::from(1)), None);
}

#[test]
fn the_decoder_stays_in_step() {
    let values = [
        SafeInt::from(10).pow(40),
        SafeInt::from(7),
        SafeInt::from(10).pow(40),
        SafeInt::from(3).pow(200).neg(),
        SafeInt::from(7),
        SafeInt::from(3).pow(200).neg(),
        SafeInt::from(10).pow(40),
    ];
    let mut writer = DedupContext::new();
    let mut stream: Vec<u8> = Vec::new();
    for v in values.iter() {
        stream.extend_from_slice(&writer.encode_with(v));
    }
    let mut reader = DedupContext::new();
    let mut at = 0;
    for v in values.iter() {
        assert_eq!(bytes_required_with(&stream[at..]).map(|n| n <= stream.len() - at), Some(true));
        let (back, used) = reader.decode_with(&stream[at..]).unwrap();
        assert_eq!(&back, v);
        at += used;
    }
    assert_eq!(at, stream.len());
    assert_eq!(reader.len(), writer.len());
    assert_eq!(reader.len(), 2);
}

#[test]
fn references_must_be_known_and_whole() {
    let mut ctx = DedupContext::new();
    assert_eq!(
        ctx.decode_with(&[5, 0, 0, 0, 0, 0, 0, 0, 0]),
        Err(DecodeError::UnknownReference)
    );
    assert_eq!(ctx.decode_with(&[5, 0, 0]), Err(DecodeError::Truncated));
    assert_eq!(ctx.decode_with(&[]), Err(DecodeError::Truncated));
    assert_eq!(ctx.decode_with(&[7]), Err(DecodeError::InvalidHeader));
    assert_eq!(ctx.decode_with(&[4, 0]), Err(DecodeError::NonCanonical));
    assert_eq!(ctx.len(), 0);
    let big = SafeInt::from(10).pow(40);
    let plain = encode(&big);
    assert_eq!(ctx.decode_with(&plain), Ok((big.clone(), plain.len())));
    assert_eq!(ctx.decode_with(&plain), Ok((big.clone(), plain.len())));
    assert_eq!(ctx.len(), 1);
    assert_eq!(ctx.decode_with(&[5, 0, 0, 0, 0, 0, 0, 0, 0]), Ok((big, 9)));
    assert_eq!(
        ctx.decode_with(&[5, 1, 0, 0, 0, 0, 0, 0, 0]),
        Err(DecodeError::UnknownReference)
    );
}

#[test]
fn required_length_of_a_reference() {
    assert_eq!(bytes_required_with(&[5]), Some(9));
    assert_eq!(bytes_required_with(&[5, 1, 2]), Some(9));
    assert_eq!(bytes_required_with(&[8]), Some(3));
    assert_eq!(bytes_required_with(&[]), Some(1));
}
