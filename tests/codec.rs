use zkvm_protocol::codec::{
    decode_bytes, decode_u32, decode_u64, encode_bytes, encode_u32, encode_u64,
};
use zkvm_protocol::violation::ContractViolation;

#[test]
fn u32_is_four_little_endian_bytes() {
    assert_eq!(encode_u32(0x0102_0304), vec![4, 3, 2, 1]);
    assert_eq!(decode_u32(&vec![4, 3, 2, 1]), Ok(0x0102_0304));
}

#[test]
fn u64_is_eight_little_endian_bytes() {
    assert_eq!(
        encode_u64(0x0102_0304_0506_0708),
        vec![8, 7, 6, 5, 4, 3, 2, 1]
    );
    assert_eq!(decode_u64(&encode_u64(u64::MAX)), Ok(u64::MAX));
    assert_eq!(decode_u64(&encode_u64(0)), Ok(0));
}

#[test]
fn bytes_are_length_prefixed() {
    let b = vec![0xaa, 0xbb, 0xcc];
    let enc = encode_bytes(&b).unwrap();
    assert_eq!(enc, vec![3, 0, 0, 0, 0xaa, 0xbb, 0xcc]);
    assert_eq!(decode_bytes(&enc), Ok(b));
    assert_eq!(decode_bytes(&encode_bytes(&vec![]).unwrap()), Ok(vec![]));
}

#[test]
fn wrong_shape_is_a_mismatch() {
    assert_eq!(decode_u64(&encode_u32(5)), Err(ContractViolation::DecodeMismatch));
    assert_eq!(decode_u32(&encode_u64(5)), Err(ContractViolation::DecodeMismatch));
    assert_eq!(decode_bytes(&vec![1, 0]), Err(ContractViolation::DecodeMismatch));
    assert_eq!(
        decode_bytes(&vec![2, 0, 0, 0, 9]),
        Err(ContractViolation::DecodeMismatch)
    );
}
