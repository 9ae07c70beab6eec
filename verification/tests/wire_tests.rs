use fhe_service::bytes::{
    format_decimal_line, u32_from_le_bytes, u32_to_le_bytes, u64_from_be_bytes, u64_to_be_bytes,
    widen_i32_to_u64,
};
use fhe_service::wire::{
    build_encrypt_response, parse_fields, parse_operation, split_encrypt_response, Operation,
};
use fhe_service::{ServiceError, FIELD_COUNT};

fn le_i32(x: i32) -> Vec<u8> {
    u32_to_le_bytes(x as u32)
}

#[test]
fn tag_zero_is_encrypt() {
    assert_eq!(parse_operation(&vec![0, 0, 0, 0]), Ok(Operation::Encrypt));
}

#[test]
fn tag_one_is_decrypt() {
    assert_eq!(parse_operation(&vec![1, 0, 0, 0]), Ok(Operation::Decrypt));
}

#[test]
fn tag_seven_is_rejected() {
    assert_eq!(
        parse_operation(&vec![7, 0, 0, 0]),
        Err(ServiceError::InvalidOperation)
    );
}

#[test]
fn negative_tag_is_rejected() {
    assert_eq!(
        parse_operation(&le_i32(-1)),
        Err(ServiceError::InvalidOperation)
    );
}

#[test]
fn le_round_trip() {
    for v in [0u32, 1, 41, 0x8000_0000, u32::MAX] {
        assert_eq!(u32_from_le_bytes(&u32_to_le_bytes(v)), v);
    }
    assert_eq!(u32_to_le_bytes(0x0403_0201), vec![0x01, 0x02, 0x03, 0x04]);
}

#[test]
fn be_round_trip() {
    for v in [0u64, 1, 256, 0x0102_0304_0506_0708, u64::MAX] {
        assert_eq!(u64_from_be_bytes(&u64_to_be_bytes(v)), v);
    }
    assert_eq!(
        u64_to_be_bytes(0x0102_0304_0506_0708),
        vec![1, 2, 3, 4, 5, 6, 7, 8]
    );
}

#[test]
fn widening_matches_twos_complement() {
    assert_eq!(widen_i32_to_u64(0), 0);
    assert_eq!(widen_i32_to_u64(1234), 1234);
    assert_eq!(widen_i32_to_u64(-1), u64::MAX);
    assert_eq!(widen_i32_to_u64(i32::MIN), 0xFFFF_FFFF_8000_0000);
}

#[test]
fn decimal_lines() {
    assert_eq!(format_decimal_line(0), b"0\n".to_vec());
    assert_eq!(format_decimal_line(42), b"42\n".to_vec());
    assert_eq!(format_decimal_line(10), b"10\n".to_vec());
    assert_eq!(
        format_decimal_line(u64::MAX),
        b"18446744073709551615\n".to_vec()
    );
}

#[test]
fn fields_decode_in_order() {
    let mut payload = Vec::new();
    for x in [10, 20, -30, 40, i32::MIN, i32::MAX] {
        payload.extend_from_slice(&le_i32(x));
    }
    assert_eq!(payload.len(), 4 * FIELD_COUNT);
    let fields = parse_fields(&payload);
    assert_eq!(fields, vec![10, 20, -30, 40, i32::MIN, i32::MAX]);
}

#[test]
fn framing_round_trips() {
    let blobs = vec![vec![1u8, 2, 3], vec![4, 5, 6], vec![7, 8, 9]];
    let out = build_encrypt_response(&blobs).unwrap();
    assert_eq!(&out[0..8], &u64_to_be_bytes(3)[..]);
    assert_eq!(&out[8..], &[1, 2, 3, 4, 5, 6, 7, 8, 9]);
    let back = split_encrypt_response(&out, 3).unwrap();
    assert_eq!(back, blobs);
}

#[test]
fn uneven_batch_cannot_be_framed() {
    let blobs = vec![vec![1u8, 2, 3], vec![4, 5]];
    assert_eq!(
        build_encrypt_response(&blobs),
        Err(ServiceError::Serialization)
    );
}

#[test]
fn corrupted_length_is_detected() {
    let blobs = vec![vec![1u8, 2], vec![3, 4]];
    let mut out = build_encrypt_response(&blobs).unwrap();
    // claim a shared length of 3 over a 4-byte body
    out[7] = 3;
    assert_eq!(
        split_encrypt_response(&out, 2),
        Err(ServiceError::Serialization)
    );
    // too short to even hold the prefix
    assert_eq!(
        split_encrypt_response(&vec![0u8; 5], 1),
        Err(ServiceError::Serialization)
    );
}
