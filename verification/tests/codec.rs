use mixnet::bytes::{bytes_to_string_truncate_zeroes, str_to_byte_array_32, EncodeError};

#[test]
fn encode_pads_short_identity_with_zeros() {
    let encoded = str_to_byte_array_32("alex").unwrap();
    assert_eq!(encoded.len(), 32);
    assert_eq!(&encoded[0..4], b"alex");
    assert!(encoded[4..].iter().all(|&b| b == 0));
}

#[test]
fn encode_rejects_identity_over_32_bytes() {
    let long = "a".repeat(33);
    assert!(matches!(str_to_byte_array_32(&long), Err(EncodeError::Overflow)));
}

#[test]
fn encode_accepts_identity_of_exactly_32_bytes() {
    let exact = "b".repeat(32);
    let encoded = str_to_byte_array_32(&exact).unwrap();
    assert_eq!(encoded, exact.as_bytes().to_vec());
}

#[test]
fn round_trip_returns_identity() {
    for id in ["alex", "sam", "", "p1", &"c".repeat(32), "z\u{00e9}ro"] {
        let encoded = str_to_byte_array_32(id).unwrap();
        assert_eq!(bytes_to_string_truncate_zeroes(&encoded), *id);
    }
}

#[test]
fn decode_strips_trailing_zeros() {
    let mut bytes = vec![104u8, 105u8];
    bytes.resize(32, 0u8);
    assert_eq!(bytes_to_string_truncate_zeroes(&bytes), "hi");
}

#[test]
fn decode_of_all_zeros_is_empty() {
    assert_eq!(bytes_to_string_truncate_zeroes(&[0u8; 32]), "");
}

#[test]
fn decode_keeps_interior_zeros() {
    let bytes = vec![104u8, 0u8, 105u8, 0u8, 0u8];
    assert_eq!(bytes_to_string_truncate_zeroes(&bytes), "h\0i");
}

#[test]
fn decode_replaces_invalid_utf8() {
    let bytes = vec![0xffu8, 0xfeu8];
    assert_eq!(bytes_to_string_truncate_zeroes(&bytes), "\u{fffd}\u{fffd}");
}
