use evm_sqlite::args::SqlArg;
use evm_sqlite::u256_to_dec::u256_to_dec;
use ruint::aliases::U256;

/// 32-byte big-endian encoding of a `u128`, for building test rows.
fn be(n: u128) -> Vec<u8> {
    U256::from(n).to_be_bytes::<32>().to_vec()
}

#[test]
fn decodes_known_value() {
    assert_eq!(
        u256_to_dec(&SqlArg::Blob(be(2014847014830705))).unwrap(),
        Some("2014847014830705".to_string())
    );
}

#[test]
fn zero() {
    assert_eq!(u256_to_dec(&SqlArg::Blob(be(0))).unwrap(), Some("0".to_string()));
}

#[test]
fn u256_max() {
    let max = U256::MAX.to_be_bytes::<32>().to_vec();
    assert_eq!(u256_to_dec(&SqlArg::Blob(max)).unwrap(), Some(U256::MAX.to_string()));
}

#[test]
fn null_passes_through() {
    assert_eq!(u256_to_dec(&SqlArg::Null).unwrap(), None);
}

#[test]
fn u256_to_dec_short_blob_left_padded() {
    // 7 stored in only 4 bytes decodes the same as a full 32-byte blob.
    assert_eq!(
        u256_to_dec(&SqlArg::Blob(vec![0, 0, 0, 7])).unwrap(),
        Some("7".to_string())
    );
}

#[test]
fn empty_blob_is_zero() {
    // Zero-length blob left-pads to all zeros.
    assert_eq!(u256_to_dec(&SqlArg::Blob(vec![])).unwrap(), Some("0".to_string()));
}

#[test]
fn u256_to_dec_oversized_blob_raises() {
    let err = u256_to_dec(&SqlArg::Blob(vec![0u8; 33])).unwrap_err();
    assert!(err.message().contains("got 33"), "{}", err.message());
}

#[test]
fn integer_arg_decodes() {
    assert_eq!(u256_to_dec(&SqlArg::Integer(42)).unwrap(), Some("42".to_string()));
}

#[test]
fn u256_to_dec_negative_integer_raises() {
    let err = u256_to_dec(&SqlArg::Integer(-1)).unwrap_err();
    assert!(err.message().contains("negative"), "{}", err.message());
}

#[test]
fn real_arg_raises() {
    let err = u256_to_dec(&SqlArg::Real).unwrap_err();
    assert!(err.message().contains("u256_to_dec"), "{}", err.message());
}

#[test]
fn text_arg_raises() {
    let err = u256_to_dec(&SqlArg::Text).unwrap_err();
    assert!(err.message().contains("u256_to_dec"), "{}", err.message());
}

#[test]
fn to_dec_error_messages() {
    let err = u256_to_dec(&SqlArg::Blob(vec![0u8; 33])).unwrap_err();
    assert_eq!(
        err.message(),
        "u256_to_dec: blob too large, expected <= 32 bytes, got 33"
    );
    let err = u256_to_dec(&SqlArg::Real).unwrap_err();
    assert_eq!(
        err.message(),
        "u256_to_dec: expected an integer or a blob of at most 32 bytes, got Real"
    );
    let err = u256_to_dec(&SqlArg::Text).unwrap_err();
    assert_eq!(
        err.message(),
        "u256_to_dec: expected an integer or a blob of at most 32 bytes, got Text"
    );
}

#[test]
fn to_dec_of_values_across_limbs() {
    for n in [1u128, 9, 10, 99, 100, u64::MAX as u128, u64::MAX as u128 + 1, u128::MAX] {
        assert_eq!(u256_to_dec(&SqlArg::Blob(be(n))).unwrap(), Some(n.to_string()));
    }
    let big = U256::from(10u8).pow(U256::from(70u8)) + U256::from(3u8);
    assert_eq!(
        u256_to_dec(&SqlArg::Blob(big.to_be_bytes::<32>().to_vec())).unwrap(),
        Some(big.to_string())
    );
}

#[test]
fn to_dec_of_a_full_width_blob_roundtrips() {
    // A 32-byte blob decodes to the value it encodes, whatever its bytes.
    let bytes: Vec<u8> = (0u8..32).map(|i| i.wrapping_mul(37).wrapping_add(11)).collect();
    let value = U256::from_be_slice(&bytes);
    assert_eq!(u256_to_dec(&SqlArg::Blob(bytes)).unwrap(), Some(value.to_string()));
}
