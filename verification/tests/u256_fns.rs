use evm_sqlite::args::SqlArg;
use evm_sqlite::u256_fns::u256_wrapping_sum;
use ruint::aliases::U256;

/// 32-byte big-endian encoding of a `u128`, for building test rows.
fn be(n: u128) -> Vec<u8> {
    U256::from(n).to_be_bytes::<32>().to_vec()
}

#[test]
fn u256_fns_basic_sum() {
    let rows: Vec<SqlArg> = [1u128, 2, 3].iter().map(|n| SqlArg::Blob(be(*n))).collect();
    assert_eq!(u256_wrapping_sum(&rows), Some(be(6)));
}

#[test]
fn u256_fns_null_skipped() {
    let rows = vec![SqlArg::Blob(be(10)), SqlArg::Null, SqlArg::Blob(be(5))];
    assert_eq!(u256_wrapping_sum(&rows), Some(be(15)));
}

#[test]
fn wrong_size_blob_skipped() {
    // 16-byte blob: ignored, must not error or panic.
    let rows = vec![SqlArg::Blob(be(7)), SqlArg::Blob(vec![0u8; 16])];
    assert_eq!(u256_wrapping_sum(&rows), Some(be(7)));
}

#[test]
fn u256_fns_empty_set_is_null() {
    let rows: Vec<SqlArg> = Vec::new();
    assert_eq!(u256_wrapping_sum(&rows), None);
}

#[test]
fn wraps_at_u256_max() {
    let max = U256::MAX.to_be_bytes::<32>().to_vec();
    let rows = vec![SqlArg::Blob(max), SqlArg::Blob(be(3))];
    // MAX + 3 wraps to 2.
    assert_eq!(u256_wrapping_sum(&rows), Some(be(2)));
}

#[test]
fn wrapping_sum_skips_integers_and_oversized_blobs() {
    let rows = vec![
        SqlArg::Integer(5),
        SqlArg::Blob(vec![1u8; 33]),
        SqlArg::Text,
        SqlArg::Blob(be(9)),
    ];
    assert_eq!(u256_wrapping_sum(&rows), Some(be(9)));
}
