use evm_sqlite::args::SqlArg;
use evm_sqlite::u256_sum::{sum_finalize, sum_init, sum_step, u256_sum};
use ruint::aliases::U256;

/// 32-byte big-endian encoding of a `u128`, for building test rows.
fn be(n: u128) -> Vec<u8> {
    U256::from(n).to_be_bytes::<32>().to_vec()
}

fn sum(rows: &[SqlArg]) -> Option<Vec<u8>> {
    u256_sum(rows).unwrap()
}

#[test]
fn u256_sum_basic_sum() {
    let rows: Vec<SqlArg> = [1u128, 2, 3].iter().map(|n| SqlArg::Blob(be(*n))).collect();
    assert_eq!(sum(&rows), Some(be(6)));
}

#[test]
fn sums_integer_operands() {
    // Integer column values are summed (not silently treated as zero).
    let rows = vec![
        SqlArg::Integer(10),
        SqlArg::Integer(20),
        SqlArg::Integer(12),
        SqlArg::Null,
    ];
    assert_eq!(sum(&rows), Some(be(42)));
}

#[test]
fn u256_sum_null_skipped() {
    let rows = vec![SqlArg::Blob(be(10)), SqlArg::Null, SqlArg::Blob(be(5))];
    assert_eq!(sum(&rows), Some(be(15)));
}

#[test]
fn u256_sum_short_blob_left_padded() {
    // 4-byte trimmed encoding of 5: left-padded and summed, not skipped.
    let rows = vec![SqlArg::Blob(be(7)), SqlArg::Blob(vec![0, 0, 0, 5])];
    assert_eq!(sum(&rows), Some(be(12)));
}

#[test]
fn u256_sum_oversized_blob_raises() {
    // 33-byte blob can't be a uint256: must raise, not skip or panic.
    let rows = vec![SqlArg::Blob(be(7)), SqlArg::Blob(vec![0u8; 33])];
    let err = u256_sum(&rows).unwrap_err();
    assert!(err.message().contains("too large"), "{}", err.message());
}

#[test]
fn u256_sum_empty_set_is_null() {
    let rows: Vec<SqlArg> = Vec::new();
    assert_eq!(u256_sum(&rows).unwrap(), None);
}

#[test]
fn u256_sum_overflow_raises() {
    let max = U256::MAX.to_be_bytes::<32>().to_vec();
    // MAX + 3 overflows: must raise, not wrap.
    let rows = vec![SqlArg::Blob(max), SqlArg::Blob(be(3))];
    let err = u256_sum(&rows).unwrap_err();
    assert!(err.message().contains("overflow"), "{}", err.message());
}

#[test]
fn u256_sum_sums_to_u256_max_without_raising() {
    // MAX - 1, then + 1 lands exactly on MAX: boundary must not raise.
    let max_minus_one = (U256::MAX - U256::from(1u8)).to_be_bytes::<32>().to_vec();
    let rows = vec![SqlArg::Blob(max_minus_one), SqlArg::Blob(be(1))];
    assert_eq!(sum(&rows), Some(U256::MAX.to_be_bytes::<32>().to_vec()));
}

#[test]
fn all_null_group_sums_to_zero_blob() {
    // Rows were stepped, so the result is a zero BLOB rather than NULL.
    let rows = vec![SqlArg::Null, SqlArg::Null];
    assert_eq!(sum(&rows), Some(be(0)));
}

#[test]
fn step_keeps_total_on_error() {
    let mut acc = sum_init();
    sum_step(&mut acc, &SqlArg::Integer(40)).unwrap();
    let err = sum_step(&mut acc, &SqlArg::Text).unwrap_err();
    assert_eq!(
        err.message(),
        "u256_sum: expected an integer or a blob of at most 32 bytes, got Text"
    );
    sum_step(&mut acc, &SqlArg::Blob(vec![2])).unwrap();
    assert_eq!(sum_finalize(Some(acc)), Some(be(42)));
    assert_eq!(sum_finalize(None), None);
}

#[test]
fn sum_total_equals_sum_of_operands() {
    let values = [u64::MAX as u128, 1, u128::MAX, 12345];
    let rows: Vec<SqlArg> = values.iter().map(|n| SqlArg::Blob(be(*n))).collect();
    let mut expected = U256::ZERO;
    for n in values {
        expected += U256::from(n);
    }
    assert_eq!(sum(&rows), Some(expected.to_be_bytes::<32>().to_vec()));
}

#[test]
fn sum_does_not_depend_on_row_order() {
    let forward = vec![SqlArg::Blob(be(u128::MAX)), SqlArg::Null, SqlArg::Integer(7), SqlArg::Blob(vec![1, 0])];
    let backward = vec![SqlArg::Blob(vec![1, 0]), SqlArg::Integer(7), SqlArg::Null, SqlArg::Blob(be(u128::MAX))];
    assert_eq!(sum(&forward), sum(&backward));
    assert_eq!(sum(&forward), Some((U256::from(u128::MAX) + U256::from(263u16)).to_be_bytes::<32>().to_vec()));
}
