use evm_sqlite::args::SqlArg;
use evm_sqlite::u256_mul::u256_mul;
use ruint::aliases::U256;

fn be(n: u128) -> Vec<u8> {
    U256::from(n).to_be_bytes::<32>().to_vec()
}

#[test]
fn multiplies_integers() {
    assert_eq!(
        u256_mul(&SqlArg::Integer(21_000), &SqlArg::Integer(30_000_000_000)).unwrap(),
        Some(be(630_000_000_000_000))
    );
}

#[test]
fn product_exceeds_i64() {
    // 30_000_000 gas * 2e13 wei = 6e20, well past i64::MAX.
    let gas = 30_000_000u128;
    let price = 20_000_000_000_000u128;
    assert_eq!(
        u256_mul(&SqlArg::Integer(gas as i64), &SqlArg::Integer(price as i64)).unwrap(),
        Some(be(gas * price))
    );
}

#[test]
fn accepts_blob_operands() {
    assert_eq!(
        u256_mul(&SqlArg::Blob(be(7)), &SqlArg::Blob(be(6))).unwrap(),
        Some(be(42))
    );
}

#[test]
fn u256_mul_null_operand_yields_null() {
    assert_eq!(u256_mul(&SqlArg::Null, &SqlArg::Integer(5)).unwrap(), None);
    assert_eq!(u256_mul(&SqlArg::Integer(5), &SqlArg::Null).unwrap(), None);
}

#[test]
fn u256_mul_overflow_raises() {
    let max = U256::MAX.to_be_bytes::<32>().to_vec();
    let err = u256_mul(&SqlArg::Blob(max), &SqlArg::Integer(2)).unwrap_err();
    assert!(err.message().contains("overflow"), "{}", err.message());
}

#[test]
fn u256_mul_negative_integer_raises() {
    let err = u256_mul(&SqlArg::Integer(-1), &SqlArg::Integer(2)).unwrap_err();
    assert!(err.message().contains("negative"), "{}", err.message());
}

#[test]
fn mul_error_messages() {
    let err = u256_mul(&SqlArg::Integer(i64::MIN), &SqlArg::Integer(2)).unwrap_err();
    assert_eq!(
        err.message(),
        "u256_mul: negative integer -9223372036854775808 cannot be a uint256"
    );
    let max = U256::MAX.to_be_bytes::<32>().to_vec();
    let err = u256_mul(&SqlArg::Blob(max), &SqlArg::Integer(2)).unwrap_err();
    assert_eq!(err.message(), "u256_mul: overflow past U256::MAX");
}

#[test]
fn mul_by_zero_of_max_is_zero() {
    let max = U256::MAX.to_be_bytes::<32>().to_vec();
    assert_eq!(
        u256_mul(&SqlArg::Blob(max), &SqlArg::Integer(0)).unwrap(),
        Some(be(0))
    );
}
