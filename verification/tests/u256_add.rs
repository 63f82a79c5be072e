use evm_sqlite::args::SqlArg;
use evm_sqlite::u256_add::u256_add;
use ruint::aliases::U256;

fn be(n: u128) -> Vec<u8> {
    U256::from(n).to_be_bytes::<32>().to_vec()
}

#[test]
fn adds_mixed_operands() {
    assert_eq!(
        u256_add(&SqlArg::Blob(be(1_000)), &SqlArg::Integer(337)).unwrap(),
        Some(be(1_337))
    );
}

#[test]
fn u256_add_null_operand_yields_null() {
    // full_tx_cost = u256_add(tx_cost, coinbase) must null out when untraced.
    assert_eq!(u256_add(&SqlArg::Blob(be(100)), &SqlArg::Null).unwrap(), None);
    assert_eq!(u256_add(&SqlArg::Null, &SqlArg::Blob(be(100))).unwrap(), None);
}

#[test]
fn u256_add_overflow_raises() {
    let max = U256::MAX.to_be_bytes::<32>().to_vec();
    let err = u256_add(&SqlArg::Blob(max), &SqlArg::Integer(1)).unwrap_err();
    assert!(err.message().contains("overflow"), "{}", err.message());
}

#[test]
fn u256_add_sums_to_u256_max_without_raising() {
    let max_minus_one = (U256::MAX - U256::from(1u8)).to_be_bytes::<32>().to_vec();
    assert_eq!(
        u256_add(&SqlArg::Blob(max_minus_one), &SqlArg::Integer(1)).unwrap(),
        Some(U256::MAX.to_be_bytes::<32>().to_vec())
    );
}

#[test]
fn add_is_exact_past_u128() {
    let a = U256::from(u128::MAX);
    let expected = (a + a).to_be_bytes::<32>().to_vec();
    assert_eq!(
        u256_add(&SqlArg::Blob(be(u128::MAX)), &SqlArg::Blob(be(u128::MAX))).unwrap(),
        Some(expected)
    );
}

#[test]
fn add_null_does_not_hide_a_bad_operand() {
    let err = u256_add(&SqlArg::Null, &SqlArg::Integer(-5)).unwrap_err();
    assert_eq!(err.message(), "u256_add: negative integer -5 cannot be a uint256");
}
