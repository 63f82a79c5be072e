use evm_sqlite::args::SqlArg;
use evm_sqlite::erc20_to_real::erc20_operands;
use ruint::aliases::U256;

fn be(n: u128) -> Vec<u8> {
    U256::from(n).to_be_bytes::<32>().to_vec()
}

/// The value the host computes from the checked operands: the amount read
/// as an `f64` through its decimal string, divided by `10^decimals`.
fn call(amount: SqlArg, decimals: SqlArg) -> Result<Option<f64>, String> {
    match erc20_operands(&amount, &decimals) {
        Err(e) => Err(e.message()),
        Ok(None) => Ok(None),
        Ok(Some((amount, d))) => {
            let value = amount.to_decimal_string().parse::<f64>().unwrap_or(f64::INFINITY);
            Ok(Some(value / 10f64.powi(d as i32)))
        }
    }
}

#[test]
fn converts_usdc_six_decimals() {
    assert_eq!(call(SqlArg::Blob(be(1_500_000)), SqlArg::Integer(6)).unwrap(), Some(1.5));
}

#[test]
fn accepts_integer_amount() {
    assert_eq!(call(SqlArg::Integer(2_750_000), SqlArg::Integer(6)).unwrap(), Some(2.75));
}

#[test]
fn zero_decimals_is_identity() {
    assert_eq!(call(SqlArg::Blob(be(1_337)), SqlArg::Integer(0)).unwrap(), Some(1337.0));
}

#[test]
fn null_amount_or_decimals_yields_null() {
    assert_eq!(call(SqlArg::Null, SqlArg::Integer(6)).unwrap(), None);
    assert_eq!(call(SqlArg::Blob(be(1_000)), SqlArg::Null).unwrap(), None);
}

#[test]
fn large_value_approximates() {
    // 10^30 base units with 18 decimals -> 10^12.
    let amount = U256::from(10u8).pow(U256::from(30u8)).to_be_bytes::<32>();
    let got = call(SqlArg::Blob(amount.to_vec()), SqlArg::Integer(18))
        .unwrap()
        .unwrap();
    assert!((got - 1e12).abs() < 1e-3, "{got}");
}

#[test]
fn out_of_range_decimals_raises() {
    let err = call(SqlArg::Blob(be(1_000)), SqlArg::Integer(-1)).unwrap_err();
    assert!(err.contains("decimals must be in 0..=77"), "{err}");

    let err = call(SqlArg::Blob(be(1_000)), SqlArg::Integer(78)).unwrap_err();
    assert!(err.contains("decimals must be in 0..=77"), "{err}");
}

#[test]
fn non_integer_decimals_raises() {
    let err = call(SqlArg::Blob(be(1_000)), SqlArg::Real).unwrap_err();
    assert!(err.contains("must be an integer"), "{err}");

    let err = call(SqlArg::Blob(be(1_000)), SqlArg::Text).unwrap_err();
    assert!(err.contains("must be an integer"), "{err}");
}

#[test]
fn operands_are_checked_in_order() {
    // A NULL amount yields NULL before the decimals are looked at.
    assert!(erc20_operands(&SqlArg::Null, &SqlArg::Text).unwrap().is_none());
    // A bad amount raises before the decimals are looked at.
    let err = erc20_operands(&SqlArg::Integer(-2), &SqlArg::Integer(500)).unwrap_err();
    assert_eq!(err.message(), "erc20_to_real: negative integer -2 cannot be a uint256");
    let err = erc20_operands(&SqlArg::Integer(2), &SqlArg::Integer(500)).unwrap_err();
    assert_eq!(err.message(), "erc20_to_real: decimals must be in 0..=77, got 500");
    let (amount, d) = erc20_operands(&SqlArg::Integer(2), &SqlArg::Integer(77)).unwrap().unwrap();
    assert_eq!(amount.to_decimal_string(), "2");
    assert_eq!(d, 77);
}
