use evm_sqlite::args::SqlArg;
use evm_sqlite::format::{format_ether, format_gwei, format_usd_operands};
use ruint::aliases::U256;

fn be(n: u128) -> Vec<u8> {
    U256::from(n).to_be_bytes::<32>().to_vec()
}

#[test]
fn ether_formats_six_decimals() {
    // 141166860953425 wei -> 0.000141 ETH.
    assert_eq!(
        format_ether(&SqlArg::Blob(be(141_166_860_953_425))).unwrap(),
        Some("0.000141 ETH".to_string())
    );
    assert_eq!(
        format_ether(&SqlArg::Blob(be(1_000_000_000_000_000_000))).unwrap(),
        Some("1.000000 ETH".to_string())
    );
}

#[test]
fn ether_rounds_large_values_exactly() {
    // 10000000.000002501 ETH rounds to 6 dp as ...000003.
    assert_eq!(
        format_ether(&SqlArg::Blob(be(10_000_000_000_002_501_000_000_000))).unwrap(),
        Some("10000000.000003 ETH".to_string())
    );
}

#[test]
fn gwei_formats_two_decimals() {
    assert_eq!(
        format_gwei(&SqlArg::Integer(30_000_000_000)).unwrap(),
        Some("30.00 gwei".to_string())
    );
}

#[test]
fn null_amount_yields_null() {
    assert_eq!(format_ether(&SqlArg::Null).unwrap(), None);
    assert_eq!(format_gwei(&SqlArg::Null).unwrap(), None);
}

#[test]
fn ether_rounding_carries_into_integer_part() {
    // 0.9999995 ETH rounds half-up to 1.000000.
    assert_eq!(
        format_ether(&SqlArg::Integer(999_999_500_000_000_000)).unwrap(),
        Some("1.000000 ETH".to_string())
    );
    // Just below the half rounds down.
    assert_eq!(
        format_ether(&SqlArg::Integer(999_999_499_999_999_999)).unwrap(),
        Some("0.999999 ETH".to_string())
    );
}

#[test]
fn gwei_rounds_half_up() {
    assert_eq!(
        format_gwei(&SqlArg::Integer(1_005_000_000)).unwrap(),
        Some("1.01 gwei".to_string())
    );
    assert_eq!(
        format_gwei(&SqlArg::Integer(1_004_999_999)).unwrap(),
        Some("1.00 gwei".to_string())
    );
    assert_eq!(format_gwei(&SqlArg::Integer(0)).unwrap(), Some("0.00 gwei".to_string()));
}

#[test]
fn ether_of_u256_max() {
    let max = U256::MAX.to_be_bytes::<32>().to_vec();
    let scale = U256::from(10u8).pow(U256::from(18u8));
    let int_part = U256::MAX / scale;
    // The fraction of MAX is .584007913129639935, which rounds to .584008.
    assert_eq!(
        format_ether(&SqlArg::Blob(max)).unwrap(),
        Some(format!("{int_part}.584008 ETH"))
    );
}

#[test]
fn format_errors_name_the_function() {
    let err = format_ether(&SqlArg::Integer(-3)).unwrap_err();
    assert_eq!(err.message(), "format_ether: negative integer -3 cannot be a uint256");
    let err = format_gwei(&SqlArg::Real).unwrap_err();
    assert_eq!(
        err.message(),
        "format_gwei: expected an integer or a blob of at most 32 bytes, got Real"
    );
}

/// The text the host renders from the checked operands: `"$"` and the amount
/// in ether times the price, with 2 decimals.
fn usd(amount: SqlArg, price: Option<f64>) -> Result<Option<String>, String> {
    let price_arg = match price {
        None => SqlArg::Null,
        Some(_) => SqlArg::Real,
    };
    match format_usd_operands(&amount, &price_arg) {
        Err(e) => Err(e.message()),
        Ok(None) => Ok(None),
        Ok(Some(wei)) => {
            let ether = wei.to_decimal_string().parse::<f64>().unwrap_or(f64::INFINITY) / 1e18;
            Ok(Some(format!("${:.2}", ether * price.unwrap())))
        }
    }
}

#[test]
fn usd_prefixes_dollar_and_rounds() {
    // 0.000141166860953425 ETH * 2500.5 = $0.35.
    assert_eq!(
        usd(SqlArg::Blob(be(141_166_860_953_425)), Some(2500.5)).unwrap(),
        Some("$0.35".to_string())
    );
}

#[test]
fn usd_null_amount_or_price_yields_null() {
    assert_eq!(usd(SqlArg::Null, Some(2500.5)).unwrap(), None);
    assert_eq!(usd(SqlArg::Blob(be(1_000)), None).unwrap(), None);
}

#[test]
fn usd_operand_checks() {
    assert!(format_usd_operands(&SqlArg::Integer(5), &SqlArg::Integer(3)).unwrap().is_some());
    // A NULL amount yields NULL before the price is looked at.
    assert!(format_usd_operands(&SqlArg::Null, &SqlArg::Text).unwrap().is_none());
    let err = format_usd_operands(&SqlArg::Integer(5), &SqlArg::Text).unwrap_err();
    assert_eq!(err.message(), "format_usd: price must be a real or integer, got Text");
    let err = format_usd_operands(&SqlArg::Blob(vec![0u8; 40]), &SqlArg::Real).unwrap_err();
    assert_eq!(
        err.message(),
        "format_usd: blob too large, expected <= 32 bytes, got 40"
    );
}
