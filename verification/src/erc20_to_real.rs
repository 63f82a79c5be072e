//! The operands of `erc20_to_real(amount, decimals)`, which divides a uint256
//! token amount by `10^decimals` (e.g. USDC has 6 decimals, so `1500000`
//! means `1.5`). The division itself is approximate, in floating point, and
//! is done by the caller from the operands checked here.

use vstd::prelude::*;
use crate::args::{FnError, SqlArg, SqlFunction, arg_to_u256, decode_arg};
use crate::uint256::Uint256;

verus! {

/// The largest number of decimals: 10^78 exceeds `U256::MAX`, so larger
/// scales are nonsensical.
pub const MAX_DECIMALS: i64 = 77;

/// The checked operands of `erc20_to_real`: an error of the amount; `NULL`
/// for a `NULL` amount; then `NULL` for `NULL` decimals, the amount and the
/// decimals for an `INTEGER` in `0..=77`, and an error for any other
/// decimals.
pub open spec fn erc20_operands_spec(amount: SqlArg, decimals: SqlArg) -> Result<
    Option<(nat, u32)>,
    FnError,
> {
    match decode_arg(amount, SqlFunction::Erc20ToReal) {
        Err(e) => Err(e),
        Ok(None) => Ok(None),
        Ok(Some(a)) => match decimals {
            SqlArg::Null => Ok(None),
            SqlArg::Integer(d) => if 0 <= d <= MAX_DECIMALS {
                Ok(Some((a, d as u32)))
            } else {
                Err(FnError::DecimalsOutOfRange { value: d })
            },
            other => Err(FnError::DecimalsNotInteger { found: other.data_type() }),
        },
    }
}

/// The numbers inside checked operands.
pub open spec fn operands_view(r: Result<Option<(Uint256, u32)>, FnError>) -> Result<
    Option<(nat, u32)>,
    FnError,
> {
    match r {
        Ok(Some((a, d))) => Ok(Some((a@, d))),
        Ok(None) => Ok(None),
        Err(e) => Err(e),
    }
}

/// Checks and decodes the operands of `erc20_to_real`.
pub fn erc20_operands(amount: &SqlArg, decimals: &SqlArg) -> (r: Result<
    Option<(Uint256, u32)>,
    FnError,
>)
    ensures
        operands_view(r) == erc20_operands_spec(*amount, *decimals),
{
    let amount = match arg_to_u256(amount, SqlFunction::Erc20ToReal)? {
        None => return Ok(None),
        Some(amount) => amount,
    };
    match decimals {
        SqlArg::Null => Ok(None),
        SqlArg::Integer(d) => {
            if 0 <= *d && *d <= MAX_DECIMALS {
                Ok(Some((amount, *d as u32)))
            } else {
                Err(FnError::DecimalsOutOfRange { value: *d })
            }
        },
        other => Err(FnError::DecimalsNotInteger { found: other.sql_type() }),
    }
}


/// For an amount that decodes to `a` and `INTEGER` decimals `d` in `0..=77`,
/// the operands are `a` and `d`.
pub proof fn lemma_erc20_operands_valid(amount: SqlArg, a: nat, d: i64)
    requires
        decode_arg(amount, SqlFunction::Erc20ToReal) == Ok::<Option<nat>, FnError>(Some(a)),
        0 <= d <= 77,
    ensures
        erc20_operands_spec(amount, SqlArg::Integer(d)) == Ok::<Option<(nat, u32)>, FnError>(
            Some((a, d as u32)),
        ),
{
}

/// The operands are `NULL` only when the amount or the decimals are `NULL`.
pub proof fn lemma_erc20_null_only_for_null(amount: SqlArg, decimals: SqlArg)
    ensures
        erc20_operands_spec(amount, decimals) == Ok::<Option<(nat, u32)>, FnError>(None) ==> (
        decode_arg(amount, SqlFunction::Erc20ToReal) == Ok::<Option<nat>, FnError>(None)
            || decimals is Null),
{
}


/// With an amount that decodes to a number, decimals outside `0..=77` raise
/// the range error, and decimals that are neither `NULL` nor an `INTEGER`
/// raise the type error.
pub proof fn lemma_erc20_bad_decimals_raise(amount: SqlArg, decimals: SqlArg, a: nat, d: i64)
    requires
        decode_arg(amount, SqlFunction::Erc20ToReal) == Ok::<Option<nat>, FnError>(Some(a)),
    ensures
        d < 0 || d > 77 ==> erc20_operands_spec(amount, SqlArg::Integer(d)) == Err::<
            Option<(nat, u32)>,
            FnError,
        >(FnError::DecimalsOutOfRange { value: d }),
        (decimals is Real || decimals is Text || decimals is Blob) ==> erc20_operands_spec(
            amount,
            decimals,
        ) == Err::<Option<(nat, u32)>, FnError>(
            FnError::DecimalsNotInteger { found: decimals.data_type() },
        ),
{
}

} // verus!
