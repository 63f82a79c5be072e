//! Exact uint256 multiplication of two operands into a 32-byte big-endian BLOB.
//!
//! SQLite's `INTEGER` is signed 64-bit, so a product such as
//! `gas_used * effective_gas_price` overflows a native multiply. A `NULL`
//! operand propagates to `NULL`.

use vstd::prelude::*;
use crate::args::{FnError, SqlArg, SqlFunction, arg_to_u256, blob_view, decode_arg};
use vstd::arithmetic::mul::lemma_mul_is_commutative;
use crate::encoding::lemma_word_roundtrip;
use crate::uint256::{be_bytes, be_value, ruint_checked_mul, ruint_to_be_bytes, word_modulus};

verus! {

/// The outcome of `u256_mul(a, b)`: an error of `a`, else an error of `b`,
/// else `NULL` when either is `NULL`, else the 32-byte big-endian product, or an
/// overflow error when the product exceeds `U256::MAX`.
pub open spec fn u256_mul_spec(a: SqlArg, b: SqlArg) -> Result<Option<Seq<u8>>, FnError> {
    match (decode_arg(a, SqlFunction::U256Mul), decode_arg(b, SqlFunction::U256Mul)) {
        (Err(e), _) => Err(e),
        (Ok(_), Err(e)) => Err(e),
        (Ok(Some(x)), Ok(Some(y))) => if x * y < word_modulus() {
            Ok(Some(be_bytes(x * y, 32)))
        } else {
            Err(FnError::Overflow { func: SqlFunction::U256Mul })
        },
        (Ok(_), Ok(_)) => Ok(None),
    }
}

/// Multiplies two uint256 operands, returning a 32-byte big-endian BLOB.
pub fn u256_mul(a: &SqlArg, b: &SqlArg) -> (r: Result<Option<Vec<u8>>, FnError>)
    ensures
        blob_view(r) == u256_mul_spec(*a, *b),
{
    let a = arg_to_u256(a, SqlFunction::U256Mul)?;
    let b = arg_to_u256(b, SqlFunction::U256Mul)?;
    match (a, b) {
        (Some(a), Some(b)) => match ruint_checked_mul(a, b) {
            Some(product) => Ok(Some(ruint_to_be_bytes(product))),
            None => Err(FnError::Overflow { func: SqlFunction::U256Mul }),
        },
        _ => Ok(None),
    }
}


/// For two operands that decode to numbers `a` and `b`, `u256_mul` gives a
/// 32-byte BLOB that decodes to `a * b` when that is at most `U256::MAX`, and
/// the overflow error otherwise; and it does not depend on the order of the
/// operands.
pub proof fn lemma_u256_mul_is_product(x: SqlArg, y: SqlArg, a: nat, b: nat)
    requires
        decode_arg(x, SqlFunction::U256Mul) == Ok::<Option<nat>, FnError>(Some(a)),
        decode_arg(y, SqlFunction::U256Mul) == Ok::<Option<nat>, FnError>(Some(b)),
    ensures
        a * b < word_modulus() ==> (u256_mul_spec(x, y) matches Ok(Some(s)) && s.len() == 32
            && be_value(s) == a * b),
        a * b >= word_modulus() ==> u256_mul_spec(x, y) == Err::<Option<Seq<u8>>, FnError>(
            FnError::Overflow { func: SqlFunction::U256Mul },
        ),
        u256_mul_spec(x, y) == u256_mul_spec(y, x),
{
    lemma_mul_is_commutative(a as int, b as int);
    if a * b < word_modulus() {
        lemma_word_roundtrip(a * b);
    }
}

/// `u256_mul` yields `NULL` exactly when no operand is invalid and at least
/// one of them is `NULL`.
pub proof fn lemma_u256_mul_null_iff_null_operand(x: SqlArg, y: SqlArg)
    ensures
        u256_mul_spec(x, y) == Ok::<Option<Seq<u8>>, FnError>(None) <==> (
        decode_arg(x, SqlFunction::U256Mul) is Ok && decode_arg(y, SqlFunction::U256Mul) is Ok && (
        decode_arg(x, SqlFunction::U256Mul) == Ok::<Option<nat>, FnError>(None) || decode_arg(
            y,
            SqlFunction::U256Mul,
        ) == Ok::<Option<nat>, FnError>(None))),
{
}

/// `u256_mul` raises the error of its first operand if that one is invalid,
/// else the error of its second operand if that one is invalid.
pub proof fn lemma_u256_mul_error_order(x: SqlArg, y: SqlArg)
    ensures
        decode_arg(x, SqlFunction::U256Mul) matches Err(e) ==> u256_mul_spec(x, y) == Err::<
            Option<Seq<u8>>,
            FnError,
        >(e),
        decode_arg(x, SqlFunction::U256Mul) is Ok ==> (decode_arg(y, SqlFunction::U256Mul) matches Err(e)
            ==> u256_mul_spec(x, y) == Err::<Option<Seq<u8>>, FnError>(e)),
{
}

} // verus!
