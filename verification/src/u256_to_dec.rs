//! Rendering of a uint256 operand as its full-precision decimal string.

use vstd::prelude::*;
use crate::args::{FnError, SqlArg, SqlFunction, arg_to_u256, decode_arg, text_view};
use crate::decimal::{all_digits, decimal, digits_value, lemma_decimal_no_leading_zero, lemma_decimal_reads_back};
use crate::encoding::{lemma_be_value_bound, lemma_pow_positive, lemma_word_modulus, lemma_word_roundtrip};
use crate::uint256::{be_bytes, nat_pow, word_modulus};

verus! {

/// The outcome of `u256_to_dec(x)`: `NULL` for `NULL`, the decimal string of
/// the decoded value, or the decoding error.
pub open spec fn u256_to_dec_spec(x: SqlArg) -> Result<Option<Seq<char>>, FnError> {
    match decode_arg(x, SqlFunction::U256ToDec) {
        Err(e) => Err(e),
        Ok(None) => Ok(None),
        Ok(Some(v)) => Ok(Some(decimal(v))),
    }
}

/// Decodes the argument as a uint256 and returns its decimal string.
pub fn u256_to_dec(x: &SqlArg) -> (r: Result<Option<String>, FnError>)
    ensures
        text_view(r) == u256_to_dec_spec(*x),
{
    match arg_to_u256(x, SqlFunction::U256ToDec)? {
        None => Ok(None),
        Some(value) => Ok(Some(value.to_decimal_string())),
    }
}


/// For an operand that decodes to `v`, `u256_to_dec` gives a string of
/// decimal digits without a leading zero (unless it is `"0"`) that reads
/// back as `v`; so whatever the operand's storage class, the result is the
/// one for the 32-byte BLOB encoding of `v`.
pub proof fn lemma_u256_to_dec_reads_back(x: SqlArg, v: nat, blob: Vec<u8>)
    requires
        decode_arg(x, SqlFunction::U256ToDec) == Ok::<Option<nat>, FnError>(Some(v)),
        blob@ == be_bytes(v, 32),
    ensures
        u256_to_dec_spec(x) matches Ok(Some(s)) && all_digits(s) && digits_value(s) == v && s.len()
            >= 1 && (s[0] == '0' ==> s.len() == 1),
        u256_to_dec_spec(x) == u256_to_dec_spec(SqlArg::Blob(blob)),
{
    lemma_decimal_reads_back(v);
    lemma_decimal_no_leading_zero(v);
    assert(v < word_modulus()) by {
        match x {
            SqlArg::Blob(b) => {
                lemma_be_value_bound(b@);
                lemma_word_modulus();
                lemma_pow_monotone_small(b@.len());
            },
            _ => {},
        }
    }
    lemma_word_roundtrip(v);
    if decimal(v)[0] == '0' {
        assert(v == 0);
    }
}

/// 256^k is at most 256^32 for k <= 32.
proof fn lemma_pow_monotone_small(k: nat)
    requires
        k <= 32,
    ensures
        nat_pow(256, k) <= nat_pow(256, 32),
    decreases 32 - k,
{
    if k < 32 {
        lemma_pow_monotone_small(k + 1);
        lemma_pow_positive(256, k);
    }
}


/// `u256_to_dec` yields `NULL` exactly for a `NULL` operand and raises
/// exactly the error of an invalid one.
pub proof fn lemma_u256_to_dec_null_and_errors(x: SqlArg)
    ensures
        u256_to_dec_spec(x) == Ok::<Option<Seq<char>>, FnError>(None) <==> decode_arg(
            x,
            SqlFunction::U256ToDec,
        ) == Ok::<Option<nat>, FnError>(None),
        u256_to_dec_spec(x) is Err ==> decode_arg(x, SqlFunction::U256ToDec) is Err,
        decode_arg(x, SqlFunction::U256ToDec) matches Err(e) ==> u256_to_dec_spec(x) == Err::<
            Option<Seq<char>>,
            FnError,
        >(e),
{
}

} // verus!
