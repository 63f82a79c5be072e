//! The older form of the `u256_sum` aggregate: it sums only operands that are
//! BLOBs of exactly 32 bytes, skips every other operand rather than raising,
//! and wraps around at 2^256 instead of raising on overflow.

use vstd::prelude::*;
use vstd::arithmetic::div_mod::*;
use crate::args::SqlArg;
use crate::u256_sum::{sum_finalize, sum_init};
use crate::uint256::{
    Uint256,
    be_bytes,
    be_value,
    ruint_from_be_slice,
    ruint_wrapping_add,
    word_modulus,
};

verus! {

/// The number an operand contributes: the value of a 32-byte BLOB, else zero.
pub open spec fn word_blob_amount(arg: SqlArg) -> nat {
    match arg {
        SqlArg::Blob(b) => if b@.len() == 32 {
            be_value(b@)
        } else {
            0
        },
        _ => 0,
    }
}

/// One step of the wrapping aggregate on the running total `acc`.
pub open spec fn wrapping_step_spec(acc: nat, arg: SqlArg) -> nat {
    match arg {
        SqlArg::Blob(b) => if b@.len() == 32 {
            (acc + be_value(b@)) % word_modulus()
        } else {
            acc
        },
        _ => acc,
    }
}

/// The running total after stepping through `rows` in order from zero.
pub open spec fn wrapping_fold(rows: Seq<SqlArg>) -> nat
    decreases rows.len(),
{
    if rows.len() == 0 {
        0
    } else {
        wrapping_step_spec(wrapping_fold(rows.drop_last()), rows.last())
    }
}

/// The mathematical sum of the 32-byte BLOB operands of `rows`.
pub open spec fn word_blobs_total(rows: Seq<SqlArg>) -> nat
    decreases rows.len(),
{
    if rows.len() == 0 {
        0
    } else {
        word_blobs_total(rows.drop_last()) + word_blob_amount(rows.last())
    }
}

/// Adds a 32-byte BLOB operand to the running total modulo 2^256; any other
/// operand leaves it as it is.
pub fn wrapping_sum_step(acc: &mut Uint256, arg: &SqlArg)
    ensures
        final(acc)@ == wrapping_step_spec(old(acc)@, *arg),
{
    if let SqlArg::Blob(b) = arg {
        if b.len() == 32 {
            *acc = ruint_wrapping_add(*acc, ruint_from_be_slice(b.as_slice()));
        }
    }
}

/// Runs the wrapping aggregate over a group of rows: `NULL` for an empty
/// group, else the 32-byte big-endian total.
pub fn u256_wrapping_sum(rows: &[SqlArg]) -> (r: Option<Vec<u8>>)
    ensures
        rows@.len() == 0 ==> r is None,
        rows@.len() > 0 ==> (r matches Some(v) && v@ == be_bytes(wrapping_fold(rows@), 32)),
{
    if rows.len() == 0 {
        return sum_finalize(None);
    }
    let mut acc = sum_init();
    let mut i: usize = 0;
    assert(rows@.take(0) =~= Seq::<SqlArg>::empty());
    while i < rows.len()
        invariant
            0 <= i <= rows@.len(),
            acc@ == wrapping_fold(rows@.take(i as int)),
        decreases rows.len() - i,
    {
        wrapping_sum_step(&mut acc, &rows[i]);
        assert(rows@.take(i + 1).drop_last() =~= rows@.take(i as int));
        i = i + 1;
    }
    assert(rows@.take(rows@.len() as int) =~= rows@);
    sum_finalize(Some(acc))
}

/// The wrapping aggregate's total is the sum of the 32-byte BLOB operands
/// modulo 2^256.
pub proof fn lemma_wrapping_sum_is_total_mod(rows: Seq<SqlArg>)
    ensures
        wrapping_fold(rows) == word_blobs_total(rows) % word_modulus(),
    decreases rows.len(),
{
    if rows.len() == 0 {
        lemma_small_mod(0, word_modulus());
    } else {
        let front = rows.drop_last();
        lemma_wrapping_sum_is_total_mod(front);
        let t = word_blobs_total(front);
        let v = word_blob_amount(rows.last());
        match rows.last() {
            SqlArg::Blob(b) => {
                if b@.len() == 32 {
                    crate::encoding::lemma_be_value_bound(b@);
                    crate::encoding::lemma_word_modulus();
                }
            },
            _ => {},
        }
        lemma_add_mod_noop(t as int, v as int, word_modulus() as int);
        lemma_small_mod(v, word_modulus());
        lemma_mod_twice(t as int, word_modulus() as int);
    }
}

} // verus!
