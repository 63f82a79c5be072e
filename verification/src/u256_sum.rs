//! The `u256_sum` aggregate: an exact uint256 sum of the operands of a group
//! of rows, as a 32-byte big-endian BLOB.
//!
//! `NULL` operands are skipped; an empty group gives `NULL` (not a zero
//! BLOB); an invalid operand, or a running total past `U256::MAX`, raises.

use vstd::prelude::*;
use crate::args::{FnError, SqlArg, SqlFunction, arg_to_u256, blob_view, decode_arg};
use crate::encoding::lemma_word_roundtrip;
use crate::uint256::{Uint256, be_bytes, be_value, ruint_checked_add, ruint_to_be_bytes, word_modulus};

verus! {

/// One step of the aggregate on the running total `acc`.
pub open spec fn sum_step_spec(acc: nat, arg: SqlArg) -> Result<nat, FnError> {
    match decode_arg(arg, SqlFunction::U256Sum) {
        Err(e) => Err(e),
        Ok(None) => Ok(acc),
        Ok(Some(v)) => if acc + v < word_modulus() {
            Ok(acc + v)
        } else {
            Err(FnError::Overflow { func: SqlFunction::U256Sum })
        },
    }
}

/// The running total after stepping through `rows` in order from zero, or the
/// first error raised on the way.
pub open spec fn sum_fold(rows: Seq<SqlArg>) -> Result<nat, FnError>
    decreases rows.len(),
{
    if rows.len() == 0 {
        Ok(0)
    } else {
        match sum_fold(rows.drop_last()) {
            Err(e) => Err(e),
            Ok(acc) => sum_step_spec(acc, rows.last()),
        }
    }
}

/// The outcome of `u256_sum` over a group of rows.
pub open spec fn u256_sum_spec(rows: Seq<SqlArg>) -> Result<Option<Seq<u8>>, FnError> {
    if rows.len() == 0 {
        Ok(None)
    } else {
        match sum_fold(rows) {
            Err(e) => Err(e),
            Ok(total) => Ok(Some(be_bytes(total, 32))),
        }
    }
}

/// The number an operand contributes to the total (zero for `NULL`).
pub open spec fn operand_amount(arg: SqlArg) -> nat {
    match decode_arg(arg, SqlFunction::U256Sum) {
        Ok(Some(v)) => v,
        _ => 0,
    }
}

/// The mathematical sum of the operands of `rows`.
pub open spec fn operands_total(rows: Seq<SqlArg>) -> nat
    decreases rows.len(),
{
    if rows.len() == 0 {
        0
    } else {
        operands_total(rows.drop_last()) + operand_amount(rows.last())
    }
}

/// Every operand of `rows` is `NULL` or a valid uint256.
pub open spec fn all_operands_valid(rows: Seq<SqlArg>) -> bool {
    forall|i: int| 0 <= i < rows.len() ==> #[trigger] decode_arg(rows[i], SqlFunction::U256Sum) is Ok
}

/// The start of the aggregate: a total of zero.
pub fn sum_init() -> (r: Uint256)
    ensures
        r@ == 0,
{
    Uint256::zero()
}

/// Adds one operand to the running total. On an error the total is left as
/// it was.
pub fn sum_step(acc: &mut Uint256, arg: &SqlArg) -> (r: Result<(), FnError>)
    ensures
        match sum_step_spec(old(acc)@, *arg) {
            Ok(total) => r is Ok && final(acc)@ == total,
            Err(e) => r == Err::<(), FnError>(e) && final(acc)@ == old(acc)@,
        },
{
    if let Some(value) = arg_to_u256(arg, SqlFunction::U256Sum)? {
        match ruint_checked_add(*acc, value) {
            Some(total) => {
                *acc = total;
            },
            None => {
                return Err(FnError::Overflow { func: SqlFunction::U256Sum });
            },
        }
    }
    Ok(())
}

/// The result of the aggregate: `NULL` when no row was stepped, else the
/// total as a 32-byte big-endian BLOB.
pub fn sum_finalize(acc: Option<Uint256>) -> (r: Option<Vec<u8>>)
    ensures
        match acc {
            None => r is None,
            Some(total) => r matches Some(v) && v@ == be_bytes(total@, 32),
        },
{
    match acc {
        None => None,
        Some(total) => Some(ruint_to_be_bytes(total)),
    }
}

/// Once a prefix of the rows raised an error, the whole group raises it.
proof fn lemma_fold_error_persists(rows: Seq<SqlArg>, k: int, e: FnError)
    requires
        0 <= k <= rows.len(),
        sum_fold(rows.take(k)) == Err::<nat, FnError>(e),
    ensures
        sum_fold(rows) == Err::<nat, FnError>(e),
    decreases rows.len() - k,
{
    if k < rows.len() {
        assert(rows.take(k + 1).drop_last() =~= rows.take(k));
        lemma_fold_error_persists(rows, k + 1, e);
    } else {
        assert(rows.take(k) =~= rows);
    }
}

/// Runs the aggregate over a group of rows, the way the host does: no step
/// for an empty group, else a step per row in order, then the result.
pub fn u256_sum(rows: &[SqlArg]) -> (r: Result<Option<Vec<u8>>, FnError>)
    ensures
        blob_view(r) == u256_sum_spec(rows@),
{
    if rows.len() == 0 {
        return Ok(sum_finalize(None));
    }
    let mut acc = sum_init();
    let mut i: usize = 0;
    assert(rows@.take(0) =~= Seq::<SqlArg>::empty());
    while i < rows.len()
        invariant
            0 <= i <= rows@.len(),
            sum_fold(rows@.take(i as int)) == Ok::<nat, FnError>(acc@),
        decreases rows.len() - i,
    {
        let ghost before = acc@;
        let step = sum_step(&mut acc, &rows[i]);
        assert(rows@.take(i + 1).drop_last() =~= rows@.take(i as int));
        assert(rows@.take(i + 1).last() == rows@[i as int]);
        match step {
            Ok(()) => {},
            Err(e) => {
                proof {
                    lemma_fold_error_persists(rows@, i + 1, e);
                }
                return Err(e);
            },
        }
        i = i + 1;
    }
    assert(rows@.take(rows@.len() as int) =~= rows@);
    Ok(sum_finalize(Some(acc)))
}

/// When every operand is valid and their sum fits in a uint256, the
/// aggregate's total is exactly that sum (`NULL` operands count as nothing).
pub proof fn lemma_sum_is_total(rows: Seq<SqlArg>)
    requires
        all_operands_valid(rows),
        operands_total(rows) < word_modulus(),
    ensures
        sum_fold(rows) == Ok::<nat, FnError>(operands_total(rows)),
    decreases rows.len(),
{
    if rows.len() > 0 {
        let front = rows.drop_last();
        assert forall|i: int| 0 <= i < front.len() implies #[trigger] decode_arg(
            front[i],
            SqlFunction::U256Sum,
        ) is Ok by {
            assert(front[i] == rows[i]);
        }
        lemma_sum_is_total(front);
        assert(decode_arg(rows[rows.len() - 1], SqlFunction::U256Sum) is Ok);
    }
}

/// When every operand is valid but their sum exceeds `U256::MAX`, the
/// aggregate raises the overflow error.
pub proof fn lemma_sum_overflow_raises(rows: Seq<SqlArg>)
    requires
        all_operands_valid(rows),
        operands_total(rows) >= word_modulus(),
    ensures
        sum_fold(rows) == Err::<nat, FnError>(FnError::Overflow { func: SqlFunction::U256Sum }),
    decreases rows.len(),
{
    let front = rows.drop_last();
    assert forall|i: int| 0 <= i < front.len() implies #[trigger] decode_arg(
        front[i],
        SqlFunction::U256Sum,
    ) is Ok by {
        assert(front[i] == rows[i]);
    }
    assert(decode_arg(rows[rows.len() - 1], SqlFunction::U256Sum) is Ok);
    if operands_total(front) >= word_modulus() {
        lemma_sum_overflow_raises(front);
    } else {
        lemma_sum_is_total(front);
    }
}

/// The total of a concatenation is the sum of the totals.
proof fn lemma_total_concat(a: Seq<SqlArg>, b: Seq<SqlArg>)
    ensures
        operands_total(a + b) == operands_total(a) + operands_total(b),
    decreases b.len(),
{
    if b.len() == 0 {
        assert(a + b =~= a);
    } else {
        lemma_total_concat(a, b.drop_last());
        assert((a + b).drop_last() =~= a + b.drop_last());
        assert((a + b).last() == b.last());
    }
}

/// Taking one row out of a group takes its operand out of the total.
proof fn lemma_total_remove(rows: Seq<SqlArg>, j: int)
    requires
        0 <= j < rows.len(),
    ensures
        operands_total(rows) == operands_total(rows.remove(j)) + operand_amount(rows[j]),
{
    let front = rows.take(j);
    let back = rows.skip(j + 1);
    let one = seq![rows[j]];
    assert(rows =~= front + one + back);
    assert(rows.remove(j) =~= front + back);
    lemma_total_concat(front + one, back);
    lemma_total_concat(front, one);
    lemma_total_concat(front, back);
    assert(one.drop_last() =~= Seq::<SqlArg>::empty());
    assert(operands_total(Seq::<SqlArg>::empty()) == 0);
    assert(operands_total(one) == operand_amount(rows[j]));
}

/// The total of the operands does not depend on the order of the rows.
pub proof fn lemma_total_order_independent(rows: Seq<SqlArg>, reordered: Seq<SqlArg>)
    requires
        rows.to_multiset() == reordered.to_multiset(),
    ensures
        operands_total(rows) == operands_total(reordered),
    decreases rows.len(),
{
    broadcast use vstd::seq_lib::group_to_multiset_ensures;

    rows.to_multiset_ensures();
    reordered.to_multiset_ensures();
    if rows.len() == 0 {
        assert(reordered.len() == 0);
    } else {
        let x = rows.last();
        let front = rows.drop_last();
        assert(rows =~= front.push(x));
        assert(rows.to_multiset().count(x) > 0);
        assert(reordered.contains(x));
        let j = choose|j: int| 0 <= j < reordered.len() && reordered[j] == x;
        let rest = reordered.remove(j);
        assert(rest.to_multiset() =~= front.to_multiset());
        lemma_total_order_independent(front, rest);
        lemma_total_remove(reordered, j);
    }
}

/// Reordering the rows keeps every operand valid.
proof fn lemma_valid_order_independent(rows: Seq<SqlArg>, reordered: Seq<SqlArg>)
    requires
        rows.to_multiset() == reordered.to_multiset(),
        all_operands_valid(rows),
    ensures
        all_operands_valid(reordered),
{
    broadcast use vstd::seq_lib::group_to_multiset_ensures;

    assert forall|i: int| 0 <= i < reordered.len() implies #[trigger] decode_arg(
        reordered[i],
        SqlFunction::U256Sum,
    ) is Ok by {
        let x = reordered[i];
        assert(reordered.contains(x));
        assert(reordered.to_multiset().count(x) > 0);
        assert(rows.contains(x));
        let k = choose|k: int| 0 <= k < rows.len() && rows[k] == x;
        assert(decode_arg(rows[k], SqlFunction::U256Sum) is Ok);
    }
}

/// When every step succeeds, every operand was valid, their sum fits in a
/// uint256, and the aggregate's total is that sum (so a group of NULLs gives
/// a total of zero).
pub proof fn lemma_sum_success_is_total(rows: Seq<SqlArg>)
    requires
        sum_fold(rows) is Ok,
    ensures
        all_operands_valid(rows),
        operands_total(rows) < word_modulus(),
        sum_fold(rows) == Ok::<nat, FnError>(operands_total(rows)),
    decreases rows.len(),
{
    if rows.len() > 0 {
        let front = rows.drop_last();
        lemma_sum_success_is_total(front);
        assert forall|i: int| 0 <= i < rows.len() implies #[trigger] decode_arg(
            rows[i],
            SqlFunction::U256Sum,
        ) is Ok by {
            if i < rows.len() - 1 {
                assert(rows[i] == front[i]);
            }
        }
    }
}

/// Whatever the order of the rows, a group whose steps all succeed gives the
/// same result: the sum of its operands.
pub proof fn lemma_sum_order_independent(rows: Seq<SqlArg>, reordered: Seq<SqlArg>)
    requires
        rows.to_multiset() == reordered.to_multiset(),
        sum_fold(rows) is Ok,
    ensures
        sum_fold(reordered) == sum_fold(rows),
        u256_sum_spec(reordered) == u256_sum_spec(rows),
{
    broadcast use vstd::seq_lib::group_to_multiset_ensures;

    lemma_sum_success_is_total(rows);
    lemma_total_order_independent(rows, reordered);
    lemma_valid_order_independent(rows, reordered);
    lemma_sum_is_total(reordered);
    rows.to_multiset_ensures();
    reordered.to_multiset_ensures();
    assert(rows.len() == reordered.len());
}


/// `u256_sum` over a group of rows: `NULL` for an empty group; for a
/// non-empty group of valid operands, a 32-byte BLOB that decodes to the sum
/// of the operands when it is at most `U256::MAX`, and the overflow error
/// otherwise.
pub proof fn lemma_u256_sum_is_sum(rows: Seq<SqlArg>)
    ensures
        rows.len() == 0 ==> u256_sum_spec(rows) == Ok::<Option<Seq<u8>>, FnError>(None),
        rows.len() > 0 && all_operands_valid(rows) && operands_total(rows) < word_modulus() ==> (
        u256_sum_spec(rows) matches Ok(Some(s)) && s.len() == 32 && be_value(s) == operands_total(
            rows,
        )),
        rows.len() > 0 && all_operands_valid(rows) && operands_total(rows) >= word_modulus()
            ==> u256_sum_spec(rows) == Err::<Option<Seq<u8>>, FnError>(
            FnError::Overflow { func: SqlFunction::U256Sum },
        ),
{
    if rows.len() > 0 && all_operands_valid(rows) {
        if operands_total(rows) < word_modulus() {
            lemma_sum_is_total(rows);
            lemma_word_roundtrip(operands_total(rows));
        } else {
            lemma_sum_overflow_raises(rows);
        }
    }
}

} // verus!
