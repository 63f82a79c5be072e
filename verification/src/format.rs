//! Display of wei amounts: `format_ether` renders ether with 6 decimals
//! (e.g. `"0.000141 ETH"`) and `format_gwei` renders gwei with 2 decimals
//! (e.g. `"30.00 gwei"`), both rounded half-up with exact integer math, so
//! even large uint256 values render correctly.

use vstd::prelude::*;
use vstd::arithmetic::div_mod::*;
use vstd::arithmetic::mul::*;
use crate::args::{FnError, SqlArg, SqlFunction, arg_to_u256, decode_arg, operand_view, text_view};
use crate::decimal::{
    decimal,
    digits_value,
    lemma_decimal_len_below,
    lemma_decimal_reads_back,
    lemma_zero_padded_reads_back,
    push_zero_padded,
    zero_padded,
};
use crate::encoding::{lemma_pow_add, lemma_pow_positive};
use crate::uint256::{
    Uint256,
    nat_pow,
    ruint_div,
    ruint_eq,
    ruint_from_u64,
    ruint_ge,
    ruint_mul,
    ruint_pow,
    ruint_rem,
    ruint_to_u64,
    ruint_wrapping_add,
    word_modulus,
};

verus! {

/// Decimals of ether: 1 ether is 10^18 wei.
pub const ETHER_DECIMALS: u32 = 18;

/// Decimals of gwei: 1 gwei is 10^9 wei.
pub const GWEI_DECIMALS: u32 = 9;

/// `value / d`, rounded half-up.
pub open spec fn div_round_half_up(value: nat, d: nat) -> nat {
    value / d + if (value % d) * 2 >= d {
        1nat
    } else {
        0nat
    }
}

/// `value / 10^decimals` rendered with `display` decimal places, rounded
/// half-up: the integer part, a `'.'`, and exactly `display` fraction digits.
pub open spec fn units_spec(value: nat, decimals: nat, display: nat) -> Seq<char> {
    let rounded = div_round_half_up(value, nat_pow(10, (decimals - display) as nat));
    decimal(rounded / nat_pow(10, display)) + seq!['.'] + zero_padded(
        rounded % nat_pow(10, display),
        display,
    )
}

proof fn lemma_pow10_monotone(a: nat, b: nat)
    requires
        a <= b,
    ensures
        nat_pow(10, a) <= nat_pow(10, b),
    decreases b,
{
    if a < b {
        lemma_pow10_monotone(a, (b - 1) as nat);
        lemma_pow_positive(10, (b - 1) as nat);
    }
}

/// 10^77 is the largest power of ten below 2^256, twice 10^76 is below
/// 2^256 too, and 10^19 fits in a `u64`.
proof fn lemma_pow10_limits()
    ensures
        nat_pow(10, 77) < word_modulus(),
        nat_pow(10, 76) * 2 < word_modulus(),
        nat_pow(10, 19) <= u64::MAX,
{
    reveal_with_fuel(nat_pow, 20);
    assert(nat_pow(10, 19) == 10_000_000_000_000_000_000nat);
    lemma_pow_add(10, 19, 19);
    assert(nat_pow(10, 38) == 100_000_000_000_000_000_000_000_000_000_000_000_000nat);
    lemma_pow_add(10, 38, 38);
    assert(nat_pow(10, 76) == nat_pow(10, 38) * nat_pow(10, 38));
    assert(nat_pow(10, 77) == 10 * nat_pow(10, 76));
}

/// How the integer and fraction parts of `value / 10^decimals` relate to
/// `value / 10^(decimals - display)`.
proof fn lemma_units_parts(value: nat, decimals: nat, display: nat)
    requires
        display <= decimals <= 77,
        decimals - display <= 76,
        display <= 19,
    ensures
        ({
            let s = nat_pow(10, decimals);
            let d = nat_pow(10, (decimals - display) as nat);
            let q = nat_pow(10, display);
            &&& s == d * q
            &&& s > 0
            &&& d > 0
            &&& q > 0
            &&& s < word_modulus()
            &&& d * 2 < word_modulus()
            &&& q < word_modulus()
            &&& q <= u64::MAX
            &&& (value % s) % d == value % d
            &&& (value % s) / d < q
            &&& value / d == q * (value / s) + (value % s) / d
        }),
{
    let s = nat_pow(10, decimals);
    let d = nat_pow(10, (decimals - display) as nat);
    let q = nat_pow(10, display);
    lemma_pow_add(10, (decimals - display) as nat, display);
    assert((decimals - display) as nat + display == decimals);
    lemma_pow_positive(10, (decimals - display) as nat);
    lemma_pow_positive(10, display);
    lemma_pow_positive(10, decimals);
    lemma_pow10_monotone(decimals, 77);
    lemma_pow10_monotone((decimals - display) as nat, 76);
    lemma_pow10_monotone(display, 19);
    lemma_pow10_monotone(display, 77);
    lemma_pow10_limits();
    let n = value / s;
    let f = value % s;
    lemma_fundamental_div_mod(value as int, s as int);
    lemma_mod_bound(value as int, s as int);
    lemma_fundamental_div_mod(f as int, d as int);
    lemma_mod_bound(f as int, d as int);
    assert((d * q) * n + d * (f / d) == d * (q * n + f / d)) by (nonlinear_arith);
    lemma_fundamental_div_mod_converse(value as int, d as int, (q * n + f / d) as int, (f % d) as int);
    assert(f / d < q) by (nonlinear_arith)
        requires
            f < d * q,
            f == d * (f / d) + f % d,
            0 <= f % d,
            d > 0,
    ;
}

/// Renders `value / 10^decimals` with `display` decimal places, rounded
/// half-up, using exact integer math. (Beyond 77 decimals 10^decimals does
/// not fit in a uint256, and beyond 76 dropped digits twice the dropped
/// remainder may not; the callers use 18 and 9.)
fn format_units(value: Uint256, decimals: u32, display: u32) -> (r: String)
    requires
        display <= decimals <= 77,
        decimals - display <= 76,
        display <= 19,
    ensures
        r@ == units_spec(value@, decimals as nat, display as nat),
{
    let ghost v = value@;
    proof {
        lemma_units_parts(v, decimals as nat, display as nat);
        Uint256::lemma_bounded(value);
    }
    let ghost s = nat_pow(10, decimals as nat);
    let ghost d = nat_pow(10, (decimals - display) as nat);
    let ghost q = nat_pow(10, display as nat);
    let ten = ruint_from_u64(10);
    let scale = ruint_pow(ten, ruint_from_u64(decimals as u64));
    let divisor = ruint_pow(ten, ruint_from_u64((decimals - display) as u64));
    proof {
        lemma_small_mod(s, word_modulus());
        lemma_small_mod(d, word_modulus());
    }
    let mut int_part = ruint_div(value, scale);
    let fractional = ruint_rem(value, scale);
    let mut frac = ruint_div(fractional, divisor);
    let ghost n = int_part@;
    let ghost fr = frac@;
    let ghost rem = (v % s) % d;
    let doubled = ruint_mul(ruint_rem(fractional, divisor), ruint_from_u64(2));
    proof {
        lemma_mod_bound((v % s) as int, d as int);
        lemma_small_mod(rem * 2, word_modulus());
    }
    let rounds = ruint_ge(doubled, divisor);
    if rounds {
        frac = ruint_wrapping_add(frac, ruint_from_u64(1));
        proof {
            lemma_small_mod(fr + 1, word_modulus());
        }
        let full = ruint_pow(ten, ruint_from_u64(display as u64));
        proof {
            lemma_small_mod(q, word_modulus());
        }
        if ruint_eq(frac, full) {
            frac = Uint256::zero();
            proof {
                assert(n + 1 < word_modulus()) by (nonlinear_arith)
                    requires
                        n == v / s,
                        v < word_modulus(),
                        s == d * q,
                        q > 0,
                        d >= 2,
                ;
                lemma_small_mod(n + 1, word_modulus());
            }
            int_part = ruint_wrapping_add(int_part, ruint_from_u64(1));
        }
    }
    let ghost rounded = div_round_half_up(v, d);
    proof {
        assert(rem == v % d);
        assert(doubled@ == rem * 2);
        assert(rounds == (rem * 2 >= d));
        assert(v / d == q * n + fr);
        assert(fr < q);
        if rounds {
            assert(rounded == v / d + 1);
        } else {
            assert(rounded == v / d);
        }
        lemma_mul_is_commutative(q as int, n as int);
        if rounds {
            if fr + 1 == q {
                assert(rounded == q * (n + 1) + 0) by (nonlinear_arith)
                    requires
                        rounded == v / d + 1,
                        v / d == q * n + fr,
                        fr + 1 == q,
                ;
                lemma_mul_is_commutative(q as int, (n + 1) as int);
                lemma_fundamental_div_mod_converse(rounded as int, q as int, (n + 1) as int, 0);
            } else {
                lemma_fundamental_div_mod_converse(rounded as int, q as int, n as int, (fr + 1) as int);
            }
        } else {
            lemma_fundamental_div_mod_converse(rounded as int, q as int, n as int, fr as int);
        }
    }
    let mut out = int_part.to_decimal_string();
    proof {
        reveal_strlit(".");
    }
    out.append(".");
    push_zero_padded(&mut out, ruint_to_u64(frac), display as usize);
    assert(out@ =~= units_spec(v, decimals as nat, display as nat));
    out
}

/// The outcome of `format_ether(x)`: `NULL` for `NULL`, the decoding error,
/// or the wei amount as ether with 6 decimals followed by `" ETH"`.
pub open spec fn format_ether_spec(x: SqlArg) -> Result<Option<Seq<char>>, FnError> {
    match decode_arg(x, SqlFunction::FormatEther) {
        Err(e) => Err(e),
        Ok(None) => Ok(None),
        Ok(Some(wei)) => Ok(Some(units_spec(wei, ETHER_DECIMALS as nat, 6) + " ETH"@)),
    }
}

/// The outcome of `format_gwei(x)`: `NULL` for `NULL`, the decoding error,
/// or the wei amount as gwei with 2 decimals followed by `" gwei"`.
pub open spec fn format_gwei_spec(x: SqlArg) -> Result<Option<Seq<char>>, FnError> {
    match decode_arg(x, SqlFunction::FormatGwei) {
        Err(e) => Err(e),
        Ok(None) => Ok(None),
        Ok(Some(wei)) => Ok(Some(units_spec(wei, GWEI_DECIMALS as nat, 2) + " gwei"@)),
    }
}

/// Renders a wei amount as ether with 6 decimals, e.g. `"0.000141 ETH"`.
pub fn format_ether(x: &SqlArg) -> (r: Result<Option<String>, FnError>)
    ensures
        text_view(r) == format_ether_spec(*x),
{
    match arg_to_u256(x, SqlFunction::FormatEther)? {
        None => Ok(None),
        Some(wei) => {
            let mut out = format_units(wei, ETHER_DECIMALS, 6);
            out.append(" ETH");
            Ok(Some(out))
        },
    }
}

/// Renders a wei amount as gwei with 2 decimals, e.g. `"30.00 gwei"`.
pub fn format_gwei(x: &SqlArg) -> (r: Result<Option<String>, FnError>)
    ensures
        text_view(r) == format_gwei_spec(*x),
{
    match arg_to_u256(x, SqlFunction::FormatGwei)? {
        None => Ok(None),
        Some(wei) => {
            let mut out = format_units(wei, GWEI_DECIMALS, 2);
            out.append(" gwei");
            Ok(Some(out))
        },
    }
}

/// Rounding half-up is off by at most half a unit: with `r` the rounded
/// quotient, `r * d` lies in `(value - d/2, value + d/2]`, so a tie goes up.
/// Equivalently `r` is `(2 * value + d) / (2 * d)`.
pub proof fn lemma_round_half_up_error(value: nat, d: nat)
    requires
        d > 0,
    ensures
        2 * value < 2 * (div_round_half_up(value, d) * d) + d,
        2 * (div_round_half_up(value, d) * d) <= 2 * value + d,
        div_round_half_up(value, d) == (2 * value + d) / (2 * d),
{
    let r = div_round_half_up(value, d);
    let q = value / d;
    let m = value % d;
    lemma_fundamental_div_mod(value as int, d as int);
    lemma_mod_bound(value as int, d as int);
    lemma_mul_is_commutative(d as int, q as int);
    if m * 2 >= d {
        assert(r * d == q * d + d) by (nonlinear_arith)
            requires
                r == q + 1,
        ;
    } else {
        assert(r == q);
    }
    assert(2 * value + d == (2 * d) * r + (2 * value + d - 2 * (r * d))) by (nonlinear_arith);
    lemma_fundamental_div_mod_converse(
        (2 * value + d) as int,
        (2 * d) as int,
        r as int,
        (2 * value + d - 2 * (r * d)) as int,
    );
}

/// Rounding half-up is monotone: a larger value never rounds to less.
pub proof fn lemma_round_half_up_monotone(v1: nat, v2: nat, d: nat)
    requires
        d > 0,
        v1 <= v2,
    ensures
        div_round_half_up(v1, d) <= div_round_half_up(v2, d),
{
    lemma_round_half_up_error(v1, d);
    lemma_round_half_up_error(v2, d);
    lemma_div_is_ordered((2 * v1 + d) as int, (2 * v2 + d) as int, (2 * d) as int);
}

/// With at least one decimal place, the rendering of `value / 10^decimals`
/// is the integer part of the rounded quotient, a `'.'` and exactly
/// `display` fraction digits; the number it reads as is the rounded quotient
/// over 10^display, which is within half of 10^-display of `value /
/// 10^decimals` (a tie rounded up) and grows with `value`.
pub proof fn lemma_units_rendering(value: nat, decimals: nat, display: nat)
    requires
        1 <= display <= decimals <= 77,
        decimals - display <= 76,
        display <= 19,
    ensures
        ({
            let d = nat_pow(10, (decimals - display) as nat);
            let p = nat_pow(10, display);
            let r = div_round_half_up(value, d);
            &&& units_spec(value, decimals, display) == decimal(r / p) + seq!['.'] + zero_padded(
                r % p,
                display,
            )
            &&& zero_padded(r % p, display).len() == display
            &&& 2 * value < 2 * (r * d) + d
            &&& 2 * (r * d) <= 2 * value + d
            &&& forall|w: nat|
                value <= w ==> r <= #[trigger] div_round_half_up(w, d)
        }),
{
    let d = nat_pow(10, (decimals - display) as nat);
    let p = nat_pow(10, display);
    let r = div_round_half_up(value, d);
    lemma_units_parts(value, decimals, display);
    lemma_round_half_up_error(value, d);
    lemma_mod_bound(r as int, p as int);
    lemma_decimal_len_below(r % p, display);
    assert forall|w: nat| value <= w implies r <= #[trigger] div_round_half_up(w, d) by {
        lemma_round_half_up_monotone(value, w, d);
    }
}

/// The checked operands of `format_usd(x, price)`: an error of the amount;
/// `NULL` for a `NULL` amount; then `NULL` for a `NULL` price, the amount for
/// a `REAL` or `INTEGER` price, and an error for any other price.
pub open spec fn format_usd_operands_spec(amount: SqlArg, price: SqlArg) -> Result<Option<nat>, FnError> {
    match decode_arg(amount, SqlFunction::FormatUsd) {
        Err(e) => Err(e),
        Ok(None) => Ok(None),
        Ok(Some(wei)) => match price {
            SqlArg::Null => Ok(None),
            SqlArg::Real => Ok(Some(wei)),
            SqlArg::Integer(_) => Ok(Some(wei)),
            other => Err(FnError::PriceNotNumeric { found: other.data_type() }),
        },
    }
}

/// Checks and decodes the operands of `format_usd`; the caller converts the
/// amount and price, which is approximate, in floating point.
pub fn format_usd_operands(amount: &SqlArg, price: &SqlArg) -> (r: Result<Option<Uint256>, FnError>)
    ensures
        operand_view(r) == format_usd_operands_spec(*amount, *price),
{
    let wei = match arg_to_u256(amount, SqlFunction::FormatUsd)? {
        None => return Ok(None),
        Some(wei) => wei,
    };
    match price {
        SqlArg::Null => Ok(None),
        SqlArg::Real => Ok(Some(wei)),
        SqlArg::Integer(_) => Ok(Some(wei)),
        other => Err(FnError::PriceNotNumeric { found: other.sql_type() }),
    }
}


/// For an amount that decodes to `w` wei, `format_gwei` renders the rounded
/// number of hundredths of a gwei `r = (2*w + 10^7) / (2*10^7)`: the digits
/// of `r / 100`, a `'.'`, the two digits of `r % 100`, and `" gwei"`. That
/// number of hundredths is within half a hundredth of `w / 10^9`, a tie
/// rounded up.
pub proof fn lemma_format_gwei_rounds(x: SqlArg, w: nat)
    requires
        decode_arg(x, SqlFunction::FormatGwei) == Ok::<Option<nat>, FnError>(Some(w)),
    ensures
        ({
            let r = (2 * w + 10_000_000) / 20_000_000;
            &&& format_gwei_spec(x) == Ok::<Option<Seq<char>>, FnError>(
                Some(decimal(r / 100) + seq!['.'] + zero_padded(r % 100, 2) + " gwei"@),
            )
            &&& zero_padded(r % 100, 2).len() == 2
            &&& digits_value(decimal(r / 100)) * 100 + digits_value(zero_padded(r % 100, 2)) == r
            &&& 2 * w < 2 * (r * 10_000_000) + 10_000_000
            &&& 2 * (r * 10_000_000) <= 2 * w + 10_000_000
        }),
{
    reveal_with_fuel(nat_pow, 8);
    assert(nat_pow(10, 7) == 10_000_000);
    assert(nat_pow(10, 2) == 100);
    lemma_units_rendering(w, 9, 2);
    lemma_round_half_up_error(w, 10_000_000);
    let r = (2 * w + 10_000_000) / 20_000_000;
    lemma_decimal_reads_back(r / 100);
    lemma_zero_padded_reads_back(r % 100, 2);
    lemma_fundamental_div_mod(r as int, 100);
}

/// For an amount that decodes to `w` wei, `format_ether` renders the rounded
/// number of millionths of an ether `r = (2*w + 10^12) / (2*10^12)`: the
/// digits of `r / 10^6`, a `'.'`, the six digits of `r % 10^6`, and
/// `" ETH"`. That number of millionths is within half a millionth of
/// `w / 10^18`, a tie rounded up.
pub proof fn lemma_format_ether_rounds(x: SqlArg, w: nat)
    requires
        decode_arg(x, SqlFunction::FormatEther) == Ok::<Option<nat>, FnError>(Some(w)),
    ensures
        ({
            let r = (2 * w + 1_000_000_000_000) / 2_000_000_000_000;
            &&& format_ether_spec(x) == Ok::<Option<Seq<char>>, FnError>(
                Some(decimal(r / 1_000_000) + seq!['.'] + zero_padded(r % 1_000_000, 6) + " ETH"@),
            )
            &&& zero_padded(r % 1_000_000, 6).len() == 6
            &&& digits_value(decimal(r / 1_000_000)) * 1_000_000 + digits_value(
                zero_padded(r % 1_000_000, 6),
            ) == r
            &&& 2 * w < 2 * (r * 1_000_000_000_000) + 1_000_000_000_000
            &&& 2 * (r * 1_000_000_000_000) <= 2 * w + 1_000_000_000_000
        }),
{
    reveal_with_fuel(nat_pow, 13);
    assert(nat_pow(10, 12) == 1_000_000_000_000);
    assert(nat_pow(10, 6) == 1_000_000);
    lemma_units_rendering(w, 18, 6);
    lemma_round_half_up_error(w, 1_000_000_000_000);
    let r = (2 * w + 1_000_000_000_000) / 2_000_000_000_000;
    lemma_decimal_reads_back(r / 1_000_000);
    lemma_zero_padded_reads_back(r % 1_000_000, 6);
    lemma_fundamental_div_mod(r as int, 1_000_000);
}

/// For an amount that decodes to `w` and a `REAL` or `INTEGER` price, the
/// operand is `w`.
pub proof fn lemma_format_usd_operands_valid(amount: SqlArg, price: SqlArg, w: nat)
    requires
        decode_arg(amount, SqlFunction::FormatUsd) == Ok::<Option<nat>, FnError>(Some(w)),
        price is Real || price is Integer,
    ensures
        format_usd_operands_spec(amount, price) == Ok::<Option<nat>, FnError>(Some(w)),
{
}

/// The operand is `NULL` only when the amount or the price is `NULL`.
pub proof fn lemma_format_usd_null_only_for_null(amount: SqlArg, price: SqlArg)
    ensures
        format_usd_operands_spec(amount, price) == Ok::<Option<nat>, FnError>(None) ==> (
        decode_arg(amount, SqlFunction::FormatUsd) == Ok::<Option<nat>, FnError>(None)
            || price is Null),
{
}


/// With an amount that decodes to a number, a price that is neither `NULL`,
/// `REAL` nor `INTEGER` raises the price error.
pub proof fn lemma_format_usd_bad_price_raises(amount: SqlArg, price: SqlArg, w: nat)
    requires
        decode_arg(amount, SqlFunction::FormatUsd) == Ok::<Option<nat>, FnError>(Some(w)),
        price is Text || price is Blob,
    ensures
        format_usd_operands_spec(amount, price) == Err::<Option<nat>, FnError>(
            FnError::PriceNotNumeric { found: price.data_type() },
        ),
{
}

/// `format_ether` and `format_gwei` yield `NULL` exactly for a `NULL` amount
/// and raise exactly the error of an invalid one.
pub proof fn lemma_format_null_and_errors(x: SqlArg)
    ensures
        format_ether_spec(x) == Ok::<Option<Seq<char>>, FnError>(None) <==> decode_arg(
            x,
            SqlFunction::FormatEther,
        ) == Ok::<Option<nat>, FnError>(None),
        format_gwei_spec(x) == Ok::<Option<Seq<char>>, FnError>(None) <==> decode_arg(
            x,
            SqlFunction::FormatGwei,
        ) == Ok::<Option<nat>, FnError>(None),
        format_ether_spec(x) is Err ==> decode_arg(x, SqlFunction::FormatEther) is Err,
        decode_arg(x, SqlFunction::FormatEther) matches Err(e) ==> format_ether_spec(x) == Err::<
            Option<Seq<char>>,
            FnError,
        >(e),
        format_gwei_spec(x) is Err ==> decode_arg(x, SqlFunction::FormatGwei) is Err,
        decode_arg(x, SqlFunction::FormatGwei) matches Err(e) ==> format_gwei_spec(x) == Err::<
            Option<Seq<char>>,
            FnError,
        >(e),
{
}

} // verus!
