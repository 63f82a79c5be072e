//! A 256-bit unsigned integer held as four little-endian 64-bit limbs.
//!
//! The arithmetic itself is done by `ruint`; this module fixes what each call
//! computes, in terms of the mathematical value of its operands.

use vstd::prelude::*;
use ruint::aliases::U256;
use crate::decimal::decimal;

verus! {

/// 2^64, the weight of one limb.
pub open spec fn limb_base() -> nat {
    0x1_0000_0000_0000_0000nat
}

/// 2^256: one more than the largest uint256.
pub open spec fn word_modulus() -> nat {
    0x1_0000_0000_0000_0000_0000_0000_0000_0000_0000_0000_0000_0000_0000_0000_0000_0000nat
}

/// `base` raised to `exp`.
pub open spec fn nat_pow(base: nat, exp: nat) -> nat
    decreases exp,
{
    if exp == 0 {
        1
    } else {
        base * nat_pow(base, (exp - 1) as nat)
    }
}

/// The number that a big-endian byte string denotes.
pub open spec fn be_value(bytes: Seq<u8>) -> nat
    decreases bytes.len(),
{
    if bytes.len() == 0 {
        0
    } else {
        be_value(bytes.drop_last()) * 256 + bytes.last() as nat
    }
}

/// The `len` lowest bytes of `n`, most significant first.
pub open spec fn be_bytes(n: nat, len: nat) -> Seq<u8>
    decreases len,
{
    if len == 0 {
        Seq::empty()
    } else {
        be_bytes(n / 256, (len - 1) as nat).push((n % 256) as u8)
    }
}

/// A uint256 value.
#[derive(Clone, Copy, Debug)]
pub struct Uint256 {
    limbs: [u64; 4],
}

impl View for Uint256 {
    type V = nat;

    closed spec fn view(&self) -> nat {
        self.limbs[0] as nat + self.limbs[1] as nat * 0x1_0000_0000_0000_0000nat
            + self.limbs[2] as nat * 0x1_0000_0000_0000_0000_0000_0000_0000_0000nat
            + self.limbs[3] as nat * 0x1_0000_0000_0000_0000_0000_0000_0000_0000_0000_0000_0000_0000nat
    }
}

impl Uint256 {
    /// Every value is below 2^256.
    pub proof fn lemma_bounded(x: Uint256)
        ensures
            x@ < word_modulus(),
    {
    }

    /// The decimal representation of the value, e.g. `"2014847014830705"`.
    pub fn to_decimal_string(&self) -> (r: String)
        ensures
            r@ == decimal(self@),
    {
        ruint_to_string(*self)
    }

    /// The value zero.
    pub fn zero() -> (r: Uint256)
        ensures
            r@ == 0,
    {
        Uint256 { limbs: [0u64, 0u64, 0u64, 0u64] }
    }
}

/// `ruint::Uint::from` on a `u64`: the value `n`.
#[verifier::external_body]
pub(crate) fn ruint_from_u64(n: u64) -> (r: Uint256)
    ensures
        r@ == n,
{
    Uint256 { limbs: U256::from(n).into_limbs() }
}

/// `ruint::Uint::from_be_slice`: the big-endian value of at most 32 bytes
/// (a longer slice makes it panic).
#[verifier::external_body]
pub(crate) fn ruint_from_be_slice(bytes: &[u8]) -> (r: Uint256)
    requires
        bytes@.len() <= 32,
    ensures
        r@ == be_value(bytes@),
{
    Uint256 { limbs: U256::from_be_slice(bytes).into_limbs() }
}

/// `ruint::Uint::to_be_bytes::<32>`: the 32 big-endian bytes of the value.
#[verifier::external_body]
pub(crate) fn ruint_to_be_bytes(x: Uint256) -> (r: Vec<u8>)
    ensures
        r@ == be_bytes(x@, 32),
{
    U256::from_limbs(x.limbs).to_be_bytes::<32>().to_vec()
}

/// `ruint::Uint::checked_add`: the sum, or `None` when it reaches 2^256.
#[verifier::external_body]
pub(crate) fn ruint_checked_add(a: Uint256, b: Uint256) -> (r: Option<Uint256>)
    ensures
        match r {
            Some(s) => a@ + b@ < word_modulus() && s@ == a@ + b@,
            None => a@ + b@ >= word_modulus(),
        },
{
    match U256::from_limbs(a.limbs).checked_add(U256::from_limbs(b.limbs)) {
        Some(s) => Some(Uint256 { limbs: s.into_limbs() }),
        None => None,
    }
}

/// `ruint::Uint::checked_mul`: the product, or `None` when it reaches 2^256.
#[verifier::external_body]
pub(crate) fn ruint_checked_mul(a: Uint256, b: Uint256) -> (r: Option<Uint256>)
    ensures
        match r {
            Some(p) => a@ * b@ < word_modulus() && p@ == a@ * b@,
            None => a@ * b@ >= word_modulus(),
        },
{
    match U256::from_limbs(a.limbs).checked_mul(U256::from_limbs(b.limbs)) {
        Some(p) => Some(Uint256 { limbs: p.into_limbs() }),
        None => None,
    }
}

/// `ruint::Uint::wrapping_add` (also what `+` and `+=` do): the sum modulo 2^256.
#[verifier::external_body]
pub(crate) fn ruint_wrapping_add(a: Uint256, b: Uint256) -> (r: Uint256)
    ensures
        r@ == (a@ + b@) % word_modulus(),
{
    Uint256 { limbs: U256::from_limbs(a.limbs).wrapping_add(U256::from_limbs(b.limbs)).into_limbs() }
}

/// `*` on `ruint::Uint` (`wrapping_mul`): the product modulo 2^256.
#[verifier::external_body]
pub(crate) fn ruint_mul(a: Uint256, b: Uint256) -> (r: Uint256)
    ensures
        r@ == (a@ * b@) % word_modulus(),
{
    Uint256 { limbs: (U256::from_limbs(a.limbs) * U256::from_limbs(b.limbs)).into_limbs() }
}

/// `/` on `ruint::Uint`: the quotient rounded down (a zero divisor panics).
#[verifier::external_body]
pub(crate) fn ruint_div(a: Uint256, b: Uint256) -> (r: Uint256)
    requires
        b@ != 0,
    ensures
        r@ == a@ / b@,
{
    Uint256 { limbs: (U256::from_limbs(a.limbs) / U256::from_limbs(b.limbs)).into_limbs() }
}

/// `%` on `ruint::Uint`: the remainder (a zero divisor panics).
#[verifier::external_body]
pub(crate) fn ruint_rem(a: Uint256, b: Uint256) -> (r: Uint256)
    requires
        b@ != 0,
    ensures
        r@ == a@ % b@,
{
    Uint256 { limbs: (U256::from_limbs(a.limbs) % U256::from_limbs(b.limbs)).into_limbs() }
}

/// `ruint::Uint::pow` (`wrapping_pow`): `base^exp` modulo 2^256.
#[verifier::external_body]
pub(crate) fn ruint_pow(base: Uint256, exp: Uint256) -> (r: Uint256)
    ensures
        r@ == nat_pow(base@, exp@) % word_modulus(),
{
    Uint256 { limbs: U256::from_limbs(base.limbs).pow(U256::from_limbs(exp.limbs)).into_limbs() }
}

/// `>=` on `ruint::Uint`: numeric comparison.
#[verifier::external_body]
pub(crate) fn ruint_ge(a: Uint256, b: Uint256) -> (r: bool)
    ensures
        r == (a@ >= b@),
{
    U256::from_limbs(a.limbs) >= U256::from_limbs(b.limbs)
}

/// `==` on `ruint::Uint`: numeric equality.
#[verifier::external_body]
pub(crate) fn ruint_eq(a: Uint256, b: Uint256) -> (r: bool)
    ensures
        r == (a@ == b@),
{
    U256::from_limbs(a.limbs) == U256::from_limbs(b.limbs)
}

/// `ruint::Uint::to::<u64>`: the value as a `u64` (it panics when the value
/// does not fit).
#[verifier::external_body]
pub(crate) fn ruint_to_u64(x: Uint256) -> (r: u64)
    requires
        x@ <= u64::MAX,
    ensures
        r == x@,
{
    U256::from_limbs(x.limbs).to::<u64>()
}

/// `to_string` on `ruint::Uint` (its `Display`): the decimal digits of the
/// value, most significant first, without leading zeros.
#[verifier::external_body]
pub(crate) fn ruint_to_string(x: Uint256) -> (r: String)
    ensures
        r@ == decimal(x@),
{
    U256::from_limbs(x.limbs).to_string()
}

} // verus!
