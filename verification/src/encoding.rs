//! Facts about the big-endian byte encoding of numbers: decoding what was
//! encoded gives the number back, leading zero bytes do not change a value,
//! and byte order equals numeric order.

use vstd::prelude::*;
use vstd::arithmetic::div_mod::*;
use vstd::arithmetic::mul::*;
use crate::uint256::{be_bytes, be_value, nat_pow, word_modulus};

verus! {

/// `a` comes before `b` in byte order (the order of `memcmp` on strings of
/// one length).
pub open spec fn lex_lt(a: Seq<u8>, b: Seq<u8>) -> bool {
    exists|i: int|
        0 <= i < a.len() && i < b.len() && #[trigger] a.take(i) == b.take(i) && a[i] < b[i]
}

/// `k` zero bytes.
pub open spec fn zero_bytes(k: nat) -> Seq<u8> {
    Seq::new(k, |i: int| 0u8)
}

pub proof fn lemma_pow_positive(base: nat, exp: nat)
    requires
        base > 0,
    ensures
        nat_pow(base, exp) > 0,
    decreases exp,
{
    if exp > 0 {
        lemma_pow_positive(base, (exp - 1) as nat);
        lemma_mul_strictly_positive(base as int, nat_pow(base, (exp - 1) as nat) as int);
    }
}

pub proof fn lemma_pow_add(base: nat, m: nat, n: nat)
    ensures
        nat_pow(base, m + n) == nat_pow(base, m) * nat_pow(base, n),
    decreases m,
{
    if m > 0 {
        lemma_pow_add(base, (m - 1) as nat, n);
        assert(nat_pow(base, m + n) == base * nat_pow(base, ((m - 1) + n) as nat));
        lemma_mul_is_associative(
            base as int,
            nat_pow(base, (m - 1) as nat) as int,
            nat_pow(base, n) as int,
        );
    } else {
        assert(nat_pow(base, 0) == 1);
        assert(m + n == n);
    }
}

pub proof fn lemma_word_modulus()
    ensures
        nat_pow(256, 32) == word_modulus(),
{
    reveal_with_fuel(nat_pow, 9);
    assert(nat_pow(256, 8) == 0x1_0000_0000_0000_0000nat);
    lemma_pow_add(256, 8, 8);
    assert(nat_pow(256, 16) == 0x1_0000_0000_0000_0000_0000_0000_0000_0000nat);
    lemma_pow_add(256, 16, 16);
    assert(nat_pow(256, 32) == nat_pow(256, 16) * nat_pow(256, 16));
}

pub proof fn lemma_be_bytes_len(n: nat, len: nat)
    ensures
        be_bytes(n, len).len() == len,
    decreases len,
{
    if len > 0 {
        lemma_be_bytes_len(n / 256, (len - 1) as nat);
    }
}

/// Decoding the `len`-byte encoding of `n` gives `n` modulo 256^len.
pub proof fn lemma_be_roundtrip(n: nat, len: nat)
    ensures
        be_value(be_bytes(n, len)) == n % nat_pow(256, len),
    decreases len,
{
    if len == 0 {
        assert(be_bytes(n, 0) =~= Seq::<u8>::empty());
    } else {
        let s = be_bytes(n, len);
        let p = nat_pow(256, (len - 1) as nat);
        lemma_be_roundtrip(n / 256, (len - 1) as nat);
        assert(s.drop_last() =~= be_bytes(n / 256, (len - 1) as nat));
        lemma_pow_positive(256, (len - 1) as nat);
        lemma_breakdown(n as int, 256, p as int);
        assert(be_value(s) == ((n / 256) % p) * 256 + n % 256);
        lemma_mul_is_commutative(256, ((n / 256) % p) as int);
    }
}

/// A byte string of length `k` denotes less than 256^k.
pub proof fn lemma_be_value_bound(s: Seq<u8>)
    ensures
        be_value(s) < nat_pow(256, s.len()),
    decreases s.len(),
{
    if s.len() > 0 {
        let p = nat_pow(256, (s.len() - 1) as nat);
        lemma_be_value_bound(s.drop_last());
        let v = be_value(s.drop_last());
        assert(v * 256 + 256 <= p * 256) by (nonlinear_arith)
            requires
                v < p,
        ;
        assert(nat_pow(256, s.len()) == 256 * p);
    }
}

/// The value of a concatenation.
pub proof fn lemma_be_value_concat(a: Seq<u8>, b: Seq<u8>)
    ensures
        be_value(a + b) == be_value(a) * nat_pow(256, b.len()) + be_value(b),
    decreases b.len(),
{
    if b.len() == 0 {
        assert(a + b =~= a);
        assert(nat_pow(256, 0) == 1);
        assert(be_value(b) == 0);
    } else {
        let b0 = b.drop_last();
        lemma_be_value_concat(a, b0);
        assert((a + b).drop_last() =~= a + b0);
        assert((a + b).last() == b.last());
        let x = be_value(a);
        let p = nat_pow(256, b0.len());
        let y = be_value(b0);
        assert((x * p + y) * 256 + b.last() == x * (256 * p) + (y * 256 + b.last())) by (nonlinear_arith);
        assert(be_value(a + b) == be_value(a + b0) * 256 + b.last());
        assert(be_value(b) == y * 256 + b.last());
        assert(nat_pow(256, b.len()) == 256 * p);
    }
}

pub proof fn lemma_zero_bytes_value(k: nat)
    ensures
        be_value(zero_bytes(k)) == 0,
    decreases k,
{
    if k > 0 {
        assert(zero_bytes(k).drop_last() =~= zero_bytes((k - 1) as nat));
        lemma_zero_bytes_value((k - 1) as nat);
    }
}

/// Leading zero bytes do not change the value a byte string denotes.
pub proof fn lemma_left_pad(s: Seq<u8>, k: nat)
    ensures
        be_value(zero_bytes(k) + s) == be_value(s),
{
    lemma_be_value_concat(zero_bytes(k), s);
    lemma_zero_bytes_value(k);
}

/// Among strings of one length, one that comes first in byte order denotes
/// the smaller number.
pub proof fn lemma_lex_lt_value(a: Seq<u8>, b: Seq<u8>)
    requires
        a.len() == b.len(),
        lex_lt(a, b),
    ensures
        be_value(a) < be_value(b),
{
    let i = choose|i: int|
        0 <= i < a.len() && i < b.len() && #[trigger] a.take(i) == b.take(i) && a[i] < b[i];
    let ha = a.take(i + 1);
    let hb = b.take(i + 1);
    let ta = a.skip(i + 1);
    let tb = b.skip(i + 1);
    assert(a =~= ha + ta);
    assert(b =~= hb + tb);
    lemma_be_value_concat(ha, ta);
    lemma_be_value_concat(hb, tb);
    assert(ha.drop_last() =~= a.take(i));
    assert(hb.drop_last() =~= b.take(i));
    let p = nat_pow(256, ta.len());
    lemma_be_value_bound(ta);
    let va = be_value(ha);
    let vb = be_value(hb);
    assert(va + 1 <= vb);
    let ra = be_value(ta);
    let rb = be_value(tb);
    assert(va * p + ra < vb * p + rb) by (nonlinear_arith)
        requires
            va + 1 <= vb,
            ra < p,
    ;
}

/// Two different strings of one length are ordered one way or the other.
pub proof fn lemma_lex_total(a: Seq<u8>, b: Seq<u8>)
    requires
        a.len() == b.len(),
        a != b,
    ensures
        lex_lt(a, b) || lex_lt(b, a),
    decreases a.len(),
{
    let n = a.len();
    if n == 0 {
        assert(a =~= b);
    } else {
        let a0 = a.drop_last();
        let b0 = b.drop_last();
        if a0 == b0 {
            let i = n - 1;
            assert(a.take(i) =~= a0);
            assert(b.take(i) =~= b0);
            if a[i] == b[i] {
                assert(a =~= a0.push(a[i]));
                assert(b =~= b0.push(b[i]));
            }
            assert(a.take(i) == b.take(i));
        } else {
            lemma_lex_total(a0, b0);
            if lex_lt(a0, b0) {
                let i = choose|i: int|
                    0 <= i < a0.len() && i < b0.len() && #[trigger] a0.take(i) == b0.take(i)
                        && a0[i] < b0[i];
                assert(a.take(i) =~= a0.take(i));
                assert(b.take(i) =~= b0.take(i));
                assert(a.take(i) == b.take(i));
            } else {
                let i = choose|i: int|
                    0 <= i < b0.len() && i < a0.len() && #[trigger] b0.take(i) == a0.take(i)
                        && b0[i] < a0[i];
                assert(a.take(i) =~= a0.take(i));
                assert(b.take(i) =~= b0.take(i));
                assert(b.take(i) == a.take(i));
            }
        }
    }
}

/// Encoding and decoding agree on every uint256: the 32-byte big-endian
/// encoding of a value below 2^256 decodes to that value.
pub proof fn lemma_word_roundtrip(n: nat)
    requires
        n < word_modulus(),
    ensures
        be_bytes(n, 32).len() == 32,
        be_value(be_bytes(n, 32)) == n,
{
    lemma_be_bytes_len(n, 32);
    lemma_be_roundtrip(n, 32);
    lemma_word_modulus();
    lemma_small_mod(n, word_modulus());
}

/// Byte order equals numeric order: of two uint256 values, the smaller one
/// has the 32-byte big-endian encoding that comes first in byte order.
pub proof fn lemma_byte_order_is_numeric_order(x: nat, y: nat)
    requires
        x < word_modulus(),
        y < word_modulus(),
    ensures
        lex_lt(be_bytes(x, 32), be_bytes(y, 32)) <==> x < y,
{
    let a = be_bytes(x, 32);
    let b = be_bytes(y, 32);
    lemma_word_roundtrip(x);
    lemma_word_roundtrip(y);
    if lex_lt(a, b) {
        lemma_lex_lt_value(a, b);
    }
    if x < y {
        lemma_lex_total(a, b);
        if lex_lt(b, a) {
            lemma_lex_lt_value(b, a);
        }
    }
}

} // verus!
