//! Unbounded natural numbers for vote weights, balances and block heights.
//! The digits are kept as big-endian bytes; candid's `Nat` does the arithmetic.

use vstd::prelude::*;
use num_bigint::BigUint;
use vstd::slice::slice_subrange;
use vstd::slice::slice_to_vec;

verus! {

/// The number that big-endian bytes stand for.
pub open spec fn be_value(s: Seq<u8>) -> nat
    decreases s.len(),
{
    if s.len() == 0 {
        0
    } else {
        be_value(s.drop_last()) * 256 + s.last() as nat
    }
}

/// The decimal digit for a value below 10.
pub open spec fn digit_char(d: nat) -> char {
    (d + 48) as char
}

/// Decimal text of a natural number, most significant digit first, without
/// leading zeros or separators.
pub open spec fn decimal_text(n: nat) -> Seq<char>
    decreases n,
{
    if n < 10 {
        seq![digit_char(n)]
    } else {
        decimal_text(n / 10).push(digit_char(n % 10))
    }
}

/// An unbounded natural number.
#[derive(Debug)]
pub struct BigNat {
    be: Vec<u8>,
}

impl View for BigNat {
    type V = nat;

    closed spec fn view(&self) -> nat {
        be_value(self.be@)
    }
}

/// Bytes that are all zero stand for zero, and only those.
proof fn lemma_be_value_zero(s: Seq<u8>)
    ensures
        be_value(s) == 0 <==> forall|i: int| 0 <= i < s.len() ==> s[i] == 0,
    decreases s.len(),
{
    if s.len() > 0 {
        lemma_be_value_zero(s.drop_last());
        if be_value(s) == 0 {
            assert forall|i: int| 0 <= i < s.len() implies s[i] == 0 by {
                if i < s.len() - 1 {
                    assert(s.drop_last()[i] == s[i]);
                }
            }
        }
        if forall|i: int| 0 <= i < s.len() ==> s[i] == 0 {
            assert forall|i: int| 0 <= i < s.drop_last().len() implies s.drop_last()[i] == 0 by {
                assert(s.drop_last()[i] == s[i]);
            }
        }
    }
}

/// `256^n`.
pub open spec fn byte_power(n: nat) -> nat
    decreases n,
{
    if n == 0 {
        1
    } else {
        256 * byte_power((n - 1) as nat)
    }
}

/// The numbers below `2^256`: those that fit in a 32-byte word.
pub open spec fn fits_word(n: nat) -> bool {
    n < byte_power(32)
}

/// Every 128-bit number fits in a 32-byte word.
pub proof fn lemma_u128_fits_word(n: nat)
    requires
        n <= u128::MAX,
    ensures
        fits_word(n),
{
    reveal_with_fuel(byte_power, 33);
}

/// `n` big-endian bytes stand for a number below `256^n`.
proof fn lemma_be_value_bound(s: Seq<u8>)
    ensures
        be_value(s) < byte_power(s.len()),
    decreases s.len(),
{
    if s.len() > 0 {
        let d = s.drop_last();
        lemma_be_value_bound(d);
        let x = be_value(d);
        let p = byte_power(d.len());
        let l = s.last() as nat;
        assert(x * 256 + l < p * 256) by (nonlinear_arith)
            requires
                x < p,
                l < 256,
        ;
    }
}

/// Big-endian bytes split into a head and a tail.
proof fn lemma_be_value_concat(a: Seq<u8>, b: Seq<u8>)
    ensures
        be_value(a + b) == be_value(a) * byte_power(b.len()) + be_value(b),
    decreases b.len(),
{
    if b.len() == 0 {
        assert(a + b =~= a);
        assert(byte_power(0) == 1);
        assert(be_value(a) * 1 == be_value(a));
    } else {
        let b2 = b.drop_last();
        lemma_be_value_concat(a, b2);
        assert((a + b).drop_last() =~= a + b2);
        assert((a + b).last() == b.last());
        let x = be_value(a);
        let p = byte_power(b2.len());
        let y = be_value(b2);
        let l = b.last() as nat;
        assert(be_value(a + b) == be_value(a + b2) * 256 + l);
        assert(be_value(b) == y * 256 + l);
        assert(byte_power(b.len()) == 256 * p);
        assert((x * p + y) * 256 + l == x * (256 * p) + (y * 256 + l)) by (nonlinear_arith);
        assert(be_value(a + b2) == x * p + y);
        assert(be_value(a + b) == x * (256 * p) + be_value(b));
    }
}

/// Relies on candid's `Nat` addition: the exact sum.
#[verifier::external_body]
fn nat_add(a: &BigNat, b: &BigNat) -> (r: BigNat)
    ensures
        r@ == a@ + b@,
{
    let sum = candid::Nat(BigUint::from_bytes_be(&a.be)) + candid::Nat(BigUint::from_bytes_be(&b.be));
    BigNat { be: sum.0.to_bytes_be() }
}

/// Relies on candid's `Nat` multiplication: the exact product.
#[verifier::external_body]
fn nat_mul(a: &BigNat, b: &BigNat) -> (r: BigNat)
    ensures
        r@ == a@ * b@,
{
    let product = candid::Nat(BigUint::from_bytes_be(&a.be)) * candid::Nat(BigUint::from_bytes_be(&b.be));
    BigNat { be: product.0.to_bytes_be() }
}

/// Relies on candid's `Nat` division, which rounds down; a zero divisor
/// would panic and is left out.
#[verifier::external_body]
fn nat_div(a: &BigNat, b: &BigNat) -> (r: BigNat)
    requires
        b@ > 0,
    ensures
        r@ == a@ / b@,
{
    let quotient = candid::Nat(BigUint::from_bytes_be(&a.be)) / candid::Nat(BigUint::from_bytes_be(&b.be));
    BigNat { be: quotient.0.to_bytes_be() }
}

/// Relies on `From<u128>` of candid's `Nat`: the same number.
#[verifier::external_body]
fn nat_from_u128(n: u128) -> (r: BigNat)
    ensures
        r@ == n as nat,
{
    BigNat { be: candid::Nat::from(n).0.to_bytes_be() }
}

/// Relies on BigUint::to_str_radix with radix 10: plain decimal digits,
/// "0" for zero.
#[verifier::external_body]
fn nat_decimal(a: &BigNat) -> (r: String)
    ensures
        r@ == decimal_text(a@),
{
    BigUint::from_bytes_be(&a.be).to_str_radix(10)
}

impl BigNat {
    /// Zero.
    pub fn zero() -> (r: BigNat)
        ensures
            r@ == 0,
    {
        BigNat { be: Vec::new() }
    }

    /// The number whose big-endian bytes are given.
    pub fn from_be_bytes(bytes: Vec<u8>) -> (r: BigNat)
        ensures
            r@ == be_value(bytes@),
    {
        BigNat { be: bytes }
    }

    /// A number that fits in 128 bits.
    pub fn from_u128(n: u128) -> (r: BigNat)
        ensures
            r@ == n as nat,
    {
        nat_from_u128(n)
    }

    /// The same number, in a value of its own.
    pub fn copy(&self) -> (r: BigNat)
        ensures
            r@ == self@,
    {
        let mut be: Vec<u8> = Vec::new();
        let mut i: usize = 0;
        while i < self.be.len()
            invariant
                0 <= i <= self.be@.len(),
                be@ == self.be@.subrange(0, i as int),
            decreases self.be@.len() - i,
        {
            be.push(self.be[i]);
            i += 1;
        }
        assert(be@ =~= self.be@);
        BigNat { be }
    }

    /// Whether the number is zero.
    pub fn is_zero(&self) -> (r: bool)
        ensures
            r == (self@ == 0),
    {
        proof {
            lemma_be_value_zero(self.be@);
        }
        let mut i: usize = 0;
        while i < self.be.len()
            invariant
                0 <= i <= self.be@.len(),
                forall|j: int| 0 <= j < i ==> self.be@[j] == 0,
            decreases self.be@.len() - i,
        {
            if self.be[i] != 0 {
                proof {
                    lemma_be_value_zero(self.be@);
                    assert(self.be@[i as int] != 0);
                }
                return false;
            }
            i += 1;
        }
        true
    }

    /// The sum.
    pub fn add(&self, other: &BigNat) -> (r: BigNat)
        ensures
            r@ == self@ + other@,
    {
        nat_add(self, other)
    }

    /// The product.
    pub fn mul(&self, other: &BigNat) -> (r: BigNat)
        ensures
            r@ == self@ * other@,
    {
        nat_mul(self, other)
    }

    /// The quotient, rounded down.
    pub fn div(&self, other: &BigNat) -> (r: BigNat)
        requires
            other@ > 0,
        ensures
            r@ == self@ / other@,
    {
        nat_div(self, other)
    }

    /// Plain decimal text.
    pub fn to_decimal(&self) -> (r: String)
        ensures
            r@ == decimal_text(self@),
    {
        nat_decimal(self)
    }

    /// The 32-byte big-endian word of the number, where it fits in one.
    pub fn to_word(&self) -> (r: Option<Vec<u8>>)
        ensures
            r is Some <==> fits_word(self@),
            r matches Some(w) ==> w@.len() == 32 && be_value(w@) == self@,
    {
        let n = self.be.len();
        if n <= 32 {
            let mut w: Vec<u8> = Vec::new();
            let mut i: usize = 0;
            while i < 32 - n
                invariant
                    n <= 32,
                    0 <= i <= 32 - n,
                    w@ == Seq::new(i as nat, |j: int| 0u8),
                decreases 32 - n - i,
            {
                w.push(0u8);
                i += 1;
            }
            let ghost zeros = w@;
            let mut k: usize = 0;
            while k < n
                invariant
                    n == self.be@.len(),
                    0 <= k <= n,
                    w@ == zeros + self.be@.subrange(0, k as int),
                decreases n - k,
            {
                w.push(self.be[k]);
                k += 1;
            }
            proof {
                assert(self.be@.subrange(0, n as int) =~= self.be@);
                lemma_be_value_concat(zeros, self.be@);
                lemma_be_value_zero(zeros);
                assert(be_value(zeros) == 0);
                assert(w@ =~= zeros + self.be@);
                assert(0 * byte_power(self.be@.len()) == 0);
                assert(be_value(w@) == be_value(self.be@));
                lemma_be_value_bound(w@);
                assert(w@.len() == 32);
            }
            Some(w)
        } else {
            let mut i: usize = 0;
            while i < n - 32
                invariant
                    n == self.be@.len(),
                    n > 32,
                    0 <= i <= n - 32,
                    forall|j: int| 0 <= j < i ==> self.be@[j] == 0,
                decreases n - 32 - i,
            {
                if self.be[i] != 0 {
                    proof {
                        let head = self.be@.subrange(0, n - 32);
                        let tail = self.be@.subrange(n - 32, n as int);
                        assert(head + tail =~= self.be@);
                        lemma_be_value_concat(head, tail);
                        lemma_be_value_zero(head);
                        assert(head[i as int] != 0);
                        let h = be_value(head);
                        assert(h >= 1);
                        let p = byte_power(32);
                        assert(h * p >= p) by (nonlinear_arith)
                            requires
                                h >= 1,
                        ;
                    }
                    return None;
                }
                i += 1;
            }
            let w = slice_to_vec(slice_subrange(self.be.as_slice(), n - 32, n));
            proof {
                let head = self.be@.subrange(0, n - 32);
                let tail = self.be@.subrange(n - 32, n as int);
                assert(head + tail =~= self.be@);
                lemma_be_value_concat(head, tail);
                assert forall|j: int| 0 <= j < head.len() implies head[j] == 0 by {
                    assert(head[j] == self.be@[j]);
                }
                lemma_be_value_zero(head);
                assert(be_value(head) == 0);
                assert(w@ =~= tail);
                lemma_be_value_bound(tail);
                assert(be_value(tail) == be_value(self.be@));
            }
            Some(w)
        }
    }

    /// The big-endian bytes, possibly with leading zeros.
    pub fn to_be_bytes(&self) -> (r: Vec<u8>)
        ensures
            be_value(r@) == self@,
    {
        self.copy().be
    }
}

} // verus!
