//! Fixed-point amounts with eighteen fractional digits.
//!
//! An [`Amount`] is a signed 192-bit count of attos, one atto being
//! `10^-18` of a unit. Its three 64-bit digits are the two's-complement
//! representation of that count, least significant digit first, which is the
//! layout `scrypto`'s `Decimal` uses. Products and quotients are computed by
//! `Decimal` itself.

use vstd::prelude::*;
use vstd::arithmetic::div_mod::{lemma_fundamental_div_mod, lemma_mod_bound};
use vstd::math::abs;

verus! {

/// The number of attos in one unit.
pub open spec fn scale() -> int {
    1_000_000_000_000_000_000
}

/// The smallest count of attos an [`Amount`] can hold, `-2^191`.
pub open spec fn min_attos() -> int {
    -0x8000_0000_0000_0000_0000_0000_0000_0000_0000_0000_0000_0000int
}

/// The largest count of attos an [`Amount`] can hold, `2^191 - 1`.
pub open spec fn max_attos() -> int {
    0x7fff_ffff_ffff_ffff_ffff_ffff_ffff_ffff_ffff_ffff_ffff_ffffint
}

/// Whether a count of attos fits in an [`Amount`].
pub open spec fn representable(attos: int) -> bool {
    min_attos() <= attos <= max_attos()
}

/// Whether a count of attos can come out of a multiplication or a division:
/// it lies between `-(2^191 - 1)` and `2^191 - 1`. The most negative
/// amount, `-2^191`, can be held but is never computed.
pub open spec fn computable(attos: int) -> bool {
    -max_attos() <= attos <= max_attos()
}

/// The quotient of `n` by `d`, rounded toward zero.
pub open spec fn div_toward_zero(n: int, d: int) -> int
    recommends
        d != 0,
{
    if n >= 0 {
        if d > 0 {
            n / d
        } else {
            -(n / (-d))
        }
    } else {
        if d > 0 {
            -((-n) / d)
        } else {
            (-n) / (-d)
        }
    }
}

/// Rounding toward zero loses less than one divisor: the quotient times the
/// divisor differs from the dividend by less than the divisor's magnitude,
/// and never exceeds the dividend in magnitude.
pub proof fn lemma_div_toward_zero_error(n: int, d: int)
    requires
        d != 0,
    ensures
        abs(n - div_toward_zero(n, d) * d) < abs(d),
        abs(div_toward_zero(n, d) * d) <= abs(n),
{
    let m: int = if n >= 0 { n } else { -n };
    let e: int = if d > 0 { d } else { -d };
    lemma_fundamental_div_mod(m, e);
    lemma_mod_bound(m, e);
    let q: int = m / e;
    assert(m == e * q + m % e);
    assert(div_toward_zero(n, d) == if (n >= 0) == (d > 0) { q } else { -q });
    assert(div_toward_zero(n, d) * d == if n >= 0 { e * q } else { -(e * q) })
        by (nonlinear_arith)
        requires
            div_toward_zero(n, d) == if (n >= 0) == (d > 0) { q } else { -q },
            e == if d > 0 { d } else { -d },
    ;
}

/// The attos of the product of two amounts given in attos, rounded toward
/// zero to a whole atto.
pub open spec fn mul_attos(a: int, b: int) -> int {
    div_toward_zero(a * b, scale())
}

/// The attos of the quotient of two amounts given in attos, rounded toward
/// zero to a whole atto.
pub open spec fn div_attos(a: int, b: int) -> int
    recommends
        b != 0,
{
    div_toward_zero(a * scale(), b)
}

/// The product of two amounts, where it can be computed.
pub open spec fn checked_product(a: int, b: int) -> Option<int> {
    if computable(mul_attos(a, b)) {
        Some(mul_attos(a, b))
    } else {
        None
    }
}

/// The quotient of two amounts, where the divisor is not zero and the
/// quotient can be computed.
pub open spec fn checked_quotient(a: int, b: int) -> Option<int> {
    if b != 0 && computable(div_attos(a, b)) {
        Some(div_attos(a, b))
    } else {
        None
    }
}

/// A signed fixed-point number with eighteen fractional digits.
#[derive(Clone, Copy, Debug, PartialEq, Eq, Structural)]
pub struct Amount {
    /// Bits 0 to 63 of the two's-complement count of attos.
    pub lo: u64,
    /// Bits 64 to 127.
    pub mid: u64,
    /// Bits 128 to 191; the top bit is the sign.
    pub hi: u64,
}

impl View for Amount {
    type V = int;

    /// The count of attos.
    open spec fn view(&self) -> int {
        let unsigned = self.lo + self.mid * 0x1_0000_0000_0000_0000int + self.hi
            * 0x1_0000_0000_0000_0000_0000_0000_0000_0000int;
        if self.hi >= 0x8000_0000_0000_0000 {
            unsigned - 0x1_0000_0000_0000_0000_0000_0000_0000_0000_0000_0000_0000_0000int
        } else {
            unsigned
        }
    }
}

impl Amount {
    /// The amount whose two's-complement count of attos has the given
    /// digits, least significant first.
    pub fn from_digits(digits: [u64; 3]) -> (r: Amount)
        ensures
            r.lo == digits[0],
            r.mid == digits[1],
            r.hi == digits[2],
    {
        Amount { lo: digits[0], mid: digits[1], hi: digits[2] }
    }

    /// The digits of the two's-complement count of attos, least significant
    /// first.
    pub fn to_digits(&self) -> (r: [u64; 3])
        ensures
            r[0] == self.lo,
            r[1] == self.mid,
            r[2] == self.hi,
    {
        [self.lo, self.mid, self.hi]
    }

    /// Zero.
    pub fn zero() -> (r: Amount)
        ensures
            r@ == 0,
    {
        Amount { lo: 0, mid: 0, hi: 0 }
    }

    /// Whether the amount is zero.
    pub fn is_zero(&self) -> (r: bool)
        ensures
            r == (self@ == 0),
    {
        self.lo == 0 && self.mid == 0 && self.hi == 0
    }

    /// Every amount is representable.
    pub proof fn lemma_view_representable(self)
        ensures
            representable(self@),
    {
    }

    /// Two amounts with the same count of attos have the same digits.
    pub proof fn lemma_view_injective(self, other: Amount)
        requires
            self@ == other@,
        ensures
            self == other,
    {
    }
}

/// Calls `Decimal::checked_mul` of `scrypto` on the decimals with the given
/// attos. That function multiplies the two counts of attos in 256 bits,
/// divides the product by `10^18` with the quotient rounded toward zero, and
/// narrows the quotient to 192 bits. It returns `None` where the product
/// overflows 256 bits or the narrowing fails. The narrowing accepts a
/// quotient whose magnitude is below `2^191` and no other, so `-2^191` is
/// refused; a product that overflows 256 bits has a quotient far beyond
/// that. So the rounded quotient is returned exactly where it lies within
/// `-(2^191 - 1)` and `2^191 - 1`.
#[verifier::external_body]
pub(crate) fn decimal_checked_mul(a: Amount, b: Amount) -> (r: Option<Amount>)
    ensures
        match r {
            Some(p) => checked_product(a@, b@) == Some(p@),
            None => checked_product(a@, b@) is None,
        },
{
    let x = scrypto::math::Decimal::from_attos(scrypto::math::I192::from_digits([a.lo, a.mid, a.hi]));
    let y = scrypto::math::Decimal::from_attos(scrypto::math::I192::from_digits([b.lo, b.mid, b.hi]));
    match scrypto::math::CheckedMul::checked_mul(x, y) {
        Some(p) => {
            let d = p.attos().to_digits();
            Some(Amount { lo: d[0], mid: d[1], hi: d[2] })
        },
        None => None,
    }
}

/// Calls `Decimal::checked_div` of `scrypto` on the decimals with the given
/// attos. That function multiplies the dividend's attos by `10^18` in 256
/// bits, which cannot overflow, divides by the divisor's attos with the
/// quotient rounded toward zero, and narrows the quotient to 192 bits. It
/// returns `None` where the divisor is zero or the narrowing fails, which
/// accepts a quotient whose magnitude is below `2^191` and no other.
#[verifier::external_body]
pub(crate) fn decimal_checked_div(a: Amount, b: Amount) -> (r: Option<Amount>)
    ensures
        match r {
            Some(q) => checked_quotient(a@, b@) == Some(q@),
            None => checked_quotient(a@, b@) is None,
        },
{
    let x = scrypto::math::Decimal::from_attos(scrypto::math::I192::from_digits([a.lo, a.mid, a.hi]));
    let y = scrypto::math::Decimal::from_attos(scrypto::math::I192::from_digits([b.lo, b.mid, b.hi]));
    match scrypto::math::CheckedDiv::checked_div(x, y) {
        Some(q) => {
            let d = q.attos().to_digits();
            Some(Amount { lo: d[0], mid: d[1], hi: d[2] })
        },
        None => None,
    }
}

} // verus!
