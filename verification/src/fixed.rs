use vstd::prelude::*;
use vstd::arithmetic::div_mod::{lemma_fundamental_div_mod, lemma_fundamental_div_mod_converse};

verus! {

/// Number of raw steps in one whole unit: every amount carries eight decimals.
pub const SCALE: i64 = 100_000_000;

/// Whether an exact value can be stored as an amount.
pub open spec fn representable(x: int) -> bool {
    i64::MIN <= x <= i64::MAX
}

/// Product of two amounts, rounded down to the eight-decimal grid.
pub open spec fn mul_floor(a: int, b: int) -> int {
    (a * b) / (SCALE as int)
}

/// Quotient of two amounts, rounded down to the eight-decimal grid.
/// Meaningful for a positive divisor.
pub open spec fn div_floor(a: int, b: int) -> int {
    (a * SCALE) / b
}

/// Quotient rounded towards negative infinity, for a positive divisor.
pub fn floor_div(a: i128, b: i128) -> (q: i128)
    requires
        b > 0,
    ensures
        q == a / b,
{
    let q: i128 = a / b;
    let r: i128 = a % b;
    if r < 0 {
        proof {
            let m: int = -(a as int);
            lemma_fundamental_div_mod(m, b as int);
            assert(a == (q - 1) * b + (r + b)) by (nonlinear_arith)
                requires
                    m == b * (m / (b as int)) + (m % (b as int)),
                    q == -(m / (b as int)),
                    r == -(m % (b as int)),
                    m == -(a as int),
            ;
            lemma_fundamental_div_mod_converse(a as int, b as int, q - 1, r + b);
            assert(q - 1 >= i128::MIN) by (nonlinear_arith)
                requires
                    a == (q - 1) * b + (r + b),
                    0 <= r + b < b,
                    b > 0,
                    a >= i128::MIN,
            ;
        }
        q - 1
    } else {
        proof {
            if a < 0 {
                let m: int = -(a as int);
                lemma_fundamental_div_mod(m, b as int);
                assert(a == q * b + 0) by (nonlinear_arith)
                    requires
                        m == b * (m / (b as int)) + (m % (b as int)),
                        q == -(m / (b as int)),
                        0 == m % (b as int),
                        m == -(a as int),
                ;
                lemma_fundamental_div_mod_converse(a as int, b as int, q as int, 0);
            }
        }
        q
    }
}

/// Product of two amounts, exact in a wider integer.
pub fn wide_mul(a: i64, b: i64) -> (r: i128)
    ensures
        r == mul_floor(a as int, b as int),
        -0x4000_0000_0000_0000_0000_0000_0000_0000 <= r <= 0x4000_0000_0000_0000_0000_0000_0000_0000,
{
    assert(-0x4000_0000_0000_0000_0000_0000_0000_0000 <= a * b
        <= 0x4000_0000_0000_0000_0000_0000_0000_0000) by (nonlinear_arith)
        requires
            -0x8000_0000_0000_0000 <= a <= 0x7fff_ffff_ffff_ffff,
            -0x8000_0000_0000_0000 <= b <= 0x7fff_ffff_ffff_ffff,
    ;
    let wide: i128 = (a as i128) * (b as i128);
    floor_div(wide, SCALE as i128)
}

/// Product of two amounts, or `None` when it leaves the range of an amount.
pub fn checked_mul(a: i64, b: i64) -> (r: Option<i64>)
    ensures
        r == if representable(mul_floor(a as int, b as int)) {
            Some(mul_floor(a as int, b as int) as i64)
        } else {
            None
        },
{
    let q: i128 = wide_mul(a, b);
    if q < i64::MIN as i128 || q > i64::MAX as i128 {
        None
    } else {
        Some(q as i64)
    }
}

/// Quotient of two amounts for a positive divisor, or `None` when it leaves
/// the range of an amount.
pub fn checked_div(a: i64, b: i64) -> (r: Option<i64>)
    requires
        b > 0,
    ensures
        r == if representable(div_floor(a as int, b as int)) {
            Some(div_floor(a as int, b as int) as i64)
        } else {
            None
        },
{
    let wide: i128 = (a as i128) * (SCALE as i128);
    let q: i128 = floor_div(wide, b as i128);
    if q < i64::MIN as i128 || q > i64::MAX as i128 {
        None
    } else {
        Some(q as i64)
    }
}

} // verus!
