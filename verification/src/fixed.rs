use vstd::prelude::*;
use vstd::arithmetic::div_mod::{lemma_div_is_ordered, lemma_div_pos_is_pos};

verus! {

/// Samples and spectra are Q15 fixed point: the real value `v` is stored as
/// the integer `v * 32768`, so a full-scale 16-bit sample maps onto itself.
pub const SCALE: i64 = 32768;

/// A bound on any Q15 product of two 64-bit values: 2^111.
pub const PROD_BOUND: i128 = 0x8000_0000_0000_0000_0000_0000_0000;

/// The value clamped to the range of `i64`.
pub open spec fn clamp64(v: int) -> int {
    if v > i64::MAX as int {
        i64::MAX as int
    } else if v < i64::MIN as int {
        i64::MIN as int
    } else {
        v
    }
}

/// Division rounding toward zero (the behaviour of `/` on machine integers),
/// meaningful for a positive divisor.
pub open spec fn div_trunc(a: int, d: int) -> int {
    if a >= 0 {
        a / d
    } else {
        -((-a) / d)
    }
}

/// The Q15 product: `a * b` scaled back to Q15, rounding toward zero.
pub open spec fn q15_prod(a: int, b: int) -> int {
    div_trunc(a * b, SCALE as int)
}

/// A complex sample with Q15 fixed-point real and imaginary parts.
#[derive(Clone, Copy, PartialEq, Eq, Structural, Debug)]
pub struct Cpx {
    pub re: i64,
    pub im: i64,
}

impl Cpx {
    /// The complex zero.
    pub open spec fn zero_spec() -> Cpx {
        Cpx { re: 0, im: 0 }
    }

    pub fn zero() -> (r: Cpx)
        ensures
            r == Cpx::zero_spec(),
    {
        Cpx { re: 0, im: 0 }
    }

    /// The Q15 complex product, each part clamped to the range of `i64`.
    pub open spec fn mul_spec(a: Cpx, b: Cpx) -> Cpx {
        Cpx {
            re: clamp64(
                q15_prod(a.re as int, b.re as int) - q15_prod(a.im as int, b.im as int),
            ) as i64,
            im: clamp64(
                q15_prod(a.re as int, b.im as int) + q15_prod(a.im as int, b.re as int),
            ) as i64,
        }
    }
}

/// The wide product of two 64-bit values; it always fits in 128 bits.
fn mul_i64_wide(a: i64, b: i64) -> (r: i128)
    ensures
        r as int == a as int * b as int,
        -(0x4000_0000_0000_0000_0000_0000_0000_0000 as int) <= r as int
            <= 0x4000_0000_0000_0000_0000_0000_0000_0000 as int,
{
    proof {
        assert(-(0x4000_0000_0000_0000_0000_0000_0000_0000 as int) <= a as int * b as int
            <= 0x4000_0000_0000_0000_0000_0000_0000_0000 as int) by (nonlinear_arith)
            requires
                -0x8000_0000_0000_0000 <= a as int <= 0x7fff_ffff_ffff_ffff,
                -0x8000_0000_0000_0000 <= b as int <= 0x7fff_ffff_ffff_ffff,
        ;
    }
    (a as i128) * (b as i128)
}

/// Division of a wide value by a positive divisor, rounding toward zero.
fn div_trunc_i128(a: i128, d: i128) -> (r: i128)
    requires
        1 <= d,
    ensures
        r as int == div_trunc(a as int, d as int),
        a >= 0 ==> 0 <= r <= a,
        a < 0 ==> a <= r <= 0,
{
    proof {
        if a >= 0 {
            lemma_div_is_ordered(0, a as int, d as int);
            vstd::arithmetic::div_mod::lemma_div_nonincreasing(a as int, d as int);
        } else {
            lemma_div_pos_is_pos(-(a as int), d as int);
            vstd::arithmetic::div_mod::lemma_div_nonincreasing(-(a as int), d as int);
        }
    }
    a / d
}

/// Clamp a wide value to the range of `i64`.
fn clamp_i128_to_i64(v: i128) -> (r: i64)
    ensures
        r as int == clamp64(v as int),
{
    if v > i64::MAX as i128 {
        i64::MAX
    } else if v < i64::MIN as i128 {
        i64::MIN
    } else {
        v as i64
    }
}

/// The Q15 product of two scalars, clamped to the range of `i64`.
pub fn q15_mul(a: i64, b: i64) -> (r: i64)
    ensures
        r as int == clamp64(q15_prod(a as int, b as int)),
{
    let p = mul_i64_wide(a, b);
    let q = div_trunc_i128(p, SCALE as i128);
    clamp_i128_to_i64(q)
}

/// One Q15 product kept wide, with the bound that makes sums of two of
/// them free of overflow.
fn q15_prod_wide(a: i64, b: i64) -> (r: i128)
    ensures
        r as int == q15_prod(a as int, b as int),
        -PROD_BOUND <= r <= PROD_BOUND,
{
    let p = mul_i64_wide(a, b);
    let q = div_trunc_i128(p, SCALE as i128);
    proof {
        if p >= 0 {
            lemma_div_is_ordered(
                p as int,
                0x4000_0000_0000_0000_0000_0000_0000_0000,
                SCALE as int,
            );
        } else {
            lemma_div_is_ordered(
                -(p as int),
                0x4000_0000_0000_0000_0000_0000_0000_0000,
                SCALE as int,
            );
        }
    }
    q
}

/// The Q15 complex product.
pub fn cpx_mul(a: Cpx, b: Cpx) -> (r: Cpx)
    ensures
        r == Cpx::mul_spec(a, b),
{
    let prr = q15_prod_wide(a.re, b.re);
    let pii = q15_prod_wide(a.im, b.im);
    let pri = q15_prod_wide(a.re, b.im);
    let pir = q15_prod_wide(a.im, b.re);
    let re = clamp_i128_to_i64(prr - pii);
    let im = clamp_i128_to_i64(pri + pir);
    Cpx { re, im }
}

/// The sum of two scalars, clamped to the range of `i64`.
pub fn sat_add(a: i64, b: i64) -> (r: i64)
    ensures
        r as int == clamp64(a as int + b as int),
{
    let s = (a as i128) + (b as i128);
    clamp_i128_to_i64(s)
}

} // verus!
