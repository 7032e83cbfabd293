use vstd::prelude::*;
use vstd::arithmetic::div_mod::{
    lemma_div_is_ordered, lemma_div_multiples_vanish, lemma_div_pos_is_pos,
    lemma_fundamental_div_mod, lemma_mod_bound, lemma_multiply_divide_le,
    lemma_multiply_divide_lt, lemma_small_mod,
};
use crate::fixed::{div_trunc, SCALE};

verus! {

/// The largest supported block size: keeps every index and product of the
/// window and filter arithmetic far inside the machine word.
pub const FPB_MAX: usize = 0x10_0000;

/// Q15 value of 0.54, the constant term of the raised-cosine taper.
pub const W054: i64 = 17695;

/// Q15 value of 0.46, the cosine weight of the raised-cosine taper.
pub const W046: i64 = 15073;

/// Q15 Taylor coefficients of cos(pi*x/2) on x in [0, 1]:
/// 1 - C2 x^2 + C4 x^4 - C6 x^6 + C8 x^8, each scaled by 32768.
pub const C2: i64 = 40426;

pub const C4: i64 = 8312;

pub const C6: i64 = 684;

pub const C8: i64 = 30;

/// One quarter wave of the cosine shape: the Taylor polynomial of
/// cos(pi*x/2) evaluated in Q15 integer arithmetic on x in [0, SCALE],
/// clamped to [-SCALE, SCALE].
pub open spec fn cos_quarter(x: int) -> int {
    let t = x * x / (SCALE as int);
    let h1 = C6 - t * C8 / (SCALE as int);
    let h2 = C4 - t * h1 / (SCALE as int);
    let h3 = C2 - t * h2 / (SCALE as int);
    let raw = SCALE - t * h3 / (SCALE as int);
    if raw > SCALE {
        SCALE as int
    } else if raw < -SCALE {
        -SCALE as int
    } else {
        raw
    }
}

/// Q15 cosine of the angle that is p parts of a full turn split in d steps,
/// by quarter-wave symmetry over `cos_quarter`.
pub open spec fn cos_q15(p: int, d: int) -> int {
    let m = p % d;
    let fp = 4 * m;
    let k = fp / d;
    let xq = fp % d;
    let x = xq * (SCALE as int) / d;
    if k == 0 {
        cos_quarter(x)
    } else if k == 1 {
        -cos_quarter(SCALE - x)
    } else if k == 2 {
        -cos_quarter(x)
    } else {
        cos_quarter(SCALE - x)
    }
}

/// Coefficient i of the length-4B raised-cosine taper,
/// 0.54 - 0.46 * cos(2 pi i / (2 * 2B - 1)), in Q15.
pub open spec fn window_coeff(i: int, fpb: int) -> int {
    W054 - div_trunc(W046 * cos_q15(i, 4 * fpb - 1), SCALE as int)
}

/// A nonnegative product scaled back to Q15; the factor bound `hb` carries
/// through to the result.
fn mulshift(t: i64, h: i64, hb: i64) -> (r: i64)
    requires
        0 <= t <= SCALE,
        0 <= h <= hb,
        hb <= 0xffff,
    ensures
        r == t * h / (SCALE as int),
        0 <= r <= hb,
{
    proof {
        assert(0 <= t * h <= 32768 * hb) by (nonlinear_arith)
            requires
                0 <= t <= 32768,
                0 <= h <= hb,
        ;
        lemma_div_pos_is_pos(t * h, SCALE as int);
        lemma_multiply_divide_le(t * h, SCALE as int, hb as int);
    }
    (t * h) / SCALE
}

/// Executable quarter-wave cosine, equal to its specification.
fn cos_quarter_exec(x: i64) -> (r: i64)
    requires
        0 <= x <= SCALE,
    ensures
        r == cos_quarter(x as int),
        -SCALE <= r <= SCALE,
{
    proof {
        assert(0 <= x * x <= 32768 * 32768) by (nonlinear_arith)
            requires
                0 <= x <= 32768,
        ;
        lemma_div_pos_is_pos(x * x, SCALE as int);
        lemma_multiply_divide_le(x * x, SCALE as int, SCALE as int);
    }
    let t = (x * x) / SCALE;
    let h1 = C6 - mulshift(t, C8, C8);
    let h2 = C4 - mulshift(t, h1, C6);
    let h3 = C2 - mulshift(t, h2, C4);
    let g = mulshift(t, h3, C2);
    let raw = SCALE - g;
    if raw > SCALE {
        SCALE
    } else if raw < -SCALE {
        -SCALE
    } else {
        raw
    }
}

/// Executable Q15 cosine of p parts of a turn of d steps, equal to its
/// specification.
pub fn cos_q15_exec(p: u64, d: u64) -> (r: i64)
    requires
        1 <= d <= 0x40_0000,
        p <= d,
    ensures
        r == cos_q15(p as int, d as int),
        -SCALE <= r <= SCALE,
{
    let m: u64 = if p == d {
        proof {
            lemma_div_multiples_vanish(1, d as int);
            lemma_fundamental_div_mod(d as int, d as int);
        }
        0
    } else {
        proof {
            lemma_small_mod(p as nat, d as nat);
        }
        p
    };
    let fp: u64 = 4 * m;
    let k: u64 = fp / d;
    let xq: u64 = fp % d;
    proof {
        lemma_mod_bound(fp as int, d as int);
        assert(fp < 4 * d);
        lemma_multiply_divide_lt(fp as int, d as int, 4);
        lemma_div_pos_is_pos(fp as int, d as int);
        lemma_div_pos_is_pos(xq as int * (SCALE as int), d as int);
        assert(xq as int * (SCALE as int) < d as int * (SCALE as int));
        lemma_multiply_divide_lt(xq as int * (SCALE as int), d as int, SCALE as int);
    }
    let x64: u64 = (xq * (SCALE as u64)) / d;
    let x: i64 = x64 as i64;
    if k == 0 {
        cos_quarter_exec(x)
    } else if k == 1 {
        -cos_quarter_exec(SCALE - x)
    } else if k == 2 {
        -cos_quarter_exec(x)
    } else {
        cos_quarter_exec(SCALE - x)
    }
}

/// Signed Q15 rescale of a small product, rounding toward zero.
fn div_scale(a: i64) -> (r: i64)
    requires
        -0x4000_0000_0000 <= a <= 0x4000_0000_0000,
    ensures
        r == div_trunc(a as int, SCALE as int),
{
    a / SCALE
}

/// The raised-cosine analysis taper of length 4B, in Q15; every coefficient
/// is positive and at most one.
pub fn hamming_window(fpb: usize) -> (w: Vec<i64>)
    requires
        1 <= fpb <= FPB_MAX,
    ensures
        w@.len() == 4 * fpb,
        forall|i: int| 0 <= i < w@.len() ==> w@[i] == window_coeff(i, fpb as int),
        forall|i: int| 0 <= i < w@.len() ==> 0 < #[trigger] w@[i] && w@[i] <= SCALE,
{
    let d: u64 = 4 * (fpb as u64) - 1;
    let mut w: Vec<i64> = Vec::new();
    let mut i: usize = 0;
    while i < 4 * fpb
        invariant
            1 <= fpb <= FPB_MAX,
            d == 4 * fpb - 1,
            i <= 4 * fpb,
            w@.len() == i,
            forall|j: int| 0 <= j < i ==> w@[j] == window_coeff(j, fpb as int),
            forall|j: int| 0 <= j < i ==> 0 < #[trigger] w@[j] && w@[j] <= SCALE,
        decreases 4 * fpb - i,
    {
        let c = cos_q15_exec(i as u64, d);
        let scaled = div_scale(W046 * c);
        proof {
            if W046 * c >= 0 {
                lemma_div_is_ordered(W046 * c, W046 * (SCALE as int), SCALE as int);
                lemma_div_multiples_vanish(W046 as int, SCALE as int);
            } else {
                lemma_div_is_ordered(-(W046 * c), W046 * (SCALE as int), SCALE as int);
                lemma_div_multiples_vanish(W046 as int, SCALE as int);
            }
        }
        let coeff = W054 - scaled;
        w.push(coeff);
        i = i + 1;
    }
    w
}

} // verus!
