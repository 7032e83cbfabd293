use vstd::prelude::*;
use rustfft::Fft;
use crate::fixed::{div_trunc, Cpx};

verus! {

/// Relies on rustfft's `FftPlanner::plan_fft_forward` and `Fft::process`:
/// the unnormalized forward transform of the samples, computed in the
/// transform's native complex values and rounded back to integers. Only the
/// length of the result is assumed: the transform picks its algorithm by the
/// machine's features, so the rounded values may differ between machines.
/// A transform of length zero is excluded; `process` would panic on it.
#[verifier::external_body]
pub fn fft(input: &Vec<Cpx>) -> (r: Vec<Cpx>)
    requires
        input@.len() >= 1,
    ensures
        r@.len() == input@.len(),
{
    let mut buf: Vec<rustfft::num_complex::Complex64> = input
        .iter()
        .map(|c| rustfft::num_complex::Complex64::new(c.re as _, c.im as _))
        .collect();
    let mut planner = rustfft::FftPlanner::new();
    let plan = planner.plan_fft_forward(buf.len());
    plan.process(&mut buf);
    buf.iter()
        .map(|c| (Cpx { re: c.re.round() as _, im: c.im.round() as _ }))
        .collect()
}

/// Relies on rustfft's `FftPlanner::plan_fft_inverse` and `Fft::process`:
/// the unnormalized inverse transform (the caller divides by the length).
/// Only the length of the result is assumed, as for the forward transform.
#[verifier::external_body]
fn ifft_raw(input: &Vec<Cpx>) -> (r: Vec<Cpx>)
    requires
        input@.len() >= 1,
    ensures
        r@.len() == input@.len(),
{
    let mut buf: Vec<rustfft::num_complex::Complex64> = input
        .iter()
        .map(|c| rustfft::num_complex::Complex64::new(c.re as _, c.im as _))
        .collect();
    let mut planner = rustfft::FftPlanner::new();
    let plan = planner.plan_fft_inverse(buf.len());
    plan.process(&mut buf);
    buf.iter()
        .map(|c| (Cpx { re: c.re.round() as _, im: c.im.round() as _ }))
        .collect()
}

/// Truncating division by a positive length.
fn div_len(a: i64, d: i64) -> (r: i64)
    requires
        1 <= d,
    ensures
        r == div_trunc(a as int, d as int),
{
    a / d
}

/// Both parts of every value divided by the transform length `n`: the
/// normalization that the unnormalized inverse transform leaves to its
/// consumer.
pub fn normalize(buf: &Vec<Cpx>, n: usize) -> (r: Vec<Cpx>)
    requires
        1 <= n <= 0x4000_0000,
    ensures
        r@.len() == buf@.len(),
        forall|i: int| 0 <= i < buf@.len() ==> #[trigger] r@[i] == (Cpx {
            re: div_trunc(buf@[i].re as int, n as int) as i64,
            im: div_trunc(buf@[i].im as int, n as int) as i64,
        }),
{
    let mut r: Vec<Cpx> = Vec::new();
    let mut i: usize = 0;
    while i < buf.len()
        invariant
            1 <= n <= 0x4000_0000,
            i <= buf@.len(),
            r@.len() == i,
            forall|j: int| 0 <= j < i ==> #[trigger] r@[j] == (Cpx {
                re: div_trunc(buf@[j].re as int, n as int) as i64,
                im: div_trunc(buf@[j].im as int, n as int) as i64,
            }),
        decreases buf@.len() - i,
    {
        let c = buf[i];
        let v = Cpx { re: div_len(c.re, n as i64), im: div_len(c.im, n as i64) };
        r.push(v);
        i = i + 1;
    }
    r
}

/// The inverse transform with the normalization applied: the exact values
/// are fixed by `normalize` over whatever the unnormalized transform
/// returned.
pub fn ifft(input: &Vec<Cpx>) -> (r: Vec<Cpx>)
    requires
        1 <= input@.len() <= 0x4000_0000,
    ensures
        r@.len() == input@.len(),
{
    let raw = ifft_raw(input);
    normalize(&raw, input.len())
}

} // verus!
