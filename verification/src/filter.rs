use vstd::prelude::*;
use vstd::arithmetic::div_mod::{
    lemma_fundamental_div_mod, lemma_mod_bound, lemma_mod_multiples_basic,
    lemma_multiply_divide_lt,
};
use crate::fixed::{clamp64, q15_mul, q15_prod, sat_add, Cpx};
use crate::window::{hamming_window, window_coeff, FPB_MAX};

verus! {

/// The largest supported sample rate in Hz.
pub const RATE_MAX: u64 = 0x1_0000_0000;

/// The largest supported impulse response length in samples.
pub const IMP_MAX: usize = 0x2000_0000;

/// Why construction of a filter fails.
#[derive(Clone, Copy, PartialEq, Eq, Structural, Debug)]
pub enum FilterError {
    /// Block size or sample rate zero or too large, or a cutoff frequency
    /// outside [0, sampleRate/2].
    Configuration,
    /// An empty (or oversized) impulse response.
    ImpulseResponseLoad,
}

/// A block filter: one call consumes one block of samples and emits one
/// block of the same length.
pub trait SoundFilter {
    /// How many samples one call consumes and produces.
    spec fn block_len(&self) -> nat;

    /// The state is well formed.
    spec fn wf(&self) -> bool;

    fn do_filtering(&mut self, buffer: &Vec<i64>) -> (out: Vec<i64>)
        requires
            old(self).wf(),
            buffer@.len() == old(self).block_len(),
        ensures
            final(self).wf(),
            final(self).block_len() == old(self).block_len(),
            out@.len() == old(self).block_len(),
    ;
}

/// Real samples as complex values with zero imaginary part.
pub fn to_complex(buf: &Vec<i64>) -> (r: Vec<Cpx>)
    ensures
        r@.len() == buf@.len(),
        forall|i: int| 0 <= i < buf@.len() ==> #[trigger] r@[i] == (Cpx {
            re: buf@[i],
            im: 0,
        }),
{
    let mut r: Vec<Cpx> = Vec::new();
    let mut i: usize = 0;
    while i < buf.len()
        invariant
            i <= buf@.len(),
            r@.len() == i,
            forall|j: int| 0 <= j < i ==> #[trigger] r@[j] == (Cpx { re: buf@[j], im: 0 }),
        decreases buf@.len() - i,
    {
        r.push(Cpx { re: buf[i], im: 0 });
        i = i + 1;
    }
    r
}

/// A run of zero samples.
fn zero_samples(n: usize) -> (r: Vec<i64>)
    ensures
        r@ == Seq::new(n as nat, |i: int| 0i64),
{
    let mut r: Vec<i64> = Vec::new();
    let mut i: usize = 0;
    while i < n
        invariant
            i <= n,
            r@.len() == i,
            forall|j: int| 0 <= j < i ==> r@[j] == 0i64,
        decreases n - i,
    {
        r.push(0);
        i = i + 1;
    }
    proof {
        assert(r@ =~= Seq::new(n as nat, |i: int| 0i64));
    }
    r
}

/// A run of complex zeros.
fn zero_spectrum(n: usize) -> (r: Vec<Cpx>)
    ensures
        r@ == Seq::new(n as nat, |i: int| Cpx::zero_spec()),
{
    let mut r: Vec<Cpx> = Vec::new();
    let mut i: usize = 0;
    while i < n
        invariant
            i <= n,
            r@.len() == i,
            forall|j: int| 0 <= j < i ==> r@[j] == Cpx::zero_spec(),
        decreases n - i,
    {
        r.push(Cpx::zero());
        i = i + 1;
    }
    proof {
        assert(r@ =~= Seq::new(n as nat, |i: int| Cpx::zero_spec()));
    }
    r
}

/// Bin i belongs to the set a band edit clears: the band [lo, hi) or its
/// mirror image [len-hi, len-lo).
pub open spec fn in_zeroed_band(i: int, lo: int, hi: int, len: int) -> bool {
    (lo <= i < hi) || (len - hi <= i < len - lo)
}

/// The spectrum with the band [lo, hi) and its mirror image zeroed.
pub open spec fn band_zeroed(s: Seq<Cpx>, lo: int, hi: int) -> Seq<Cpx> {
    Seq::new(
        s.len(),
        |i: int|
            if in_zeroed_band(i, lo, hi, s.len() as int) {
                Cpx::zero_spec()
            } else {
                s[i]
            },
    )
}

/// Zero the bins [lo, hi) of the spectrum together with their mirror bins,
/// so that the cleared set is closed under the pairing i <-> len-1-i.
pub fn zero_band(buf: &mut Vec<Cpx>, lo: usize, hi: usize)
    requires
        lo <= hi,
        2 * hi <= old(buf)@.len(),
    ensures
        final(buf)@ == band_zeroed(old(buf)@, lo as int, hi as int),
{
    let len = buf.len();
    let mut i: usize = lo;
    while i < hi
        invariant
            lo <= i <= hi,
            2 * hi <= len,
            buf@.len() == len,
            old(buf)@.len() == len,
            forall|j: int|
                0 <= j < len && in_zeroed_band(j, lo as int, i as int, len as int)
                    ==> #[trigger] buf@[j] == Cpx::zero_spec(),
            forall|j: int|
                0 <= j < len && !in_zeroed_band(j, lo as int, i as int, len as int)
                    ==> #[trigger] buf@[j] == old(buf)@[j],
        decreases hi - i,
    {
        buf[i] = Cpx::zero();
        buf[len - 1 - i] = Cpx::zero();
        i = i + 1;
    }
    proof {
        assert(buf@ =~= band_zeroed(old(buf)@, lo as int, hi as int));
    }
}

/// A band edit at a degenerate cutoff is the identity: a high-pass edit
/// whose cutoff bin is zero, or a low-pass edit whose cutoff bin has reached
/// the upper bound of the band, leaves every bin unchanged.
pub proof fn lemma_band_edit_identity(s: Seq<Cpx>, lo: int, hi: int)
    requires
        hi <= lo,
    ensures
        band_zeroed(s, lo, hi) == s,
{
    assert(band_zeroed(s, lo, hi) =~= s);
}

/// Hermitian symmetry of the band editors: the set of bins an edit zeroes is
/// closed under the mirror pairing, so if every zero bin of the spectrum had
/// a zero mirror bin before the edit, the same holds after it.
pub proof fn lemma_band_edit_hermitian(s: Seq<Cpx>, lo: int, hi: int)
    requires
        0 <= lo <= hi,
        2 * hi <= s.len(),
        forall|i: int|
            0 <= i < s.len() && #[trigger] s[i] == Cpx::zero_spec() ==> s[s.len() - 1 - i]
                == Cpx::zero_spec(),
    ensures
        forall|i: int|
            0 <= i < s.len() && #[trigger] band_zeroed(s, lo, hi)[i] == Cpx::zero_spec()
                ==> band_zeroed(s, lo, hi)[s.len() - 1 - i] == Cpx::zero_spec(),
{
    let e = band_zeroed(s, lo, hi);
    let len = s.len() as int;
    assert forall|i: int|
        0 <= i < len && #[trigger] e[i] == Cpx::zero_spec() implies e[len - 1 - i]
        == Cpx::zero_spec() by {
        if in_zeroed_band(i, lo, hi, len) {
            assert(in_zeroed_band(len - 1 - i, lo, hi, len));
        } else {
            assert(e[i] == s[i]);
            assert(s[len - 1 - i] == Cpx::zero_spec());
            if !in_zeroed_band(len - 1 - i, lo, hi, len) {
                assert(e[len - 1 - i] == s[len - 1 - i]);
            }
        }
    }
}

/// The cutoff bin: ceil(fc / resolution), with resolution = rate / (2 B),
/// computed exactly as ceil(fc * 2B / rate).
pub open spec fn bin_of(fc: int, fpb: int, rate: int) -> int {
    (fc * 2 * fpb + rate - 1) / rate
}

/// The band editors at their extreme cutoffs are the identity: a high-pass
/// edit with cutoff frequency zero clears nothing, and a low-pass edit whose
/// cutoff bin has reached the fixed upper bound 2B clears nothing.
pub proof fn lemma_extreme_cutoffs_are_identity(s: Seq<Cpx>, fpb: int, rate: int, k: int)
    requires
        1 <= fpb,
        1 <= rate,
    ensures
        band_zeroed(s, 0, bin_of(0, fpb, rate)) == s,
        k >= 2 * fpb ==> band_zeroed(s, k, 2 * fpb) == s,
{
    assert(0 * 2 * fpb == 0) by (nonlinear_arith);
    vstd::arithmetic::div_mod::lemma_basic_div(rate - 1, rate);
    assert(bin_of(0, fpb, rate) == 0);
    lemma_band_edit_identity(s, 0, 0);
    if k >= 2 * fpb {
        lemma_band_edit_identity(s, k, 2 * fpb);
    }
}

/// The cutoff bin of a cutoff frequency no higher than half the sample
/// rate; it never passes the half band.
pub fn cutoff_bin(fc: u64, fpb: usize, rate: u64) -> (k: usize)
    requires
        1 <= fpb <= FPB_MAX,
        1 <= rate <= RATE_MAX,
        2 * fc <= rate,
    ensures
        k == bin_of(fc as int, fpb as int, rate as int),
        k <= fpb,
        fc == 0 ==> k == 0,
{
    proof {
        assert(fc as int * 2 * fpb as int <= rate as int * fpb as int) by (nonlinear_arith)
            requires
                2 * fc as int <= rate as int,
                0 <= fc as int,
                1 <= fpb as int,
        ;
        assert(rate as int * fpb as int <= 0x1_0000_0000 * 0x10_0000) by (nonlinear_arith)
            requires
                1 <= rate as int <= 0x1_0000_0000,
                1 <= fpb as int <= 0x10_0000,
        ;
    }
    let num: u64 = fc * 2 * (fpb as u64);
    let k64: u64 = (num + rate - 1) / rate;
    proof {
        assert(num as int + rate as int - 1 < rate as int * (fpb as int + 1)) by (nonlinear_arith)
            requires
                num as int <= rate as int * fpb as int,
                1 <= rate as int,
        ;
        lemma_multiply_divide_lt(num as int + rate as int - 1, rate as int, fpb as int + 1);
        if fc == 0 {
            vstd::arithmetic::div_mod::lemma_basic_div(rate as int - 1, rate as int);
            assert(num == 0) by (nonlinear_arith)
                requires
                    fc == 0,
                    num as int == fc as int * 2 * fpb as int,
            ;
            assert(k64 as int == (rate as int - 1) / (rate as int));
            assert(k64 == 0);
        }
    }
    k64 as usize
}

/// The analysis frame: the carried block followed by the new samples, the
/// real part of every slot scaled by the matching taper coefficient. The
/// imaginary parts of the carried block pass through unscaled (they are zero
/// in every reachable state).
pub fn windowed_frame(prev: &Vec<Cpx>, fresh: &Vec<i64>, window: &Vec<i64>) -> (r: Vec<Cpx>)
    requires
        window@.len() == prev@.len() + fresh@.len(),
    ensures
        r@.len() == window@.len(),
        forall|i: int| 0 <= i < prev@.len() ==> #[trigger] r@[i] == (Cpx {
            re: clamp64(q15_prod(prev@[i].re as int, window@[i] as int)) as i64,
            im: prev@[i].im,
        }),
        forall|i: int| prev@.len() <= i < window@.len() ==> #[trigger] r@[i] == (Cpx {
            re: clamp64(q15_prod(fresh@[i - prev@.len()] as int, window@[i] as int)) as i64,
            im: 0,
        }),
{
    let mut r: Vec<Cpx> = Vec::new();
    let mut i: usize = 0;
    let np = prev.len();
    while i < np
        invariant
            i <= np,
            np == prev@.len(),
            window@.len() == prev@.len() + fresh@.len(),
            r@.len() == i,
            forall|j: int| 0 <= j < i ==> #[trigger] r@[j] == (Cpx {
                re: clamp64(q15_prod(prev@[j].re as int, window@[j] as int)) as i64,
                im: prev@[j].im,
            }),
        decreases np - i,
    {
        let c = prev[i];
        r.push(Cpx { re: q15_mul(c.re, window[i]), im: c.im });
        i = i + 1;
    }
    let mut j: usize = 0;
    let nf = fresh.len();
    let nw = window.len();
    while j < nf
        invariant
            j <= nf,
            np == prev@.len(),
            nf == fresh@.len(),
            nw == window@.len(),
            window@.len() == prev@.len() + fresh@.len(),
            r@.len() == np + j,
            forall|t: int| 0 <= t < np ==> #[trigger] r@[t] == (Cpx {
                re: clamp64(q15_prod(prev@[t].re as int, window@[t] as int)) as i64,
                im: prev@[t].im,
            }),
            forall|t: int| np <= t < np + j ==> #[trigger] r@[t] == (Cpx {
                re: clamp64(q15_prod(fresh@[t - np] as int, window@[t] as int)) as i64,
                im: 0,
            }),
        decreases nf - j,
    {
        r.push(Cpx { re: q15_mul(fresh[j], window[np + j]), im: 0 });
        j = j + 1;
    }
    r
}

/// Overlap-add reconstruction from a normalized inverse transform of length
/// 2n and the carried tail of length n: the emitted block is the first half
/// of the inverse result plus the tail, and the second half of the inverse
/// result becomes the tail carried to the next call.
pub fn reconstruct(inverse: &Vec<Cpx>, tail: &Vec<i64>) -> (r: (Vec<i64>, Vec<i64>))
    requires
        inverse@.len() == 2 * tail@.len(),
    ensures
        r.0@.len() == tail@.len(),
        r.1@.len() == tail@.len(),
        forall|i: int| 0 <= i < tail@.len() ==> #[trigger] r.0@[i] == clamp64(
            inverse@[i].re + tail@[i],
        ),
        forall|i: int| 0 <= i < tail@.len() ==> #[trigger] r.1@[i] == inverse@[
            tail@.len() as int + i
        ].re,
{
    let n = tail.len();
    let m = inverse.len();
    let mut out: Vec<i64> = Vec::new();
    let mut carry: Vec<i64> = Vec::new();
    let mut i: usize = 0;
    while i < n
        invariant
            i <= n,
            n == tail@.len(),
            m == inverse@.len(),
            inverse@.len() == 2 * n,
            out@.len() == i,
            carry@.len() == i,
            forall|j: int| 0 <= j < i ==> #[trigger] out@[j] == clamp64(
                inverse@[j].re + tail@[j],
            ),
            forall|j: int| 0 <= j < i ==> #[trigger] carry@[j] == inverse@[n as int + j].re,
        decreases n - i,
    {
        out.push(sat_add(inverse[i].re, tail[i]));
        carry.push(inverse[n + i].re);
        i = i + 1;
    }
    (out, carry)
}

/// Slide the buffer left by the length of the new block and write the new
/// block into the freed slots at the end.
pub fn shift_in(buf: &mut Vec<i64>, fresh: &Vec<i64>)
    requires
        fresh@.len() <= old(buf)@.len(),
    ensures
        final(buf)@ == old(buf)@.skip(fresh@.len() as int) + fresh@,
{
    let n = fresh.len();
    let len = buf.len();
    let mut i: usize = 0;
    while i < len - n
        invariant
            n == fresh@.len(),
            len == buf@.len(),
            old(buf)@.len() == len,
            n <= len,
            i <= len - n,
            forall|j: int| 0 <= j < i ==> #[trigger] buf@[j] == old(buf)@[j + n],
            forall|j: int| i <= j < len ==> #[trigger] buf@[j] == old(buf)@[j],
        decreases len - n - i,
    {
        let v = buf[i + n];
        buf[i] = v;
        i = i + 1;
    }
    let mut j: usize = 0;
    while j < n
        invariant
            n == fresh@.len(),
            len == buf@.len(),
            old(buf)@.len() == len,
            n <= len,
            j <= n,
            forall|t: int| 0 <= t < len - n ==> #[trigger] buf@[t] == old(buf)@[t + n],
            forall|t: int|
                len - n <= t < len - n + j ==> #[trigger] buf@[t] == fresh@[t - (len - n)],
        decreases n - j,
    {
        buf[len - n + j] = fresh[j];
        j = j + 1;
    }
    proof {
        assert(buf@ =~= old(buf)@.skip(fresh@.len() as int) + fresh@);
    }
}

/// The elementwise Q15 complex product of two spectra of equal length.
pub fn cpx_mul_vec(a: &Vec<Cpx>, b: &Vec<Cpx>) -> (r: Vec<Cpx>)
    requires
        a@.len() == b@.len(),
    ensures
        r@.len() == a@.len(),
        forall|i: int| 0 <= i < a@.len() ==> #[trigger] r@[i] == Cpx::mul_spec(a@[i], b@[i]),
{
    let mut r: Vec<Cpx> = Vec::new();
    let mut i: usize = 0;
    while i < a.len()
        invariant
            i <= a@.len(),
            a@.len() == b@.len(),
            r@.len() == i,
            forall|j: int| 0 <= j < i ==> #[trigger] r@[j] == Cpx::mul_spec(a@[j], b@[j]),
        decreases a@.len() - i,
    {
        r.push(crate::fixed::cpx_mul(a[i], b[i]));
        i = i + 1;
    }
    r
}

/// The real parts of the last n values, in their original order.
pub fn tail_real(buf: &Vec<Cpx>, n: usize) -> (r: Vec<i64>)
    requires
        n <= buf@.len(),
    ensures
        r@.len() == n,
        forall|i: int| 0 <= i < n ==> #[trigger] r@[i] == buf@[buf@.len() - n + i].re,
{
    let len = buf.len();
    let mut r: Vec<i64> = Vec::new();
    let mut i: usize = 0;
    while i < n
        invariant
            i <= n,
            n <= len,
            len == buf@.len(),
            r@.len() == i,
            forall|j: int| 0 <= j < i ==> #[trigger] r@[j] == buf@[len - n + j].re,
        decreases n - i,
    {
        r.push(buf[len - n + i].re);
        i = i + 1;
    }
    r
}

/// The overlap-add band-limiting filter: carries the previous block, windows
/// the concatenated frame, exposes the spectrum to the band editors, and
/// reconstructs a continuous output by overlap-add.
pub struct NoiseCancelFilter {
    /// The raised-cosine taper of length 4B, fixed at construction.
    pub window: Vec<i64>,
    /// The second half of the previous normalized inverse transform: the
    /// carried output tail of length 2B.
    pub last_filtered_buf: Vec<i64>,
    /// The previous input block of length 2B, as complex samples.
    pub last_buf: Vec<Cpx>,
    /// The block size B.
    pub frames_per_buffer: usize,
    /// The sample rate in Hz; the bin resolution is rate / (2 B).
    pub sample_rate: u64,
    /// The spectrum of the current frame, of length 4B.
    pub fft_buffer: Vec<Cpx>,
    /// The high-pass cutoff in Hz.
    pub highpass_fc: u64,
    /// The low-pass cutoff in Hz.
    pub lowpass_fc: u64,
}

impl NoiseCancelFilter {
    /// The block size as a mathematical integer.
    pub open spec fn fpb(&self) -> int {
        self.frames_per_buffer as int
    }

    /// Well-formed state: valid configuration, the taper fixed by its
    /// formula, and every buffer at its construction length.
    pub open spec fn inv(&self) -> bool {
        &&& 1 <= self.frames_per_buffer <= FPB_MAX
        &&& 1 <= self.sample_rate <= RATE_MAX
        &&& 2 * self.highpass_fc <= self.sample_rate
        &&& 2 * self.lowpass_fc <= self.sample_rate
        &&& self.window@.len() == 4 * self.fpb()
        &&& forall|i: int|
            0 <= i < 4 * self.fpb() ==> #[trigger] self.window@[i] == window_coeff(
                i,
                self.fpb(),
            )
        &&& self.last_buf@.len() == 2 * self.fpb()
        &&& self.last_filtered_buf@.len() == 2 * self.fpb()
        &&& self.fft_buffer@.len() == 4 * self.fpb()
    }

    /// The configuration does not change over a filter's lifetime.
    pub open spec fn same_config(&self, other: &Self) -> bool {
        &&& self.window@ == other.window@
        &&& self.frames_per_buffer == other.frames_per_buffer
        &&& self.sample_rate == other.sample_rate
        &&& self.highpass_fc == other.highpass_fc
        &&& self.lowpass_fc == other.lowpass_fc
    }

    /// The spectral bin below which the high-pass edit clears.
    pub open spec fn highpass_bin(&self) -> int {
        bin_of(self.highpass_fc as int, self.fpb(), self.sample_rate as int)
    }

    /// The spectral bin from which the low-pass edit clears, up to 2B.
    pub open spec fn lowpass_bin(&self) -> int {
        bin_of(self.lowpass_fc as int, self.fpb(), self.sample_rate as int)
    }

    /// The configuration is accepted exactly when the block size and sample
    /// rate are positive and within the machine bounds and both cutoffs are
    /// at most half the sample rate.
    pub open spec fn config_ok(
        frames_per_buffer: usize,
        sample_rate: u64,
        highpass_fc: u64,
        lowpass_fc: u64,
    ) -> bool {
        &&& 1 <= frames_per_buffer <= FPB_MAX
        &&& 1 <= sample_rate <= RATE_MAX
        &&& 2 * highpass_fc <= sample_rate
        &&& 2 * lowpass_fc <= sample_rate
    }

    /// Construct a filter of block size B: the taper is computed once, the
    /// carried block and tail start at zero, and a bad configuration is
    /// rejected.
    pub fn new(
        frames_per_buffer: usize,
        sample_rate: u64,
        highpass_fc: u64,
        lowpass_fc: u64,
    ) -> (r: Result<NoiseCancelFilter, FilterError>)
        ensures
            r is Ok <==> Self::config_ok(frames_per_buffer, sample_rate, highpass_fc, lowpass_fc),
            r matches Ok(f) ==> {
                &&& f.inv()
                &&& f.frames_per_buffer == frames_per_buffer
                &&& f.sample_rate == sample_rate
                &&& f.highpass_fc == highpass_fc
                &&& f.lowpass_fc == lowpass_fc
                &&& f.last_buf@ == Seq::new((2 * frames_per_buffer) as nat, |i: int| Cpx::zero_spec())
                &&& f.last_filtered_buf@ == Seq::new((2 * frames_per_buffer) as nat, |i: int| 0i64)
                &&& f.fft_buffer@ == Seq::new((4 * frames_per_buffer) as nat, |i: int| Cpx::zero_spec())
            },
            r matches Err(e) ==> e == FilterError::Configuration,
    {
        if frames_per_buffer < 1 || frames_per_buffer > FPB_MAX {
            return Err(FilterError::Configuration);
        }
        if sample_rate < 1 || sample_rate > RATE_MAX {
            return Err(FilterError::Configuration);
        }
        if highpass_fc > sample_rate / 2 || lowpass_fc > sample_rate / 2 {
            return Err(FilterError::Configuration);
        }
        proof {
            vstd::arithmetic::div_mod::lemma_fundamental_div_mod(sample_rate as int, 2);
            lemma_mod_bound(sample_rate as int, 2);
        }
        let window = hamming_window(frames_per_buffer);
        let last_filtered_buf = zero_samples(2 * frames_per_buffer);
        let last_buf = zero_spectrum(2 * frames_per_buffer);
        let fft_buffer = zero_spectrum(4 * frames_per_buffer);
        Ok(NoiseCancelFilter {
            window,
            last_filtered_buf,
            last_buf,
            frames_per_buffer,
            sample_rate,
            fft_buffer,
            highpass_fc,
            lowpass_fc,
        })
    }

    /// Read access to the spectrum of the current frame, for inspection
    /// between the forward transform and the band edits.
    pub fn spectrum(&self) -> (r: &Vec<Cpx>)
        ensures
            r@ == self.fft_buffer@,
    {
        &self.fft_buffer
    }

    /// Read access to the taper.
    pub fn window_coeffs(&self) -> (r: &Vec<i64>)
        ensures
            r@ == self.window@,
    {
        &self.window
    }

    /// Consume one block of 2B new samples: window the carried block
    /// followed by the new block, update the carried block to the unwindowed
    /// new samples, and forward-transform the frame into the spectrum
    /// buffer.
    pub fn fft(&mut self, buffer: &Vec<i64>)
        requires
            old(self).inv(),
            buffer@.len() == 2 * old(self).fpb(),
        ensures
            final(self).inv(),
            final(self).same_config(old(self)),
            final(self).last_buf@.len() == buffer@.len(),
            forall|i: int| 0 <= i < buffer@.len() ==> #[trigger] final(self).last_buf@[i] == (Cpx {
                re: buffer@[i],
                im: 0,
            }),
            final(self).last_filtered_buf@ == old(self).last_filtered_buf@,
            final(self).fft_buffer@.len() == 4 * old(self).fpb(),
    {
        let frame = windowed_frame(&self.last_buf, buffer, &self.window);
        self.last_buf = to_complex(buffer);
        self.fft_buffer = crate::fft::fft(&frame);
    }

    /// Zero the spectrum below the high-pass cutoff bin, and symmetrically
    /// at the mirror bins; a zero cutoff leaves the spectrum unchanged.
    pub fn highpass_filter(&mut self)
        requires
            old(self).inv(),
        ensures
            final(self).inv(),
            final(self).same_config(old(self)),
            final(self).last_buf@ == old(self).last_buf@,
            final(self).last_filtered_buf@ == old(self).last_filtered_buf@,
            final(self).fft_buffer@ == band_zeroed(
                old(self).fft_buffer@,
                0,
                old(self).highpass_bin(),
            ),
            old(self).highpass_fc == 0 ==> final(self).fft_buffer@ == old(self).fft_buffer@,
    {
        let k = cutoff_bin(self.highpass_fc, self.frames_per_buffer, self.sample_rate);
        zero_band(&mut self.fft_buffer, 0, k);
        proof {
            if self.highpass_fc == 0 {
                lemma_band_edit_identity(old(self).fft_buffer@, 0, 0);
            }
        }
    }

    /// Zero the spectrum from the low-pass cutoff bin up to the fixed upper
    /// bound 2B, and symmetrically at the mirror bins.
    pub fn lowpass_filter(&mut self)
        requires
            old(self).inv(),
        ensures
            final(self).inv(),
            final(self).same_config(old(self)),
            final(self).last_buf@ == old(self).last_buf@,
            final(self).last_filtered_buf@ == old(self).last_filtered_buf@,
            final(self).fft_buffer@ == band_zeroed(
                old(self).fft_buffer@,
                old(self).lowpass_bin(),
                2 * old(self).fpb(),
            ),
    {
        let k = cutoff_bin(self.lowpass_fc, self.frames_per_buffer, self.sample_rate);
        zero_band(&mut self.fft_buffer, k, 2 * self.frames_per_buffer);
    }

    /// Inverse-transform the spectrum, normalize by its length 4B, emit 2B
    /// samples by overlap-add with the carried tail, and carry the second
    /// half of the normalized inverse result as the next tail.
    pub fn ifft(&mut self) -> (out: Vec<i64>)
        requires
            old(self).inv(),
        ensures
            final(self).inv(),
            final(self).same_config(old(self)),
            final(self).last_buf@ == old(self).last_buf@,
            final(self).fft_buffer@ == old(self).fft_buffer@,
            out@.len() == 2 * old(self).fpb(),
            final(self).last_filtered_buf@.len() == 2 * old(self).fpb(),
    {
        let inv = crate::fft::ifft(&self.fft_buffer);
        let (out, carry) = reconstruct(&inv, &self.last_filtered_buf);
        self.last_filtered_buf = carry;
        out
    }
}

impl SoundFilter for NoiseCancelFilter {
    /// One call consumes and produces 2B samples.
    open spec fn block_len(&self) -> nat {
        (2 * self.frames_per_buffer) as nat
    }

    open spec fn wf(&self) -> bool {
        self.inv()
    }

    /// One overlap-add step: forward transform, both band edits, inverse
    /// transform and reconstruction.
    fn do_filtering(&mut self, buffer: &Vec<i64>) -> (out: Vec<i64>)
        ensures
            final(self).same_config(old(self)),
            final(self).last_buf@.len() == buffer@.len(),
            forall|i: int| 0 <= i < buffer@.len() ==> #[trigger] final(self).last_buf@[i] == (Cpx {
                re: buffer@[i],
                im: 0,
            }),
    {
        self.fft(buffer);
        self.highpass_filter();
        self.lowpass_filter();
        self.ifft()
    }
}

/// The impulse response length rounded up to a whole number of 2B blocks.
pub open spec fn padded_len(n: int, fpb: int) -> int {
    2 * fpb * ((n + 2 * fpb - 1) / (2 * fpb))
}

/// The convolution reverb filter: keeps a sliding buffer of the most recent
/// input covering the impulse response, and convolves by multiplying spectra.
pub struct RevrebFilter {
    /// The most recent samples, as many as the padded impulse response.
    pub reverb_buffer: Vec<i64>,
    /// The impulse response, zero-padded to a whole number of 2B blocks;
    /// fixed at construction, transformed afresh on every call.
    pub imp_res: Vec<Cpx>,
    /// The product spectrum of the last call.
    pub fft_buffer: Vec<Cpx>,
    /// The block size B.
    pub frames_per_buffer: usize,
}

impl RevrebFilter {
    /// The block size as a mathematical integer.
    pub open spec fn fpb(&self) -> int {
        self.frames_per_buffer as int
    }

    /// Well-formed state: all three buffers share the padded length, a
    /// positive whole number of 2B blocks.
    pub open spec fn inv(&self) -> bool {
        &&& 1 <= self.frames_per_buffer <= FPB_MAX
        &&& self.reverb_buffer@.len() == self.imp_res@.len()
        &&& self.fft_buffer@.len() == self.imp_res@.len()
        &&& self.imp_res@.len() % (2 * self.fpb()) as nat == 0
        &&& 2 * self.fpb() <= self.imp_res@.len() <= 0x4000_0000
    }

    /// The configuration is accepted exactly when the block size and sample
    /// rate are positive and within the machine bounds.
    pub open spec fn config_ok(frames_per_buffer: usize, sample_rate: u64) -> bool {
        &&& 1 <= frames_per_buffer <= FPB_MAX
        &&& 1 <= sample_rate <= RATE_MAX
    }

    /// Construct a reverb filter from an impulse response of 16-bit samples
    /// (already on the Q15 scale). The response is zero-padded to a whole
    /// number of 2B blocks; an empty or oversized response is rejected, as
    /// is a bad configuration.
    pub fn new(frames_per_buffer: usize, sample_rate: u64, impulse: &Vec<i16>) -> (r: Result<
        RevrebFilter,
        FilterError,
    >)
        ensures
            r is Ok <==> (Self::config_ok(frames_per_buffer, sample_rate) && 1 <= impulse@.len()
                <= IMP_MAX),
            r matches Ok(f) ==> {
                &&& f.inv()
                &&& f.frames_per_buffer == frames_per_buffer
                &&& f.imp_res@.len() == padded_len(impulse@.len() as int, frames_per_buffer as int)
                &&& forall|i: int|
                    0 <= i < impulse@.len() ==> #[trigger] f.imp_res@[i] == (Cpx {
                        re: impulse@[i] as i64,
                        im: 0,
                    })
                &&& forall|i: int|
                    impulse@.len() <= i < f.imp_res@.len() ==> #[trigger] f.imp_res@[i]
                        == Cpx::zero_spec()
                &&& f.reverb_buffer@ == Seq::new(f.imp_res@.len(), |i: int| 0i64)
                &&& f.fft_buffer@ == Seq::new(f.imp_res@.len(), |i: int| Cpx::zero_spec())
            },
            r matches Err(e) ==> if !Self::config_ok(frames_per_buffer, sample_rate) {
                e == FilterError::Configuration
            } else {
                e == FilterError::ImpulseResponseLoad
            },
    {
        if frames_per_buffer < 1 || frames_per_buffer > FPB_MAX {
            return Err(FilterError::Configuration);
        }
        if sample_rate < 1 || sample_rate > RATE_MAX {
            return Err(FilterError::Configuration);
        }
        let n = impulse.len();
        if n < 1 || n > IMP_MAX {
            return Err(FilterError::ImpulseResponseLoad);
        }
        let m: usize = 2 * frames_per_buffer;
        let block: usize = (n + m - 1) / m;
        proof {
            lemma_fundamental_div_mod(n as int + m as int - 1, m as int);
            lemma_mod_bound(n as int + m as int - 1, m as int);
            vstd::arithmetic::div_mod::lemma_div_is_ordered(
                m as int,
                n as int + m as int - 1,
                m as int,
            );
            vstd::arithmetic::div_mod::lemma_div_multiples_vanish(1, m as int);
            assert(block >= 1);
            assert(m as int * block as int == n as int + m as int - 1 - ((n as int + m as int - 1)
                % m as int));
            lemma_mod_multiples_basic(block as int, m as int);
            assert(block as int * m as int == m as int * block as int) by (nonlinear_arith);
        }
        let padded: usize = m * block;
        let mut imp: Vec<Cpx> = Vec::new();
        let mut i: usize = 0;
        while i < n
            invariant
                i <= n,
                n == impulse@.len(),
                imp@.len() == i,
                forall|j: int| 0 <= j < i ==> #[trigger] imp@[j] == (Cpx {
                    re: impulse@[j] as i64,
                    im: 0,
                }),
            decreases n - i,
        {
            imp.push(Cpx { re: impulse[i] as i64, im: 0 });
            i = i + 1;
        }
        while i < padded
            invariant
                n <= i <= padded,
                n == impulse@.len(),
                imp@.len() == i,
                forall|j: int| 0 <= j < n ==> #[trigger] imp@[j] == (Cpx {
                    re: impulse@[j] as i64,
                    im: 0,
                }),
                forall|j: int| n <= j < i ==> #[trigger] imp@[j] == Cpx::zero_spec(),
            decreases padded - i,
        {
            imp.push(Cpx::zero());
            i = i + 1;
        }
        let reverb_buffer = zero_samples(padded);
        let fft_buffer = zero_spectrum(padded);
        proof {
            assert(m as int * block as int >= m as int) by (nonlinear_arith)
                requires
                    1 <= block as int,
                    1 <= m as int,
            ;
            assert(reverb_buffer@ =~= Seq::new(imp@.len(), |i: int| 0i64));
            assert(fft_buffer@ =~= Seq::new(imp@.len(), |i: int| Cpx::zero_spec()));
        }
        Ok(RevrebFilter { reverb_buffer, imp_res: imp, fft_buffer, frames_per_buffer })
    }

    /// Read access to the sliding input buffer.
    pub fn sliding_buffer(&self) -> (r: &Vec<i64>)
        ensures
            r@ == self.reverb_buffer@,
    {
        &self.reverb_buffer
    }

    /// Read access to the padded impulse response.
    pub fn impulse_response(&self) -> (r: &Vec<Cpx>)
        ensures
            r@ == self.imp_res@,
    {
        &self.imp_res
    }
}

impl SoundFilter for RevrebFilter {
    /// One call consumes and produces B samples.
    open spec fn block_len(&self) -> nat {
        self.frames_per_buffer as nat
    }

    open spec fn wf(&self) -> bool {
        self.inv()
    }

    /// One reverb step: slide the input buffer, transform it and a fresh
    /// copy of the padded impulse response, multiply the spectra, inverse
    /// transform, and emit the most recent B samples of the convolution.
    fn do_filtering(&mut self, buffer: &Vec<i64>) -> (out: Vec<i64>)
        ensures
            final(self).reverb_buffer@ == old(self).reverb_buffer@.skip(
                old(self).frames_per_buffer as int,
            ) + buffer@,
            final(self).imp_res@ == old(self).imp_res@,
            final(self).frames_per_buffer == old(self).frames_per_buffer,
    {
        shift_in(&mut self.reverb_buffer, buffer);
        let time = to_complex(&self.reverb_buffer);
        let s1 = crate::fft::fft(&time);
        let s2 = crate::fft::fft(&self.imp_res);
        let prod = cpx_mul_vec(&s1, &s2);
        self.fft_buffer = prod;
        let inv = crate::fft::ifft(&self.fft_buffer);
        let out = tail_real(&inv, self.frames_per_buffer);
        out
    }
}

} // verus!
