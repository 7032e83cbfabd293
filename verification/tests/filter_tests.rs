use sound_filter::fft::{fft, ifft};
use sound_filter::filter::{FilterError, NoiseCancelFilter, RevrebFilter, SoundFilter};
use sound_filter::fixed::{cpx_mul, q15_mul, sat_add, Cpx};

fn to_cpx(values: &[i64]) -> Vec<Cpx> {
    values.iter().map(|&v| Cpx { re: v, im: 0 }).collect()
}

fn assert_close(actual: i64, expected: i64, tol: i64, what: &str) {
    let d = (actual - expected).abs();
    assert!(
        d <= tol,
        "{}: actual {} expected {} (off by {})",
        what,
        actual,
        expected,
        d
    );
}

// Round trip of the transform provider on a power-of-two length:
// inverseTransform(forwardTransform(x)) / N == x within tolerance.
#[test]
fn round_trip_power_of_two() {
    let x: Vec<i64> = vec![12000, -8000, 3000, 32767, -32768, 500, -1, 0];
    let spec = fft(&to_cpx(&x));
    assert_eq!(spec.len(), x.len());
    let back = ifft(&spec);
    assert_eq!(back.len(), x.len());
    for i in 0..x.len() {
        assert_close(back[i].re, x[i], 4, "real part");
        assert_close(back[i].im, 0, 4, "imaginary part");
    }
}

// The same round trip on a non-power-of-two length.
#[test]
fn round_trip_non_power_of_two() {
    let x: Vec<i64> = vec![
        100, -200, 3000, -4000, 5000, 6000, -7000, 8000, 9999, -32768, 32767, 1,
    ];
    assert_eq!(x.len(), 12);
    let back = ifft(&fft(&to_cpx(&x)));
    for i in 0..x.len() {
        assert_close(back[i].re, x[i], 4, "real part");
        assert_close(back[i].im, 0, 4, "imaginary part");
    }
}

// The forward transform of a constant block puts all the energy in bin 0:
// a transform that handed its input back unchanged would fail this.
#[test]
fn forward_transform_constant_block() {
    let x: Vec<i64> = vec![1000; 8];
    let spec = fft(&to_cpx(&x));
    assert_close(spec[0].re, 8000, 2, "bin 0");
    for i in 1..8 {
        assert_close(spec[i].re, 0, 2, "nonzero bin real part");
        assert_close(spec[i].im, 0, 2, "nonzero bin imaginary part");
    }
}

// Configuration errors of the overlap-add filter: zero block size, zero
// sample rate, and a cutoff above half the sample rate are all rejected.
#[test]
fn noise_cancel_configuration_errors() {
    assert_eq!(
        NoiseCancelFilter::new(0, 44100, 150, 3000).err(),
        Some(FilterError::Configuration)
    );
    assert_eq!(
        NoiseCancelFilter::new(4, 0, 0, 0).err(),
        Some(FilterError::Configuration)
    );
    assert_eq!(
        NoiseCancelFilter::new(4, 44100, 30000, 0).err(),
        Some(FilterError::Configuration)
    );
    assert_eq!(
        NoiseCancelFilter::new(4, 44100, 0, 30000).err(),
        Some(FilterError::Configuration)
    );
    assert!(NoiseCancelFilter::new(4, 44100, 150, 3000).is_ok());
    assert!(NoiseCancelFilter::new(4, 44100, 0, 22050).is_ok());
}

// Construction errors of the reverb filter: a bad configuration is reported
// before the impulse response, and an empty impulse response is rejected.
#[test]
fn reverb_construction_errors() {
    assert_eq!(
        RevrebFilter::new(0, 44100, &vec![1i16]).err(),
        Some(FilterError::Configuration)
    );
    assert_eq!(
        RevrebFilter::new(4, 0, &vec![1i16]).err(),
        Some(FilterError::Configuration)
    );
    assert_eq!(
        RevrebFilter::new(4, 44100, &Vec::new()).err(),
        Some(FilterError::ImpulseResponseLoad)
    );
    assert_eq!(
        RevrebFilter::new(0, 44100, &Vec::new()).err(),
        Some(FilterError::Configuration)
    );
    assert!(RevrebFilter::new(4, 44100, &vec![1i16, 2, 3]).is_ok());
}

// The taper: first and last coefficients equal the Q15 value of
// 0.54 - 0.46 = 0.08, every coefficient is positive and at most one, and
// the peak comes close to one.
#[test]
fn window_shape() {
    let f = NoiseCancelFilter::new(8, 44100, 0, 0).unwrap();
    let w = f.window_coeffs();
    assert_eq!(w.len(), 32);
    assert_eq!(w[0], 2622);
    assert_eq!(w[31], 2622);
    let mut peak = 0i64;
    for &c in w.iter() {
        assert!(0 < c && c <= 32768);
        if c > peak {
            peak = c;
        }
    }
    assert!(peak >= 32000, "peak {} too low", peak);
}

// Hermitian symmetry after band edits: with B=4, rate 16000, cutoffs 300 Hz
// and 3000 Hz, the high-pass clears bin 0 and its mirror 15, the low-pass
// clears bins 2..8 and their mirrors 8..14, and every zeroed bin has a
// zeroed mirror.
#[test]
fn band_edits_zero_symmetric_bins() {
    let mut f = NoiseCancelFilter::new(4, 16000, 300, 3000).unwrap();
    let block: Vec<i64> = vec![9000, -2500, 14000, 700, -30000, 22000, 5, -1];
    f.fft(&block);
    f.highpass_filter();
    f.lowpass_filter();
    let spec = f.spectrum();
    assert_eq!(spec.len(), 16);
    let zeroed: Vec<usize> = vec![0, 2, 3, 4, 5, 6, 7, 8, 9, 10, 11, 12, 13, 15];
    for &i in zeroed.iter() {
        assert_eq!((spec[i].re, spec[i].im), (0, 0), "bin {} not cleared", i);
    }
    // the surviving band really carries signal
    assert!(spec[1].re != 0 || spec[1].im != 0);
    // mirror closure over the whole spectrum
    for i in 0..16 {
        if spec[i].re == 0 && spec[i].im == 0 {
            let j = 15 - i;
            assert_eq!((spec[j].re, spec[j].im), (0, 0), "mirror of {} not zero", i);
        }
    }
}

// A zero high-pass cutoff leaves the spectrum untouched.
#[test]
fn highpass_zero_cutoff_is_identity() {
    let mut f = NoiseCancelFilter::new(4, 16000, 0, 3000).unwrap();
    let block: Vec<i64> = vec![9000, -2500, 14000, 700, -30000, 22000, 5, -1];
    f.fft(&block);
    let before: Vec<Cpx> = f.spectrum().clone();
    f.highpass_filter();
    assert_eq!(f.spectrum(), &before);
}

// Overlap-add reconstruction of a constant-amplitude input: once the carried
// state is warm, each output sample equals the input scaled by the sum of
// the two taper coefficients that cover it (about 1.08 for this taper).
#[test]
fn constant_input_converges() {
    let b = 8usize;
    let c = 16384i64;
    let mut f = NoiseCancelFilter::new(b, 44100, 0, 0).unwrap();
    let w: Vec<i64> = f.window_coeffs().clone();
    let block: Vec<i64> = vec![c; 2 * b];
    let mut last: Vec<i64> = Vec::new();
    for _ in 0..4 {
        f.fft(&block);
        last = f.ifft();
    }
    assert_eq!(last.len(), 2 * b);
    for j in 0..2 * b {
        let expected = (c * w[j]) / 32768 + (c * w[j + 2 * b]) / 32768;
        assert_close(last[j], expected, 8, "steady-state output");
        assert_close(last[j], (108 * c) / 100, 1200, "output near 1.08 c");
    }
}

// The concrete scenario: B=4 samples per call, three all-zero calls produce
// exactly zero output; the call that carries full-scale ones still emits
// zeros (its windowed first half covers the zero history), the next call
// emits the taper's ramp, and the call after that is zero again; nothing
// saturates anywhere.
#[test]
fn zero_blocks_then_ones_block() {
    let mut f = NoiseCancelFilter::new(2, 8000, 0, 0).unwrap();
    let w: Vec<i64> = f.window_coeffs().clone();
    let zero_block: Vec<i64> = vec![0; 4];
    for _ in 0..3 {
        f.fft(&zero_block);
        let out = f.ifft();
        assert_eq!(out, vec![0i64; 4]);
    }
    let ones: Vec<i64> = vec![32768; 4];
    f.fft(&ones);
    let out4 = f.ifft();
    assert_eq!(out4.len(), 4);
    for j in 0..4 {
        assert_close(out4[j], 0, 4, "output while the ones block is carried");
    }
    f.fft(&zero_block);
    let out5 = f.ifft();
    for j in 0..4 {
        // the windowed carried ones block plus the tail of the ones frame
        assert_close(out5[j], w[j] + w[4 + j], 8, "ramp after the ones block");
        assert!(out5[j].abs() <= 2 * 32768);
    }
    assert!(out5[0] != out5[1], "the ramp reflects the taper's shape");
    f.fft(&zero_block);
    let out6 = f.ifft();
    for j in 0..4 {
        assert_close(out6[j], 0, 4, "output after the ramp has passed");
    }
}

// Convolution reverb with an identity kernel (a single near-unit sample at
// index 0) reproduces each input block unchanged within tolerance.
#[test]
fn reverb_identity_kernel() {
    let mut f = RevrebFilter::new(4, 44100, &vec![32767i16]).unwrap();
    let blocks: Vec<Vec<i64>> = vec![
        vec![1000, -2000, 3000, -4000],
        vec![32767, 0, -32768, 12345],
        vec![7, 8, 9, 10],
    ];
    for block in blocks.iter() {
        let out = f.do_filtering(block);
        assert_eq!(out.len(), 4);
        for i in 0..4 {
            assert_close(out[i], block[i], 64, "identity reverb output");
        }
    }
}

// A short non-trivial kernel: with the sliding buffer holding a single
// impulse, the output is the kernel itself shifted under the Q15 scale.
#[test]
fn reverb_short_kernel_values() {
    let mut f = RevrebFilter::new(2, 44100, &vec![16384i16, 8192, 4096]).unwrap();
    assert_eq!(f.impulse_response().len(), 4);
    let out = f.do_filtering(&vec![32768, 0]);
    // sliding buffer is [0, 0, 32768, 0]; circular convolution with the
    // kernel puts 32768*h[0]/32768 at slot 2 and 32768*h[1]/32768 at slot 3
    assert_close(out[0], 16384, 16, "kernel tap 0");
    assert_close(out[1], 8192, 16, "kernel tap 1");
}

// The sliding buffer keeps exactly the most recent samples, oldest first.
#[test]
fn reverb_sliding_buffer_exact() {
    let mut f = RevrebFilter::new(2, 44100, &vec![1000i16, 2000, 3000, 4000, 5000]).unwrap();
    assert_eq!(f.sliding_buffer().len(), 8);
    f.do_filtering(&vec![11, 22]);
    f.do_filtering(&vec![33, 44]);
    assert_eq!(f.sliding_buffer()[..], [0, 0, 0, 0, 11, 22, 33, 44]);
    f.do_filtering(&vec![55, 66]);
    assert_eq!(f.sliding_buffer()[..], [0, 0, 11, 22, 33, 44, 55, 66]);
}

// do_filtering of the overlap-add filter composes the four steps and keeps
// the block cadence: 2B in, 2B out, on every call.
#[test]
fn noise_cancel_block_cadence() {
    let mut f = NoiseCancelFilter::new(4, 16000, 150, 3000).unwrap();
    for round in 0..5 {
        let block: Vec<i64> = (0..8).map(|i| (round * 100 + i * 7) as i64).collect();
        let out = f.do_filtering(&block);
        assert_eq!(out.len(), 8);
    }
}

// The Q15 scalar and complex products: one times one is one, the scale is
// applied once, and values beyond the 64-bit range saturate.
#[test]
fn fixed_point_products() {
    let one = 32768i64;
    assert_eq!(q15_mul(one, one), one);
    assert_eq!(q15_mul(16384, 16384), 8192);
    assert_eq!(q15_mul(-16384, 16384), -8192);
    assert_eq!(q15_mul(i64::MAX, i64::MAX), i64::MAX);
    assert_eq!(q15_mul(i64::MAX, i64::MIN), i64::MIN);
    let a = Cpx { re: one, im: 0 };
    let b = Cpx { re: 12345, im: -678 };
    assert_eq!(cpx_mul(a, b), b);
    // (i)*(i) = -1
    let i_unit = Cpx { re: 0, im: one };
    assert_eq!(cpx_mul(i_unit, i_unit), Cpx { re: -one, im: 0 });
    assert_eq!(sat_add(i64::MAX, 1), i64::MAX);
    assert_eq!(sat_add(i64::MIN, -1), i64::MIN);
    assert_eq!(sat_add(40, 2), 42);
}

// The smallest accepted configuration still keeps the block cadence.
#[test]
fn smallest_block_size() {
    let mut f = NoiseCancelFilter::new(1, 2, 1, 1).unwrap();
    let out = f.do_filtering(&vec![32768, -32768]);
    assert_eq!(out.len(), 2);
    let mut r = RevrebFilter::new(1, 2, &vec![100i16]).unwrap();
    let out = r.do_filtering(&vec![5000]);
    assert_eq!(out.len(), 1);
}
