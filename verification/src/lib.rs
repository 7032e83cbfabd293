//! Spectral block filters over a continuous stream of audio samples.
//!
//! The library consumes fixed-size blocks of Q15 fixed-point samples and
//! produces filtered blocks of the same size without discontinuities at the
//! block boundaries. The overlap-add filter windows each frame with a
//! raised-cosine taper, exposes the spectrum to symmetric band editors, and
//! reconstructs the output by overlap-add; the reverb filter convolves the
//! input with an impulse response by multiplying spectra. The forward and
//! inverse transforms come from an outside provider and are trusted for
//! their length alone; everything around them is verified.

pub mod fft;
pub mod filter;
pub mod fixed;
pub mod window;
