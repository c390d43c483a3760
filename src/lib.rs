//! Audio fingerprint extraction and its binary envelope.
//!
//! The floating-point stages of the analysis (windowing, the FFT and the
//! log-magnitude interpolation) are done by the caller; everything that
//! decides which spectral points become peaks, and how peaks are serialised,
//! lives here and is verified.
pub mod band;
pub mod bytes;
pub mod fingerprint;
pub mod encoder;
pub mod envelope;
pub mod uri;
pub mod generator;
pub mod excerpt;
