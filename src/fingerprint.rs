use vstd::prelude::*;
use crate::band::{FrequencyBand, FrequencyPeak};

verus! {

/// Why a fingerprint could not be produced or serialised.
#[derive(PartialEq, Eq, Structural, Debug, Clone, Copy)]
pub enum FingerprintError {
    /// The envelope has no code for the fingerprint's sample rate.
    UnsupportedSampleRate,
    /// A refined peak was not a local maximum of the log-magnitudes.
    InvariantViolation,
    /// Within a band, a peak's pass number is lower than the one before it.
    MalformedPeakOrder,
}

/// The peaks of one excerpt, filed by frequency band, with the excerpt's
/// sample rate and length. A band without peaks is absent from the envelope.
#[derive(Debug, Clone)]
pub struct Fingerprint {
    pub sample_rate_hz: u32,
    pub number_samples: u32,
    pub band_250_520: Vec<FrequencyPeak>,
    pub band_520_1450: Vec<FrequencyPeak>,
    pub band_1450_3500: Vec<FrequencyPeak>,
    pub band_3500_5500: Vec<FrequencyPeak>,
}

/// Pass numbers never decrease along the sequence.
pub open spec fn passes_ordered(peaks: Seq<FrequencyPeak>) -> bool {
    forall|i: int|
        0 < i < peaks.len() ==> #[trigger] peaks[i].fft_pass_number >= peaks[i
            - 1].fft_pass_number
}

impl Fingerprint {
    /// The peaks filed under band `b`, in the order they were found.
    pub open spec fn peaks_spec(&self, b: FrequencyBand) -> Seq<FrequencyPeak> {
        match b {
            FrequencyBand::_250_520 => self.band_250_520@,
            FrequencyBand::_520_1450 => self.band_520_1450@,
            FrequencyBand::_1450_3500 => self.band_1450_3500@,
            FrequencyBand::_3500_5500 => self.band_3500_5500@,
        }
    }

    pub open spec fn total_peaks(&self) -> nat {
        self.band_250_520@.len() + self.band_520_1450@.len() + self.band_1450_3500@.len()
            + self.band_3500_5500@.len()
    }

    /// Every band's peaks are in non-decreasing pass order.
    pub open spec fn well_ordered(&self) -> bool {
        forall|b: FrequencyBand| passes_ordered(#[trigger] self.peaks_spec(b))
    }

    /// A fingerprint with no peaks.
    pub fn new(sample_rate_hz: u32, number_samples: u32) -> (r: Fingerprint)
        ensures
            r.sample_rate_hz == sample_rate_hz,
            r.number_samples == number_samples,
            forall|b: FrequencyBand| #[trigger] r.peaks_spec(b).len() == 0,
            r.total_peaks() == 0,
    {
        Fingerprint {
            sample_rate_hz,
            number_samples,
            band_250_520: Vec::new(),
            band_520_1450: Vec::new(),
            band_1450_3500: Vec::new(),
            band_3500_5500: Vec::new(),
        }
    }

    /// The peaks filed under `band`.
    pub fn peaks(&self, band: FrequencyBand) -> (r: &Vec<FrequencyPeak>)
        ensures
            r@ == self.peaks_spec(band),
    {
        match band {
            FrequencyBand::_250_520 => &self.band_250_520,
            FrequencyBand::_520_1450 => &self.band_520_1450,
            FrequencyBand::_1450_3500 => &self.band_1450_3500,
            FrequencyBand::_3500_5500 => &self.band_3500_5500,
        }
    }

    /// Appends `peak` to the list of `band`; the other bands are unchanged.
    pub fn push_peak(&mut self, band: FrequencyBand, peak: FrequencyPeak)
        ensures
            final(self).sample_rate_hz == old(self).sample_rate_hz,
            final(self).number_samples == old(self).number_samples,
            final(self).peaks_spec(band) == old(self).peaks_spec(band).push(peak),
            forall|b: FrequencyBand|
                b != band ==> #[trigger] final(self).peaks_spec(b) == old(self).peaks_spec(b),
            final(self).total_peaks() == old(self).total_peaks() + 1,
    {
        match band {
            FrequencyBand::_250_520 => self.band_250_520.push(peak),
            FrequencyBand::_520_1450 => self.band_520_1450.push(peak),
            FrequencyBand::_1450_3500 => self.band_1450_3500.push(peak),
            FrequencyBand::_3500_5500 => self.band_3500_5500.push(peak),
        }
    }

    /// The number of peaks over all bands.
    pub fn peak_count(&self) -> (r: usize)
        requires
            self.total_peaks() <= usize::MAX,
        ensures
            r == self.total_peaks(),
    {
        self.band_250_520.len() + self.band_520_1450.len() + self.band_1450_3500.len()
            + self.band_3500_5500.len()
    }
}

} // verus!
