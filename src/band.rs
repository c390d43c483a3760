use vstd::prelude::*;

verus! {

/// One of the four frequency ranges that peaks are grouped by.
/// The declaration order is the band's ordinal, and the derived order follows it.
#[derive(PartialEq, Eq, Structural, PartialOrd, Ord, Hash, Debug, Clone, Copy)]
pub enum FrequencyBand {
    _250_520,
    _520_1450,
    _1450_3500,
    _3500_5500,
}

/// A spectral peak: when it occurred (in hops), how loud it was (log scale)
/// and where it lies (FFT bin times 64 plus a sub-bin correction).
#[derive(PartialEq, Eq, Structural, Debug, Clone, Copy)]
pub struct FrequencyPeak {
    pub fft_pass_number: u32,
    pub peak_magnitude: u16,
    pub corrected_peak_frequency_bin: u16,
    pub sample_rate_hz: u32,
}

pub open spec fn ordinal_spec(b: FrequencyBand) -> nat {
    match b {
        FrequencyBand::_250_520 => 0,
        FrequencyBand::_520_1450 => 1,
        FrequencyBand::_1450_3500 => 2,
        FrequencyBand::_3500_5500 => 3,
    }
}

pub open spec fn band_at_spec(i: nat) -> FrequencyBand
    recommends
        i < 4,
{
    if i == 0 {
        FrequencyBand::_250_520
    } else if i == 1 {
        FrequencyBand::_520_1450
    } else if i == 2 {
        FrequencyBand::_1450_3500
    } else {
        FrequencyBand::_3500_5500
    }
}

/// The whole hertz of a corrected bin: a corrected bin is 1/64 of an FFT bin
/// of a 2048-point transform at 16 kHz, i.e. 16000 / 2 / 1024 / 64 = 125 / 1024 Hz.
pub open spec fn hz_of_bin(bin: u16) -> int {
    (bin as int * 125) / 1024
}

/// The band whose range holds the given whole frequency in hertz, if any.
pub open spec fn band_of_hz(hz: int) -> Option<FrequencyBand> {
    if 250 <= hz <= 519 {
        Some(FrequencyBand::_250_520)
    } else if 520 <= hz <= 1449 {
        Some(FrequencyBand::_520_1450)
    } else if 1450 <= hz <= 3499 {
        Some(FrequencyBand::_1450_3500)
    } else if 3500 <= hz <= 5500 {
        Some(FrequencyBand::_3500_5500)
    } else {
        None
    }
}

pub open spec fn band_of_bin_spec(bin: u16) -> Option<FrequencyBand> {
    band_of_hz(hz_of_bin(bin))
}

impl FrequencyBand {
    /// The band's stable ordinal, as written into the envelope.
    pub fn ordinal(&self) -> (r: u32)
        ensures
            r == ordinal_spec(*self),
    {
        match self {
            FrequencyBand::_250_520 => 0,
            FrequencyBand::_520_1450 => 1,
            FrequencyBand::_1450_3500 => 2,
            FrequencyBand::_3500_5500 => 3,
        }
    }

    /// The band with the given ordinal.
    pub fn from_ordinal(i: u32) -> (r: Option<FrequencyBand>)
        ensures
            i < 4 ==> r == Some(band_at_spec(i as nat)),
            i >= 4 ==> r.is_none(),
    {
        if i == 0 {
            Some(FrequencyBand::_250_520)
        } else if i == 1 {
            Some(FrequencyBand::_520_1450)
        } else if i == 2 {
            Some(FrequencyBand::_1450_3500)
        } else if i == 3 {
            Some(FrequencyBand::_3500_5500)
        } else {
            None
        }
    }

    /// The lowest whole frequency, in hertz, that belongs to the band.
    pub fn low_hz(&self) -> (r: u32)
        ensures
            band_of_hz(r as int) == Some(*self),
            forall|hz: int| hz < r ==> band_of_hz(hz) != Some(*self),
    {
        match self {
            FrequencyBand::_250_520 => 250,
            FrequencyBand::_520_1450 => 520,
            FrequencyBand::_1450_3500 => 1450,
            FrequencyBand::_3500_5500 => 3500,
        }
    }

    /// The highest whole frequency, in hertz, that belongs to the band.
    pub fn high_hz(&self) -> (r: u32)
        ensures
            band_of_hz(r as int) == Some(*self),
            forall|hz: int| hz > r ==> band_of_hz(hz) != Some(*self),
    {
        match self {
            FrequencyBand::_250_520 => 519,
            FrequencyBand::_520_1450 => 1449,
            FrequencyBand::_1450_3500 => 3499,
            FrequencyBand::_3500_5500 => 5500,
        }
    }
}

/// Whole hertz of a corrected bin (the fractional part is dropped).
pub fn bin_to_hz(bin: u16) -> (r: u32)
    ensures
        r == hz_of_bin(bin),
{
    ((bin as u32) * 125) / 1024
}

/// The band that a peak at the given corrected bin is filed under, or `None`
/// where its frequency lies outside 250..=5500 Hz and the peak is dropped.
pub fn band_of_bin(bin: u16) -> (r: Option<FrequencyBand>)
    ensures
        r == band_of_bin_spec(bin),
{
    let hz = bin_to_hz(bin);
    if 250 <= hz && hz <= 519 {
        Some(FrequencyBand::_250_520)
    } else if 520 <= hz && hz <= 1449 {
        Some(FrequencyBand::_520_1450)
    } else if 1450 <= hz && hz <= 3499 {
        Some(FrequencyBand::_1450_3500)
    } else if 3500 <= hz && hz <= 5500 {
        Some(FrequencyBand::_3500_5500)
    } else {
        None
    }
}

} // verus!
