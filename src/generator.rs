use vstd::prelude::*;
use crate::band::{FrequencyBand, FrequencyPeak, band_of_bin, band_of_bin_spec};
use crate::fingerprint::{Fingerprint, passes_ordered};

verus! {

/// Samples per hop: each hop advances the analysis by one FFT pass.
pub const HOP_SIZE: usize = 128;

/// Length of the sample ring, and of the FFT window.
pub const WINDOW_SIZE: usize = 2048;

/// Bins of a one-sided spectrum of a `WINDOW_SIZE`-point real FFT.
pub const SPECTRUM_BINS: usize = 1025;

/// Spectra kept in each spectrum ring.
pub const RING_SPECTRA: usize = 256;

/// Passes that must be done before peaks are looked for; peaks are taken
/// from the raw spectrum this many passes old.
pub const WARM_UP_PASSES: u32 = 46;

/// The sample rate the analysis runs at.
pub const ANALYSIS_SAMPLE_RATE_HZ: u32 = 16000;

/// The key of 1/64, the least power that a peak may have.
///
/// Spectrum values are handed to the analyser as keys: the IEEE-754 bit
/// patterns of their single-precision values. Every value is non-negative and
/// finite, and for such values the order of the bit patterns, read as
/// unsigned integers, is the order of the values. So every comparison and
/// every maximum below is the one on the values themselves.
pub const MIN_PEAK_KEY: u32 = 0x3c80_0000;

/// A bin that passed the local-maximum tests, with the raw keys of the bin
/// and of its two neighbours, from which the caller refines the peak.
#[derive(PartialEq, Eq, Structural, Debug, Clone, Copy)]
pub struct PeakCandidate {
    pub bin: u16,
    pub before: u32,
    pub at: u32,
    pub after: u32,
}

/// The streaming analyser: a ring of recent samples, a ring of raw spectra,
/// a ring of spread spectra, and the peaks found so far.
///
/// Per hop, the caller hands the hop to `push_hop`, turns the window it
/// returns into a spectrum of keys, hands that to `process_spectrum`, and
/// refines each candidate it returns into a peak for `record_peak`.
pub struct SignatureGenerator {
    pub ring_buffer_of_samples: Vec<i16>,
    pub ring_buffer_of_samples_index: usize,
    /// `RING_SPECTRA` raw spectra, one after the other.
    pub fft_outputs: Vec<u32>,
    pub fft_outputs_index: usize,
    /// `RING_SPECTRA` spread spectra, one after the other.
    pub spread_fft_outputs: Vec<u32>,
    pub spread_fft_outputs_index: usize,
    pub num_spread_ffts_done: u32,
    pub signature: Fingerprint,
}

/// The ring slot `k` passes before slot `index`.
pub open spec fn slot_back(index: int, k: int) -> int {
    (index + 256 - k) % 256
}

pub open spec fn max_key_spec(a: u32, b: u32) -> u32 {
    if a >= b {
        a
    } else {
        b
    }
}

/// Bin `p` of a spectrum after frequency spreading: the largest of the bin and
/// the two above it (the top two bins are left as they are).
pub open spec fn spread3(raw: Seq<u32>, p: int) -> u32 {
    if p + 2 < 1025 {
        max_key_spec(max_key_spec(raw[p], raw[p + 1]), raw[p + 2])
    } else {
        raw[p]
    }
}

/// The ring slot `d` passes from slot `t` (back where `d` is negative).
pub open spec fn time_slot(t: int, d: int) -> int {
    (t + 256 + d) % 256
}

/// Whether `slot` is one of the three earlier slots (1, 3 and 6 passes back
/// from `s`) that the spread spectrum of slot `s` is merged into.
pub open spec fn is_merge_slot(s: int, slot: int) -> bool {
    slot == slot_back(s, 1) || slot == slot_back(s, 3) || slot == slot_back(s, 6)
}

/// A candidate's bin in 1/64 bin units, plus the refined offset, on 16 bits.
pub open spec fn corrected_bin_spec(bin: u16, offset: u16) -> u16 {
    ((bin as int * 64 + offset as int) % 65536) as u16
}

/// The larger of two keys.
pub fn max_key(a: u32, b: u32) -> (r: u32)
    ensures
        r == max_key_spec(a, b),
{
    if a >= b {
        a
    } else {
        b
    }
}

/// Every peak lies in the band it is filed under, and was found by the
/// given number of passes (so that later peaks keep each band in order).
pub open spec fn peaks_valid(fp: Fingerprint, passes_done: u32) -> bool {
    &&& fp.well_ordered()
    &&& fp.sample_rate_hz == ANALYSIS_SAMPLE_RATE_HZ
    &&& forall|b: FrequencyBand, i: int|
        0 <= i < fp.peaks_spec(b).len() ==> {
            let p = #[trigger] fp.peaks_spec(b)[i];
            &&& band_of_bin_spec(p.corrected_peak_frequency_bin) == Some(b)
            &&& p.fft_pass_number + WARM_UP_PASSES <= passes_done
            &&& p.sample_rate_hz == ANALYSIS_SAMPLE_RATE_HZ
        }
}

impl SignatureGenerator {
    pub open spec fn wf(&self) -> bool {
        &&& self.ring_buffer_of_samples@.len() == WINDOW_SIZE
        &&& self.ring_buffer_of_samples_index < WINDOW_SIZE
        &&& self.ring_buffer_of_samples_index % HOP_SIZE == 0
        &&& self.fft_outputs@.len() == RING_SPECTRA * SPECTRUM_BINS
        &&& self.spread_fft_outputs@.len() == RING_SPECTRA * SPECTRUM_BINS
        &&& self.fft_outputs_index < RING_SPECTRA
        &&& self.spread_fft_outputs_index < RING_SPECTRA
        &&& peaks_valid(self.signature, self.num_spread_ffts_done)
    }

    /// Key of bin `bin` of the raw spectrum in slot `slot`.
    pub open spec fn raw_key(&self, slot: int, bin: int) -> u32 {
        self.fft_outputs@[slot * 1025 + bin]
    }

    /// Key of bin `bin` of the spread spectrum in slot `slot`.
    pub open spec fn spread_key(&self, slot: int, bin: int) -> u32 {
        self.spread_fft_outputs@[slot * 1025 + bin]
    }

    /// The analysis window: the ring's samples from the oldest to the newest.
    pub open spec fn window_spec(&self) -> Seq<i16> {
        Seq::new(
            2048,
            |i: int|
                self.ring_buffer_of_samples@[(i + self.ring_buffer_of_samples_index) % 2048],
        )
    }

    /// An analyser for an excerpt of `number_samples` samples at 16 kHz:
    /// silent rings and no peaks.
    pub fn new(number_samples: u32) -> (r: SignatureGenerator)
        ensures
            r.wf(),
            r.ring_buffer_of_samples@ == Seq::new(2048, |i: int| 0i16),
            r.fft_outputs@ == Seq::new(256 * 1025, |i: int| 0u32),
            r.spread_fft_outputs@ == Seq::new(256 * 1025, |i: int| 0u32),
            r.ring_buffer_of_samples_index == 0,
            r.fft_outputs_index == 0,
            r.spread_fft_outputs_index == 0,
            r.num_spread_ffts_done == 0,
            r.signature.number_samples == number_samples,
            r.signature.sample_rate_hz == ANALYSIS_SAMPLE_RATE_HZ,
            forall|b: FrequencyBand| #[trigger] r.signature.peaks_spec(b).len() == 0,
    {
        let samples = vec![0i16; WINDOW_SIZE];
        let raw = vec![0u32; RING_SPECTRA * SPECTRUM_BINS];
        let spread = vec![0u32; RING_SPECTRA * SPECTRUM_BINS];
        assert(samples@ =~= Seq::new(2048, |i: int| 0i16));
        assert(raw@ =~= Seq::new(256 * 1025, |i: int| 0u32));
        assert(spread@ =~= Seq::new(256 * 1025, |i: int| 0u32));
        SignatureGenerator {
            ring_buffer_of_samples: samples,
            ring_buffer_of_samples_index: 0,
            fft_outputs: raw,
            fft_outputs_index: 0,
            spread_fft_outputs: spread,
            spread_fft_outputs_index: 0,
            num_spread_ffts_done: 0,
            signature: Fingerprint::new(ANALYSIS_SAMPLE_RATE_HZ, number_samples),
        }
    }

    /// Writes a hop of 128 samples into the sample ring and returns the
    /// window of the last 2048 samples, oldest first, newest last.
    pub fn push_hop(&mut self, hop: &[i16]) -> (window: Vec<i16>)
        requires
            old(self).wf(),
            hop@.len() == HOP_SIZE,
        ensures
            final(self).wf(),
            final(self).ring_buffer_of_samples@ == old(self).ring_buffer_of_samples@.subrange(
                0,
                old(self).ring_buffer_of_samples_index as int,
            ) + hop@ + old(self).ring_buffer_of_samples@.subrange(
                old(self).ring_buffer_of_samples_index + 128,
                2048,
            ),
            final(self).ring_buffer_of_samples_index == (old(self).ring_buffer_of_samples_index
                + 128) % 2048,
            final(self).fft_outputs == old(self).fft_outputs,
            final(self).fft_outputs_index == old(self).fft_outputs_index,
            final(self).spread_fft_outputs == old(self).spread_fft_outputs,
            final(self).spread_fft_outputs_index == old(self).spread_fft_outputs_index,
            final(self).num_spread_ffts_done == old(self).num_spread_ffts_done,
            final(self).signature == old(self).signature,
            window@ == final(self).window_spec(),
            window@ == old(self).window_spec().subrange(128, 2048) + hop@,
    {
        let start = self.ring_buffer_of_samples_index;
        let mut k: usize = 0;
        while k < HOP_SIZE
            invariant
                0 <= k <= 128,
                start == old(self).ring_buffer_of_samples_index,
                start + 128 <= 2048,
                hop@.len() == 128,
                self.ring_buffer_of_samples@ == old(self).ring_buffer_of_samples@.subrange(
                    0,
                    start as int,
                ) + hop@.subrange(0, k as int) + old(self).ring_buffer_of_samples@.subrange(
                    start + k,
                    2048,
                ),
                self.ring_buffer_of_samples_index == start,
                self.fft_outputs == old(self).fft_outputs,
                self.fft_outputs_index == old(self).fft_outputs_index,
                self.spread_fft_outputs == old(self).spread_fft_outputs,
                self.spread_fft_outputs_index == old(self).spread_fft_outputs_index,
                self.num_spread_ffts_done == old(self).num_spread_ffts_done,
                self.signature == old(self).signature,
                old(self).ring_buffer_of_samples@.len() == 2048,
            decreases 128 - k,
        {
            self.ring_buffer_of_samples.set(start + k, hop[k]);
            assert(self.ring_buffer_of_samples@ =~= old(self).ring_buffer_of_samples@.subrange(
                0,
                start as int,
            ) + hop@.subrange(0, k + 1) + old(self).ring_buffer_of_samples@.subrange(
                start + k + 1,
                2048,
            ));
            k = k + 1;
        }
        assert(hop@.subrange(0, 128) =~= hop@);
        self.ring_buffer_of_samples_index = (start + HOP_SIZE) % WINDOW_SIZE;
        let head = self.ring_buffer_of_samples_index;
        let mut window: Vec<i16> = Vec::new();
        let mut i: usize = 0;
        while i < WINDOW_SIZE
            invariant
                0 <= i <= 2048,
                head < 2048,
                head == self.ring_buffer_of_samples_index,
                self.ring_buffer_of_samples@.len() == 2048,
                window@ == self.window_spec().subrange(0, i as int),
            decreases 2048 - i,
        {
            window.push(self.ring_buffer_of_samples[(i + head) % WINDOW_SIZE]);
            assert(window@ =~= self.window_spec().subrange(0, i + 1));
            i = i + 1;
        }
        assert(window@ =~= self.window_spec());
        let ghost h = start as int;
        assert forall|i: int| 0 <= i < 2048 implies #[trigger] window@[i] == (old(self).window_spec().subrange(128, 2048) + hop@)[i] by {
            assert(window@[i] == self.ring_buffer_of_samples@[(i + head) % 2048]);
            if i < 1920 {
                let j = (i + 128 + h) % 2048;
                assert((i + head) % 2048 == j);
                assert(j < h || j >= h + 128);
                assert(old(self).window_spec()[i + 128] == old(self).ring_buffer_of_samples@[j]);
            } else {
                assert((i + head) % 2048 == h + (i - 1920));
            }
        }
        assert(window@ =~= old(self).window_spec().subrange(128, 2048) + hop@);
        window
    }

    /// The raw spectrum in slot `slot`.
    pub open spec fn raw_spectrum(&self, slot: int) -> Seq<u32> {
        self.fft_outputs@.subrange(slot * 1025, slot * 1025 + 1025)
    }

    /// Stores a raw spectrum (one key per bin) into the current slot of the
    /// raw ring, and moves the ring on by one slot.
    pub fn store_spectrum(&mut self, spectrum: &Vec<u32>)
        requires
            old(self).wf(),
            spectrum@.len() == SPECTRUM_BINS,
        ensures
            final(self).wf(),
            final(self).fft_outputs@ == old(self).fft_outputs@.subrange(
                0,
                old(self).fft_outputs_index * 1025,
            ) + spectrum@ + old(self).fft_outputs@.subrange(
                old(self).fft_outputs_index * 1025 + 1025,
                262400,
            ),
            final(self).fft_outputs_index == (old(self).fft_outputs_index + 1) % 256,
            final(self).ring_buffer_of_samples == old(self).ring_buffer_of_samples,
            final(self).ring_buffer_of_samples_index == old(self).ring_buffer_of_samples_index,
            final(self).spread_fft_outputs == old(self).spread_fft_outputs,
            final(self).spread_fft_outputs_index == old(self).spread_fft_outputs_index,
            final(self).num_spread_ffts_done == old(self).num_spread_ffts_done,
            final(self).signature == old(self).signature,
    {
        let base = self.fft_outputs_index * SPECTRUM_BINS;
        let mut k: usize = 0;
        while k < SPECTRUM_BINS
            invariant
                0 <= k <= 1025,
                base == old(self).fft_outputs_index * 1025,
                old(self).fft_outputs_index < 256,
                spectrum@.len() == 1025,
                old(self).fft_outputs@.len() == 256 * 1025,
                self.fft_outputs@ == old(self).fft_outputs@.subrange(0, base as int)
                    + spectrum@.subrange(0, k as int) + old(self).fft_outputs@.subrange(
                    base + k,
                    262400,
                ),
                self.fft_outputs_index == old(self).fft_outputs_index,
                self.ring_buffer_of_samples == old(self).ring_buffer_of_samples,
                self.ring_buffer_of_samples_index == old(self).ring_buffer_of_samples_index,
                self.spread_fft_outputs == old(self).spread_fft_outputs,
                self.spread_fft_outputs_index == old(self).spread_fft_outputs_index,
                self.num_spread_ffts_done == old(self).num_spread_ffts_done,
                self.signature == old(self).signature,
            decreases 1025 - k,
        {
            self.fft_outputs.set(base + k, spectrum[k]);
            assert(self.fft_outputs@ =~= old(self).fft_outputs@.subrange(0, base as int)
                + spectrum@.subrange(0, k + 1) + old(self).fft_outputs@.subrange(
                base + k + 1,
                262400,
            ));
            k = k + 1;
        }
        assert(spectrum@.subrange(0, 1025) =~= spectrum@);
        self.fft_outputs_index = (self.fft_outputs_index + 1) % RING_SPECTRA;
    }

    /// Frequency spreading of the raw spectrum in slot `r`: each bin becomes
    /// the largest of itself and the two bins above it.
    fn spread_row(&self, r: usize) -> (row: Vec<u32>)
        requires
            self.wf(),
            r < 256,
        ensures
            row@.len() == 1025,
            forall|p: int| 0 <= p < 1025 ==> #[trigger] row@[p] == spread3(self.raw_spectrum(r as int), p),
    {
        let ghost raw = self.raw_spectrum(r as int);
        let mut row: Vec<u32> = Vec::new();
        let mut k: usize = 0;
        while k < SPECTRUM_BINS
            invariant
                0 <= k <= 1025,
                r < 256,
                self.fft_outputs@.len() == 256 * 1025,
                raw == self.raw_spectrum(r as int),
                row@ == raw.subrange(0, k as int),
            decreases 1025 - k,
        {
            row.push(self.fft_outputs[r * SPECTRUM_BINS + k]);
            assert(row@ =~= raw.subrange(0, k + 1));
            k = k + 1;
        }
        assert(row@ =~= raw);
        let mut p: usize = 0;
        while p < SPECTRUM_BINS - 2
            invariant
                0 <= p <= 1023,
                raw.len() == 1025,
                row@.len() == 1025,
                forall|q: int| 0 <= q < p ==> #[trigger] row@[q] == spread3(raw, q),
                forall|q: int| p <= q < 1025 ==> #[trigger] row@[q] == raw[q],
            decreases 1023 - p,
        {
            let v = max_key(max_key(row[p], row[p + 1]), row[p + 2]);
            row.set(p, v);
            p = p + 1;
        }
        row
    }

    /// Spreads the newest raw spectrum in frequency into the current slot of
    /// the spread ring, merges it into the slots 1, 3 and 6 passes back, and
    /// moves the spread ring on by one slot.
    pub fn do_peak_spreading(&mut self)
        requires
            old(self).wf(),
        ensures
            final(self).wf(),
            forall|slot: int, p: int|
                0 <= slot < 256 && 0 <= p < 1025 ==> {
                    let s = old(self).spread_fft_outputs_index as int;
                    let v = spread3(
                        old(self).raw_spectrum(slot_back(old(self).fft_outputs_index as int, 1)),
                        p,
                    );
                    #[trigger] final(self).spread_key(slot, p) == if slot == s {
                        v
                    } else if is_merge_slot(s, slot) {
                        max_key_spec(old(self).spread_key(slot, p), v)
                    } else {
                        old(self).spread_key(slot, p)
                    }
                },
            final(self).spread_fft_outputs_index == (old(self).spread_fft_outputs_index + 1) % 256,
            final(self).fft_outputs == old(self).fft_outputs,
            final(self).fft_outputs_index == old(self).fft_outputs_index,
            final(self).ring_buffer_of_samples == old(self).ring_buffer_of_samples,
            final(self).ring_buffer_of_samples_index == old(self).ring_buffer_of_samples_index,
            final(self).num_spread_ffts_done == old(self).num_spread_ffts_done,
            final(self).signature == old(self).signature,
    {
        let r = (self.fft_outputs_index + 255) % RING_SPECTRA;
        let row = self.spread_row(r);
        let ghost raw = old(self).raw_spectrum(r as int);
        let s = self.spread_fft_outputs_index;
        let a = (s + 255) % RING_SPECTRA;
        let b = (s + 253) % RING_SPECTRA;
        let c = (s + 250) % RING_SPECTRA;
        let mut p: usize = 0;
        while p < SPECTRUM_BINS
            invariant
                0 <= p <= 1025,
                s == old(self).spread_fft_outputs_index,
                s < 256,
                a == slot_back(s as int, 1),
                b == slot_back(s as int, 3),
                c == slot_back(s as int, 6),
                row@.len() == 1025,
                forall|q: int| 0 <= q < 1025 ==> #[trigger] row@[q] == spread3(raw, q),
                self.spread_fft_outputs@.len() == 256 * 1025,
                forall|slot: int, q: int|
                    0 <= slot < 256 && 0 <= q < 1025 ==> #[trigger] self.spread_key(slot, q) == if q
                        >= p {
                        old(self).spread_key(slot, q)
                    } else if slot == s {
                        row@[q]
                    } else if is_merge_slot(s as int, slot) {
                        max_key_spec(old(self).spread_key(slot, q), row@[q])
                    } else {
                        old(self).spread_key(slot, q)
                    },
                self.fft_outputs == old(self).fft_outputs,
                self.fft_outputs_index == old(self).fft_outputs_index,
                self.spread_fft_outputs_index == old(self).spread_fft_outputs_index,
                self.ring_buffer_of_samples == old(self).ring_buffer_of_samples,
                self.ring_buffer_of_samples_index == old(self).ring_buffer_of_samples_index,
                self.num_spread_ffts_done == old(self).num_spread_ffts_done,
                self.signature == old(self).signature,
            decreases 1025 - p,
        {
            let v = row[p];
            let ghost before = *self;
            self.spread_fft_outputs.set(s * SPECTRUM_BINS + p, v);
            let va = max_key(self.spread_fft_outputs[a * SPECTRUM_BINS + p], v);
            self.spread_fft_outputs.set(a * SPECTRUM_BINS + p, va);
            let vb = max_key(self.spread_fft_outputs[b * SPECTRUM_BINS + p], v);
            self.spread_fft_outputs.set(b * SPECTRUM_BINS + p, vb);
            let vc = max_key(self.spread_fft_outputs[c * SPECTRUM_BINS + p], v);
            self.spread_fft_outputs.set(c * SPECTRUM_BINS + p, vc);
            assert(a != s && b != s && c != s && a != b && a != c && b != c);
            assert forall|slot: int, q: int| 0 <= slot < 256 && 0 <= q < 1025 implies #[trigger] self.spread_key(slot, q)
                == if q >= p + 1 {
                old(self).spread_key(slot, q)
            } else if slot == s {
                row@[q]
            } else if is_merge_slot(s as int, slot) {
                max_key_spec(old(self).spread_key(slot, q), row@[q])
            } else {
                old(self).spread_key(slot, q)
            } by {
                assert(before.spread_key(slot, q) == if q >= p {
                    old(self).spread_key(slot, q)
                } else if slot == s {
                    row@[q]
                } else if is_merge_slot(s as int, slot) {
                    max_key_spec(old(self).spread_key(slot, q), row@[q])
                } else {
                    old(self).spread_key(slot, q)
                });
                if q == p as int {
                    if slot == s as int {
                    } else if slot == a as int {
                    } else if slot == b as int {
                    } else if slot == c as int {
                    } else {
                        assert(slot * 1025 + q != s * 1025 + p);
                        assert(slot * 1025 + q != a * 1025 + p);
                        assert(slot * 1025 + q != b * 1025 + p);
                        assert(slot * 1025 + q != c * 1025 + p);
                    }
                } else {
                    assert(slot * 1025 + q != s * 1025 + p);
                    assert(slot * 1025 + q != a * 1025 + p);
                    assert(slot * 1025 + q != b * 1025 + p);
                    assert(slot * 1025 + q != c * 1025 + p);
                }
            }
            p = p + 1;
        }
        assert forall|slot: int, q: int| 0 <= slot < 256 && 0 <= q < 1025 implies {
            let v = spread3(old(self).raw_spectrum(slot_back(old(self).fft_outputs_index as int, 1)), q);
            #[trigger] self.spread_key(slot, q) == if slot == s as int {
                v
            } else if is_merge_slot(s as int, slot) {
                max_key_spec(old(self).spread_key(slot, q), v)
            } else {
                old(self).spread_key(slot, q)
            }
        } by {
            assert(row@[q] == spread3(raw, q));
        }
        let ghost mid = *self;
        self.spread_fft_outputs_index = (s + 1) % RING_SPECTRA;
        assert forall|slot: int, q: int| 0 <= slot < 256 && 0 <= q < 1025 implies #[trigger] self.spread_key(slot, q) == mid.spread_key(slot, q) by {}
    }

    /// `v` exceeds the spread spectrum in slot `s` at the bins 10, 7, 4 and 3
    /// below `b` and 1, 2, 5 and 8 above it.
    pub open spec fn above_frequency_neighbours(&self, v: u32, s: int, b: int) -> bool {
        &&& v > self.spread_key(s, b - 10)
        &&& v > self.spread_key(s, b - 7)
        &&& v > self.spread_key(s, b - 4)
        &&& v > self.spread_key(s, b - 3)
        &&& v > self.spread_key(s, b + 1)
        &&& v > self.spread_key(s, b + 2)
        &&& v > self.spread_key(s, b + 5)
        &&& v > self.spread_key(s, b + 8)
    }

    /// `v` exceeds, one bin below `b`, the spread spectra 53 and 45 passes
    /// back from slot `t`, and those 165 to 249 passes on from it (that is,
    /// 91 to 7 passes back).
    pub open spec fn above_time_neighbours(&self, v: u32, t: int, b: int) -> bool {
        &&& v > self.spread_key(time_slot(t, -53), b - 1)
        &&& v > self.spread_key(time_slot(t, -45), b - 1)
        &&& v > self.spread_key(time_slot(t, 165), b - 1)
        &&& v > self.spread_key(time_slot(t, 172), b - 1)
        &&& v > self.spread_key(time_slot(t, 179), b - 1)
        &&& v > self.spread_key(time_slot(t, 186), b - 1)
        &&& v > self.spread_key(time_slot(t, 193), b - 1)
        &&& v > self.spread_key(time_slot(t, 200), b - 1)
        &&& v > self.spread_key(time_slot(t, 214), b - 1)
        &&& v > self.spread_key(time_slot(t, 221), b - 1)
        &&& v > self.spread_key(time_slot(t, 228), b - 1)
        &&& v > self.spread_key(time_slot(t, 235), b - 1)
        &&& v > self.spread_key(time_slot(t, 242), b - 1)
        &&& v > self.spread_key(time_slot(t, 249), b - 1)
    }

    /// Whether bin `b` of the raw spectrum 46 passes old is a peak candidate:
    /// loud enough, at least the spread spectrum 49 passes old one bin below,
    /// and above every neighbour in frequency and in time.
    pub open spec fn is_peak_at(&self, b: int) -> bool {
        let a = slot_back(self.fft_outputs_index as int, 46);
        let s = slot_back(self.spread_fft_outputs_index as int, 49);
        let v = self.raw_key(a, b);
        &&& v >= MIN_PEAK_KEY
        &&& v >= self.spread_key(s, b - 1)
        &&& self.above_frequency_neighbours(v, s, b)
        &&& self.above_time_neighbours(v, self.spread_fft_outputs_index as int, b)
    }

    /// The candidate at bin `b`, with the raw keys around it.
    pub open spec fn candidate_at(&self, b: int) -> PeakCandidate {
        let a = slot_back(self.fft_outputs_index as int, 46);
        PeakCandidate {
            bin: b as u16,
            before: self.raw_key(a, b - 1),
            at: self.raw_key(a, b),
            after: self.raw_key(a, b + 1),
        }
    }

    /// The candidates among bins 10 to `n - 1`, in ascending bin order.
    pub open spec fn candidates_below(&self, n: int) -> Seq<PeakCandidate>
        decreases n,
    {
        if n <= 10 {
            Seq::empty()
        } else if self.is_peak_at(n - 1) {
            self.candidates_below(n - 1).push(self.candidate_at(n - 1))
        } else {
            self.candidates_below(n - 1)
        }
    }

    fn frequency_test(&self, v: u32, s: usize, b: usize) -> (r: bool)
        requires
            self.wf(),
            s < 256,
            10 <= b <= 1014,
        ensures
            r == self.above_frequency_neighbours(v, s as int, b as int),
    {
        if v <= self.spread_fft_outputs[s * SPECTRUM_BINS + b - 10] {
            return false;
        }
        if v <= self.spread_fft_outputs[s * SPECTRUM_BINS + b - 7] {
            return false;
        }
        if v <= self.spread_fft_outputs[s * SPECTRUM_BINS + b - 4] {
            return false;
        }
        if v <= self.spread_fft_outputs[s * SPECTRUM_BINS + b - 3] {
            return false;
        }
        if v <= self.spread_fft_outputs[s * SPECTRUM_BINS + b + 1] {
            return false;
        }
        if v <= self.spread_fft_outputs[s * SPECTRUM_BINS + b + 2] {
            return false;
        }
        if v <= self.spread_fft_outputs[s * SPECTRUM_BINS + b + 5] {
            return false;
        }
        if v <= self.spread_fft_outputs[s * SPECTRUM_BINS + b + 8] {
            return false;
        }
        true
    }

    fn time_test(&self, v: u32, t: usize, b: usize) -> (r: bool)
        requires
            self.wf(),
            t < 256,
            10 <= b <= 1014,
        ensures
            r == self.above_time_neighbours(v, t as int, b as int),
    {
        if v <= self.spread_fft_outputs[((t + 203) % RING_SPECTRA) * SPECTRUM_BINS + b - 1] {
            return false;
        }
        if v <= self.spread_fft_outputs[((t + 211) % RING_SPECTRA) * SPECTRUM_BINS + b - 1] {
            return false;
        }
        if v <= self.spread_fft_outputs[((t + 421) % RING_SPECTRA) * SPECTRUM_BINS + b - 1] {
            return false;
        }
        if v <= self.spread_fft_outputs[((t + 428) % RING_SPECTRA) * SPECTRUM_BINS + b - 1] {
            return false;
        }
        if v <= self.spread_fft_outputs[((t + 435) % RING_SPECTRA) * SPECTRUM_BINS + b - 1] {
            return false;
        }
        if v <= self.spread_fft_outputs[((t + 442) % RING_SPECTRA) * SPECTRUM_BINS + b - 1] {
            return false;
        }
        if v <= self.spread_fft_outputs[((t + 449) % RING_SPECTRA) * SPECTRUM_BINS + b - 1] {
            return false;
        }
        if v <= self.spread_fft_outputs[((t + 456) % RING_SPECTRA) * SPECTRUM_BINS + b - 1] {
            return false;
        }
        if v <= self.spread_fft_outputs[((t + 470) % RING_SPECTRA) * SPECTRUM_BINS + b - 1] {
            return false;
        }
        if v <= self.spread_fft_outputs[((t + 477) % RING_SPECTRA) * SPECTRUM_BINS + b - 1] {
            return false;
        }
        if v <= self.spread_fft_outputs[((t + 484) % RING_SPECTRA) * SPECTRUM_BINS + b - 1] {
            return false;
        }
        if v <= self.spread_fft_outputs[((t + 491) % RING_SPECTRA) * SPECTRUM_BINS + b - 1] {
            return false;
        }
        if v <= self.spread_fft_outputs[((t + 498) % RING_SPECTRA) * SPECTRUM_BINS + b - 1] {
            return false;
        }
        if v <= self.spread_fft_outputs[((t + 505) % RING_SPECTRA) * SPECTRUM_BINS + b - 1] {
            return false;
        }
        true
    }

    fn peak_test(&self, a: usize, s: usize, t: usize, b: usize) -> (r: bool)
        requires
            self.wf(),
            a == slot_back(self.fft_outputs_index as int, 46),
            s == slot_back(self.spread_fft_outputs_index as int, 49),
            t == self.spread_fft_outputs_index,
            10 <= b <= 1014,
        ensures
            r == self.is_peak_at(b as int),
    {
        let v = self.fft_outputs[a * SPECTRUM_BINS + b];
        if v < MIN_PEAK_KEY || v < self.spread_fft_outputs[s * SPECTRUM_BINS + b - 1] {
            return false;
        }
        self.frequency_test(v, s, b) && self.time_test(v, t, b)
    }

    /// The peak candidates of the current pass, in ascending bin order: bins
    /// 10 to 1014 of the raw spectrum 46 passes old that pass the tests.
    pub fn do_peak_recognition(&self) -> (r: Vec<PeakCandidate>)
        requires
            self.wf(),
        ensures
            r@ == self.candidates_below(1015),
    {
        let a = (self.fft_outputs_index + 210) % RING_SPECTRA;
        let s = (self.spread_fft_outputs_index + 207) % RING_SPECTRA;
        let t = self.spread_fft_outputs_index;
        let mut out: Vec<PeakCandidate> = Vec::new();
        let mut b: usize = 10;
        while b <= 1014
            invariant
                10 <= b <= 1015,
                self.wf(),
                a == slot_back(self.fft_outputs_index as int, 46),
                s == slot_back(self.spread_fft_outputs_index as int, 49),
                t == self.spread_fft_outputs_index,
                out@ == self.candidates_below(b as int),
            decreases 1015 - b,
        {
            if self.peak_test(a, s, t, b) {
                out.push(
                    PeakCandidate {
                        bin: b as u16,
                        before: self.fft_outputs[a * SPECTRUM_BINS + b - 1],
                        at: self.fft_outputs[a * SPECTRUM_BINS + b],
                        after: self.fft_outputs[a * SPECTRUM_BINS + b + 1],
                    },
                );
            }
            b = b + 1;
        }
        out
    }

    /// Files a refined peak found at the current pass: the candidate's `bin`
    /// with the sub-bin `offset` (in 1/64 bin) gives the corrected bin, whose
    /// frequency picks the band. A peak outside every band is dropped.
    pub fn record_peak(&mut self, bin: u16, offset: u16, magnitude: u16) -> (r: Option<FrequencyBand>)
        requires
            old(self).wf(),
            old(self).num_spread_ffts_done >= WARM_UP_PASSES,
            bin <= 1014,
        ensures
            final(self).wf(),
            r == band_of_bin_spec(corrected_bin_spec(bin, offset)),
            r matches Some(band) ==> final(self).signature.peaks_spec(band) == old(self).signature.peaks_spec(band).push(
                FrequencyPeak {
                    fft_pass_number: (old(self).num_spread_ffts_done - WARM_UP_PASSES) as u32,
                    peak_magnitude: magnitude,
                    corrected_peak_frequency_bin: corrected_bin_spec(bin, offset),
                    sample_rate_hz: ANALYSIS_SAMPLE_RATE_HZ,
                },
            ),
            forall|b: FrequencyBand|
                r != Some(b) ==> #[trigger] final(self).signature.peaks_spec(b) == old(self).signature.peaks_spec(b),
            final(self).signature.number_samples == old(self).signature.number_samples,
            final(self).signature.sample_rate_hz == old(self).signature.sample_rate_hz,
            final(self).ring_buffer_of_samples == old(self).ring_buffer_of_samples,
            final(self).ring_buffer_of_samples_index == old(self).ring_buffer_of_samples_index,
            final(self).fft_outputs == old(self).fft_outputs,
            final(self).fft_outputs_index == old(self).fft_outputs_index,
            final(self).spread_fft_outputs == old(self).spread_fft_outputs,
            final(self).spread_fft_outputs_index == old(self).spread_fft_outputs_index,
            final(self).num_spread_ffts_done == old(self).num_spread_ffts_done,
    {
        let corrected = (bin * 64).wrapping_add(offset);
        assert(corrected == corrected_bin_spec(bin, offset));
        let band = band_of_bin(corrected);
        match band {
            Some(b) => {
                let peak = FrequencyPeak {
                    fft_pass_number: self.num_spread_ffts_done - WARM_UP_PASSES,
                    peak_magnitude: magnitude,
                    corrected_peak_frequency_bin: corrected,
                    sample_rate_hz: ANALYSIS_SAMPLE_RATE_HZ,
                };
                let ghost old_sig = self.signature;
                self.signature.push_peak(b, peak);
                assert forall|bb: FrequencyBand| passes_ordered(#[trigger] self.signature.peaks_spec(bb)) by {
                    if bb == b {
                        let sq = self.signature.peaks_spec(bb);
                        assert forall|i: int| 0 < i < sq.len() implies #[trigger] sq[i].fft_pass_number
                            >= sq[i - 1].fft_pass_number by {
                            if i == sq.len() - 1 {
                                assert(sq[i - 1] == old_sig.peaks_spec(bb)[i - 1]);
                            } else {
                                assert(sq[i] == old_sig.peaks_spec(bb)[i]);
                                assert(sq[i - 1] == old_sig.peaks_spec(bb)[i - 1]);
                                assert(passes_ordered(old_sig.peaks_spec(bb)));
                            }
                        }
                    } else {
                        assert(self.signature.peaks_spec(bb) == old_sig.peaks_spec(bb));
                    }
                }
                assert forall|bb: FrequencyBand, i: int|
                    0 <= i < self.signature.peaks_spec(bb).len() implies {
                        let p = #[trigger] self.signature.peaks_spec(bb)[i];
                        &&& band_of_bin_spec(p.corrected_peak_frequency_bin) == Some(bb)
                        &&& p.fft_pass_number + WARM_UP_PASSES <= self.num_spread_ffts_done
                        &&& p.sample_rate_hz == ANALYSIS_SAMPLE_RATE_HZ
                    } by {
                    if bb == b {
                        if i < old_sig.peaks_spec(bb).len() {
                            assert(self.signature.peaks_spec(bb)[i] == old_sig.peaks_spec(bb)[i]);
                        }
                    } else {
                        assert(self.signature.peaks_spec(bb) == old_sig.peaks_spec(bb));
                    }
                }
            },
            None => {},
        }
        band
    }

    /// One pass: stores the raw spectrum of the newest window (one key per
    /// bin), spreads it, counts the pass, and once the warm-up is over returns
    /// the peak candidates of the spectrum 46 passes old.
    pub fn process_spectrum(&mut self, spectrum: &Vec<u32>) -> (r: Vec<PeakCandidate>)
        requires
            old(self).wf(),
            spectrum@.len() == SPECTRUM_BINS,
            old(self).num_spread_ffts_done < u32::MAX,
        ensures
            final(self).wf(),
            final(self).fft_outputs@ == old(self).fft_outputs@.subrange(
                0,
                old(self).fft_outputs_index * 1025,
            ) + spectrum@ + old(self).fft_outputs@.subrange(
                old(self).fft_outputs_index * 1025 + 1025,
                262400,
            ),
            final(self).fft_outputs_index == (old(self).fft_outputs_index + 1) % 256,
            forall|slot: int, p: int|
                0 <= slot < 256 && 0 <= p < 1025 ==> {
                    let s = old(self).spread_fft_outputs_index as int;
                    let v = spread3(spectrum@, p);
                    #[trigger] final(self).spread_key(slot, p) == if slot == s {
                        v
                    } else if is_merge_slot(s, slot) {
                        max_key_spec(old(self).spread_key(slot, p), v)
                    } else {
                        old(self).spread_key(slot, p)
                    }
                },
            final(self).spread_fft_outputs_index == (old(self).spread_fft_outputs_index + 1) % 256,
            final(self).num_spread_ffts_done == old(self).num_spread_ffts_done + 1,
            final(self).ring_buffer_of_samples == old(self).ring_buffer_of_samples,
            final(self).ring_buffer_of_samples_index == old(self).ring_buffer_of_samples_index,
            final(self).signature == old(self).signature,
            final(self).num_spread_ffts_done >= WARM_UP_PASSES ==> r@ == final(self).candidates_below(1015),
            final(self).num_spread_ffts_done < WARM_UP_PASSES ==> r@.len() == 0,
    {
        self.store_spectrum(spectrum);
        let ghost stored = *self;
        assert(stored.raw_spectrum(slot_back(stored.fft_outputs_index as int, 1)) =~= spectrum@);
        self.do_peak_spreading();
        let ghost after_spread = *self;
        self.num_spread_ffts_done = self.num_spread_ffts_done + 1;
        let r = if self.num_spread_ffts_done >= WARM_UP_PASSES {
            self.do_peak_recognition()
        } else {
            Vec::new()
        };
        assert forall|slot: int, p: int| 0 <= slot < 256 && 0 <= p < 1025 implies {
            let s = old(self).spread_fft_outputs_index as int;
            let v = spread3(spectrum@, p);
            #[trigger] self.spread_key(slot, p) == if slot == s {
                v
            } else if is_merge_slot(s, slot) {
                max_key_spec(old(self).spread_key(slot, p), v)
            } else {
                old(self).spread_key(slot, p)
            }
        } by {
            assert(self.spread_key(slot, p) == after_spread.spread_key(slot, p));
            assert(stored.spread_key(slot, p) == old(self).spread_key(slot, p));
        }
        r
    }

    /// The fingerprint gathered so far.
    pub fn into_fingerprint(self) -> (r: Fingerprint)
        ensures
            r == self.signature,
    {
        self.signature
    }
}


/// Every raw key in the ring is below the least power a peak may have.
pub open spec fn quiet_ring(g: SignatureGenerator) -> bool {
    forall|i: int| 0 <= i < g.fft_outputs@.len() ==> #[trigger] g.fft_outputs@[i] < MIN_PEAK_KEY
}

proof fn lemma_quiet_candidates_below(g: SignatureGenerator, n: int)
    requires
        g.wf(),
        quiet_ring(g),
        n <= 1015,
    ensures
        g.candidates_below(n).len() == 0,
    decreases n,
{
    if n > 10 {
        lemma_quiet_candidates_below(g, n - 1);
        let a = slot_back(g.fft_outputs_index as int, 46);
        assert(g.raw_key(a, n - 1) == g.fft_outputs@[a * 1025 + n - 1]);
    }
}

/// While the raw ring holds only spectra quieter than 1/64 in every bin (as
/// for silent input), no bin is a peak candidate; storing another such
/// spectrum keeps the ring quiet.
pub proof fn lemma_silence_finds_nothing(g: SignatureGenerator, spectrum: Seq<u32>)
    requires
        g.wf(),
        quiet_ring(g),
        spectrum.len() == 1025,
        forall|b: int| 0 <= b < 1025 ==> #[trigger] spectrum[b] < MIN_PEAK_KEY,
    ensures
        g.candidates_below(1015).len() == 0,
        forall|i: int|
            0 <= i < 262400 ==> #[trigger] (g.fft_outputs@.subrange(0, g.fft_outputs_index * 1025)
                + spectrum + g.fft_outputs@.subrange(g.fft_outputs_index * 1025 + 1025, 262400))[i]
                < MIN_PEAK_KEY,
{
    lemma_quiet_candidates_below(g, 1015);
}

/// Every peak filed by the analyser lies between 250 Hz and 5500 Hz (whole
/// hertz of its corrected bin, at 125/1024 Hz per corrected bin).
pub proof fn lemma_peaks_in_range(g: SignatureGenerator)
    requires
        g.wf(),
    ensures
        forall|b: FrequencyBand, i: int|
            0 <= i < g.signature.peaks_spec(b).len() ==> {
                let bin = (#[trigger] g.signature.peaks_spec(b)[i]).corrected_peak_frequency_bin;
                &&& 250 <= crate::band::hz_of_bin(bin) <= 5500
                &&& 250 * 1024 <= bin * 125 < 5501 * 1024
            },
{
}

} // verus!
