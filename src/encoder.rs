use vstd::prelude::*;
use crate::band::{FrequencyBand, FrequencyPeak, ordinal_spec};
use crate::bytes::{le16, le32, zeros, lemma_le32_zero, push_u16_le, push_u32_le, set_u32_le};
use crate::fingerprint::{Fingerprint, FingerprintError, passes_ordered};

verus! {

pub const MAGIC1: u32 = 0xcafe2580;

pub const MAGIC2: u32 = 0x94119c00;

/// `(15 << 19) + 0x40000`.
pub const FIXED_VALUE: u32 = 0x007c0000;

pub const BAND_TABLE_TAG: u32 = 0x40000000;

pub const BAND_CHUNK_TAG: u32 = 0x60030040;

/// Size of the envelope's fixed header; the length fields count what follows it.
pub const HEADER_SIZE: u32 = 48;

/// Marks an absolute pass number in a band's peak stream.
pub const ESCAPE: u8 = 0xff;

/// The most peaks a fingerprint may hold so that the envelope's size fits its
/// 32-bit length fields.
pub const MAX_PEAKS: usize = 300_000_000;

/// The envelope's code for a sample rate.
pub open spec fn rate_code(rate: u32) -> Option<u32> {
    if rate == 8000 {
        Some(1u32)
    } else if rate == 11025 {
        Some(2u32)
    } else if rate == 16000 {
        Some(3u32)
    } else if rate == 32000 {
        Some(4u32)
    } else if rate == 44100 {
        Some(5u32)
    } else if rate == 48000 {
        Some(6u32)
    } else {
        None
    }
}

/// `sample_rate * 0.24`, which is a whole number for every supported rate.
pub open spec fn rate_extra(rate: u32) -> u32 {
    (rate as int * 24 / 100) as u32
}

/// The bytes of one peak, given the pass number written before it: an escape
/// with the absolute pass number where the gap is 255 or more, then the
/// one-byte gap, the magnitude and the corrected bin.
pub open spec fn peak_record(p: FrequencyPeak, last: u32) -> Seq<u8> {
    let pass = p.fft_pass_number;
    let tail = le16(p.peak_magnitude) + le16(p.corrected_peak_frequency_bin);
    if pass - last >= 255 {
        seq![ESCAPE] + le32(pass) + seq![0u8] + tail
    } else {
        seq![(pass - last) as u8] + tail
    }
}

/// The peak stream of a band, each peak written relative to the one before.
pub open spec fn delta_payload(peaks: Seq<FrequencyPeak>, last: u32) -> Seq<u8>
    decreases peaks.len(),
{
    if peaks.len() == 0 {
        Seq::empty()
    } else {
        peak_record(peaks[0], last) + delta_payload(peaks.drop_first(), peaks[0].fft_pass_number)
    }
}

/// Zero bytes that bring `n` up to a multiple of four.
pub open spec fn pad_len(n: nat) -> nat {
    ((4 - n % 4) % 4) as nat
}

/// A band's sub-chunk: tag, payload length, payload, padding.
pub open spec fn band_chunk(b: FrequencyBand, peaks: Seq<FrequencyPeak>) -> Seq<u8> {
    let payload = delta_payload(peaks, 0);
    le32((BAND_CHUNK_TAG + ordinal_spec(b)) as u32) + le32(payload.len() as u32) + payload + zeros(
        pad_len(payload.len()),
    )
}

/// What a band contributes to the band table: nothing when it has no peaks.
pub open spec fn band_section(fp: Fingerprint, b: FrequencyBand) -> Seq<u8> {
    if fp.peaks_spec(b).len() == 0 {
        Seq::empty()
    } else {
        band_chunk(b, fp.peaks_spec(b))
    }
}

/// The sub-chunks of all bands, in ascending band order.
pub open spec fn band_table(fp: Fingerprint) -> Seq<u8> {
    band_section(fp, FrequencyBand::_250_520) + band_section(fp, FrequencyBand::_520_1450)
        + band_section(fp, FrequencyBand::_1450_3500) + band_section(
        fp,
        FrequencyBand::_3500_5500,
    )
}

/// Bytes 8 to 56 of the envelope, with `size_minus_header` in both length fields.
pub open spec fn header_fields(fp: Fingerprint, size_minus_header: u32) -> Seq<u8> {
    le32(size_minus_header) + le32(MAGIC2) + zeros(12) + le32(
        rate_code(fp.sample_rate_hz).unwrap() << 27u32,
    ) + zeros(8) + le32(fp.number_samples.wrapping_add(rate_extra(fp.sample_rate_hz))) + le32(
        FIXED_VALUE,
    ) + le32(BAND_TABLE_TAG) + le32(size_minus_header)
}

/// Everything after the checksum: the bytes that the checksum covers.
pub open spec fn signed_part(fp: Fingerprint) -> Seq<u8> {
    header_fields(fp, (band_table(fp).len() + 8) as u32) + band_table(fp)
}

/// CRC-32 (IEEE) of a byte sequence.
pub uninterp spec fn crc32_of(data: Seq<u8>) -> u32;

/// The whole envelope of a fingerprint.
pub open spec fn encoding(fp: Fingerprint) -> Seq<u8> {
    le32(MAGIC1) + le32(crc32_of(signed_part(fp))) + signed_part(fp)
}

/// Relies on `crc32fast::hash`: the CRC-32 (IEEE polynomial) of the bytes,
/// a function of the bytes alone.
#[verifier::external_body]
fn crc32(data: &[u8]) -> (r: u32)
    ensures
        r == crc32_of(data@),
{
    crc32fast::hash(data)
}

/// The envelope's code for a sample rate, or `None` for an unsupported rate.
pub fn sample_rate_code(rate: u32) -> (r: Option<u32>)
    ensures
        r == rate_code(rate),
{
    if rate == 8000 {
        Some(1)
    } else if rate == 11025 {
        Some(2)
    } else if rate == 16000 {
        Some(3)
    } else if rate == 32000 {
        Some(4)
    } else if rate == 44100 {
        Some(5)
    } else if rate == 48000 {
        Some(6)
    } else {
        None
    }
}

pub proof fn lemma_delta_payload_len(peaks: Seq<FrequencyPeak>, last: u32)
    ensures
        delta_payload(peaks, last).len() <= 10 * peaks.len(),
    decreases peaks.len(),
{
    if peaks.len() > 0 {
        lemma_delta_payload_len(peaks.drop_first(), peaks[0].fft_pass_number);
    }
}

/// Serialises a band's peaks as a delta stream, failing where pass numbers go back.
pub fn encode_peaks(peaks: &Vec<FrequencyPeak>) -> (r: Result<Vec<u8>, FingerprintError>)
    requires
        peaks.len() <= MAX_PEAKS,
    ensures
        r.is_ok() <==> passes_ordered(peaks@),
        r.is_err() ==> r == Err::<Vec<u8>, FingerprintError>(FingerprintError::MalformedPeakOrder),
        r matches Ok(v) ==> v@ == delta_payload(peaks@, 0),
{
    let mut out: Vec<u8> = Vec::new();
    let mut last: u32 = 0;
    let mut i: usize = 0;
    let n = peaks.len();
    assert(peaks@.subrange(0, n as int) =~= peaks@);
    while i < n
        invariant
            n == peaks.len(),
            n <= MAX_PEAKS,
            i <= n,
            forall|k: int| 0 < k < i ==> #[trigger] peaks@[k].fft_pass_number >= peaks@[k
                - 1].fft_pass_number,
            i > 0 ==> last == peaks@[i - 1].fft_pass_number,
            i == 0 ==> last == 0,
            out@ + delta_payload(peaks@.subrange(i as int, n as int), last) == delta_payload(
                peaks@,
                0,
            ),
            out@.len() <= 10 * i,
        decreases n - i,
    {
        let p = peaks[i];
        if p.fft_pass_number < last {
            assert(peaks@[i as int].fft_pass_number < peaks@[i - 1].fft_pass_number);
            return Err(FingerprintError::MalformedPeakOrder);
        }
        let ghost rest = peaks@.subrange(i as int, n as int);
        let ghost old_out = out@;
        assert(rest.drop_first() =~= peaks@.subrange(i + 1, n as int));
        assert(rest[0] == p);
        if p.fft_pass_number - last >= 255 {
            out.push(ESCAPE);
            push_u32_le(&mut out, p.fft_pass_number);
            last = p.fft_pass_number;
        }
        out.push((p.fft_pass_number - last) as u8);
        push_u16_le(&mut out, p.peak_magnitude);
        push_u16_le(&mut out, p.corrected_peak_frequency_bin);
        assert(out@ =~= old_out + peak_record(p, if i > 0 {
            peaks@[i - 1].fft_pass_number
        } else {
            0u32
        }));
        last = p.fft_pass_number;
        assert(old_out + delta_payload(rest, if i > 0 {
            peaks@[i - 1].fft_pass_number
        } else {
            0u32
        }) =~= out@ + delta_payload(peaks@.subrange(i + 1, n as int), last));
        i = i + 1;
    }
    assert(peaks@.subrange(n as int, n as int) =~= Seq::<FrequencyPeak>::empty());
    assert(out@ =~= delta_payload(peaks@, 0));
    Ok(out)
}

/// Appends a band's sub-chunk to `out`, where the band has peaks.
fn push_band_section(out: &mut Vec<u8>, band: FrequencyBand, peaks: &Vec<FrequencyPeak>) -> (r:
    Result<(), FingerprintError>)
    requires
        peaks.len() <= MAX_PEAKS,
    ensures
        r.is_ok() <==> passes_ordered(peaks@),
        r.is_err() ==> r == Err::<(), FingerprintError>(FingerprintError::MalformedPeakOrder),
        r.is_ok() ==> final(out)@ == old(out)@ + (if peaks@.len() == 0 {
            Seq::<u8>::empty()
        } else {
            band_chunk(band, peaks@)
        }),
{
    if peaks.len() == 0 {
        assert(final(out)@ =~= old(out)@ + Seq::<u8>::empty());
        return Ok(());
    }
    let payload = match encode_peaks(peaks) {
        Ok(v) => v,
        Err(e) => {
            return Err(e);
        },
    };
    proof {
        lemma_delta_payload_len(peaks@, 0);
    }
    let len = payload.len() as u32;
    push_u32_le(out, BAND_CHUNK_TAG + band.ordinal());
    push_u32_le(out, len);
    let ghost before_payload = out@;
    let mut k: usize = 0;
    while k < payload.len()
        invariant
            k <= payload@.len(),
            out@ == before_payload + payload@.subrange(0, k as int),
        decreases payload@.len() - k,
    {
        out.push(payload[k]);
        assert(payload@.subrange(0, k + 1) =~= payload@.subrange(0, k as int).push(payload@[k as int]));
        k = k + 1;
    }
    assert(payload@.subrange(0, payload@.len() as int) =~= payload@);
    let pad = (4 - len % 4) % 4;
    let ghost before_pad = out@;
    let mut j: u32 = 0;
    while j < pad
        invariant
            j <= pad,
            out@ == before_pad + zeros(j as nat),
        decreases pad - j,
    {
        out.push(0u8);
        assert(zeros((j + 1) as nat) =~= zeros(j as nat).push(0u8));
        j = j + 1;
    }
    assert(final(out)@ =~= old(out)@ + band_chunk(band, peaks@));
    Ok(())
}

pub proof fn lemma_band_chunk_len(b: FrequencyBand, peaks: Seq<FrequencyPeak>)
    ensures
        band_chunk(b, peaks).len() <= 11 + 10 * peaks.len(),
{
    lemma_delta_payload_len(peaks, 0);
}

pub proof fn lemma_band_table_len(fp: Fingerprint)
    ensures
        band_table(fp).len() <= 44 + 10 * fp.total_peaks(),
{
    lemma_band_chunk_len(FrequencyBand::_250_520, fp.band_250_520@);
    lemma_band_chunk_len(FrequencyBand::_520_1450, fp.band_520_1450@);
    lemma_band_chunk_len(FrequencyBand::_1450_3500, fp.band_1450_3500@);
    lemma_band_chunk_len(FrequencyBand::_3500_5500, fp.band_3500_5500@);
}

/// The header fields with both length fields still zero.
fn start_envelope(fp: &Fingerprint, code: u32) -> (r: Vec<u8>)
    requires
        rate_code(fp.sample_rate_hz) == Some(code),
    ensures
        r@ == header_fields(*fp, 0),
{
    let extra = fp.sample_rate_hz * 24 / 100;
    let mut rest: Vec<u8> = Vec::new();
    push_u32_le(&mut rest, 0);
    push_u32_le(&mut rest, MAGIC2);
    push_u32_le(&mut rest, 0);
    push_u32_le(&mut rest, 0);
    push_u32_le(&mut rest, 0);
    push_u32_le(&mut rest, code << 27);
    push_u32_le(&mut rest, 0);
    push_u32_le(&mut rest, 0);
    push_u32_le(&mut rest, fp.number_samples.wrapping_add(extra));
    push_u32_le(&mut rest, FIXED_VALUE);
    push_u32_le(&mut rest, BAND_TABLE_TAG);
    push_u32_le(&mut rest, 0);
    proof {
        lemma_le32_zero();
    }
    assert(zeros(12) =~= zeros(4) + zeros(4) + zeros(4));
    assert(zeros(8) =~= zeros(4) + zeros(4));
    assert(rest@ =~= header_fields(*fp, 0));
    rest
}

proof fn lemma_fill_lengths(fp: Fingerprint, table: Seq<u8>, smh: u32)
    ensures
        ({
            let s = header_fields(fp, 0) + table;
            let s1 = s.subrange(0, 0) + le32(smh) + s.subrange(4, s.len() as int);
            s1.subrange(0, 44) + le32(smh) + s1.subrange(48, s1.len() as int) == header_fields(
                fp,
                smh,
            ) + table
        }),
{
    let s = header_fields(fp, 0) + table;
    let s1 = s.subrange(0, 0) + le32(smh) + s.subrange(4, s.len() as int);
    assert(s1.subrange(0, 44) + le32(smh) + s1.subrange(48, s1.len() as int) =~= header_fields(
        fp,
        smh,
    ) + table);
}

/// The envelope's length: its fixed 56 bytes and the band table.
pub proof fn lemma_encoding_len(fp: Fingerprint)
    ensures
        encoding(fp).len() == 56 + band_table(fp).len(),
        encoding(fp).len() <= 100 + 10 * fp.total_peaks(),
{
    lemma_band_table_len(fp);
}

impl Fingerprint {
    /// Appends the band table to `out`, failing where some band's pass numbers go back.
    fn push_band_table(&self, out: &mut Vec<u8>) -> (r: Result<(), FingerprintError>)
        requires
            self.total_peaks() <= MAX_PEAKS,
        ensures
            r.is_ok() <==> self.well_ordered(),
            r.is_err() ==> r == Err::<(), FingerprintError>(FingerprintError::MalformedPeakOrder),
            r.is_ok() ==> final(out)@ == old(out)@ + band_table(*self),
    {
        let r0 = push_band_section(out, FrequencyBand::_250_520, &self.band_250_520);
        if r0.is_err() {
            assert(!passes_ordered(self.peaks_spec(FrequencyBand::_250_520)));
            return Err(FingerprintError::MalformedPeakOrder);
        }
        let r1 = push_band_section(out, FrequencyBand::_520_1450, &self.band_520_1450);
        if r1.is_err() {
            assert(!passes_ordered(self.peaks_spec(FrequencyBand::_520_1450)));
            return Err(FingerprintError::MalformedPeakOrder);
        }
        let r2 = push_band_section(out, FrequencyBand::_1450_3500, &self.band_1450_3500);
        if r2.is_err() {
            assert(!passes_ordered(self.peaks_spec(FrequencyBand::_1450_3500)));
            return Err(FingerprintError::MalformedPeakOrder);
        }
        let r3 = push_band_section(out, FrequencyBand::_3500_5500, &self.band_3500_5500);
        if r3.is_err() {
            assert(!passes_ordered(self.peaks_spec(FrequencyBand::_3500_5500)));
            return Err(FingerprintError::MalformedPeakOrder);
        }
        assert forall|b: FrequencyBand| passes_ordered(#[trigger] self.peaks_spec(b)) by {
            match b {
                FrequencyBand::_250_520 => {},
                FrequencyBand::_520_1450 => {},
                FrequencyBand::_1450_3500 => {},
                FrequencyBand::_3500_5500 => {},
            }
        }
        assert(final(out)@ =~= old(out)@ + band_table(*self));
        Ok(())
    }

    /// Serialises the fingerprint into its binary envelope.
    ///
    /// Fails with `UnsupportedSampleRate` where the sample rate has no code,
    /// and otherwise with `MalformedPeakOrder` where some band's pass numbers
    /// go back.
    pub fn encode_to_binary(&self) -> (r: Result<Vec<u8>, FingerprintError>)
        requires
            self.total_peaks() <= MAX_PEAKS,
        ensures
            rate_code(self.sample_rate_hz).is_none() ==> r == Err::<Vec<u8>, FingerprintError>(
                FingerprintError::UnsupportedSampleRate,
            ),
            rate_code(self.sample_rate_hz).is_some() && !self.well_ordered() ==> r == Err::<
                Vec<u8>,
                FingerprintError,
            >(FingerprintError::MalformedPeakOrder),
            rate_code(self.sample_rate_hz).is_some() && self.well_ordered() ==> (r matches Ok(v)
                && v@ == encoding(*self)),
    {
        let code = match sample_rate_code(self.sample_rate_hz) {
            Some(c) => c,
            None => {
                return Err(FingerprintError::UnsupportedSampleRate);
            },
        };
        let mut rest = start_envelope(self, code);
        let ghost head = rest@;
        assert(rest@.len() == 48);
        match self.push_band_table(&mut rest) {
            Ok(()) => {},
            Err(e) => {
                return Err(e);
            },
        }
        let ghost table = band_table(*self);
        assert(rest@ =~= head + table);
        proof {
            lemma_band_table_len(*self);
        }
        let size_minus_header = (rest.len() - 40) as u32;
        set_u32_le(&mut rest, 0, size_minus_header);
        set_u32_le(&mut rest, 44, size_minus_header);
        proof {
            lemma_fill_lengths(*self, table, size_minus_header);
        }
        assert(rest@ =~= signed_part(*self));
        let crc = crc32(rest.as_slice());
        let mut out: Vec<u8> = Vec::new();
        push_u32_le(&mut out, MAGIC1);
        push_u32_le(&mut out, crc);
        out.append(&mut rest);
        assert(out@ =~= encoding(*self));
        Ok(out)
    }
}

} // verus!
