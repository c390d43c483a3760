//! Properties of the envelope that follow from the encoder's contract.
use vstd::prelude::*;
use crate::band::{FrequencyBand, FrequencyPeak, ordinal_spec};
use crate::bytes::{le16, le32, zeros, read_le16, read_le32, lemma_read_le16, lemma_read_le32};
use crate::encoder::{
    MAX_PEAKS, ESCAPE, encoding, signed_part, band_table, band_section, band_chunk,
    delta_payload, peak_record, pad_len, crc32_of, rate_code, lemma_band_table_len,
    lemma_delta_payload_len, BAND_CHUNK_TAG,
};
use crate::fingerprint::{Fingerprint, passes_ordered};

verus! {

/// Where `s` holds `le32(n)` at offset `i`, reading there gives `n`.
pub proof fn lemma_read_le32_at(s: Seq<u8>, i: int, n: u32)
    requires
        0 <= i,
        i + 4 <= s.len(),
        s.subrange(i, i + 4) == le32(n),
    ensures
        read_le32(s, i) == n,
{
    lemma_read_le32(n);
    assert(s[i] == le32(n)[0]);
    assert(s[i + 1] == le32(n)[1]);
    assert(s[i + 2] == le32(n)[2]);
    assert(s[i + 3] == le32(n)[3]);
}

/// Where `s` holds `le16(n)` at offset `i`, reading there gives `n`.
pub proof fn lemma_read_le16_at(s: Seq<u8>, i: int, n: u16)
    requires
        0 <= i,
        i + 2 <= s.len(),
        s.subrange(i, i + 2) == le16(n),
    ensures
        read_le16(s, i) == n,
{
    lemma_read_le16(n);
    assert(s[i] == le16(n)[0]);
    assert(s[i + 1] == le16(n)[1]);
}

/// The two length fields, at offsets 8 and 52, both hold the envelope's
/// length less its 48-byte header.
pub proof fn lemma_length_fields(fp: Fingerprint)
    requires
        rate_code(fp.sample_rate_hz).is_some(),
        fp.total_peaks() <= MAX_PEAKS,
    ensures
        ({
            let buf = encoding(fp);
            &&& buf.len() >= 56
            &&& read_le32(buf, 8) == buf.len() - 48
            &&& read_le32(buf, 52) == buf.len() - 48
        }),
{
    lemma_band_table_len(fp);
    let table = band_table(fp);
    let smh = (table.len() + 8) as u32;
    let buf = encoding(fp);
    assert(buf.subrange(8, 12) =~= le32(smh));
    assert(buf.subrange(52, 56) =~= le32(smh));
    lemma_read_le32_at(buf, 8, smh);
    lemma_read_le32_at(buf, 52, smh);
}

proof fn lemma_split_prefix(x: u32, y: u32, rest: Seq<u8>)
    ensures
        ({
            let buf = le32(x) + le32(y) + rest;
            &&& buf.subrange(8, buf.len() as int) == rest
            &&& buf.subrange(4, 8) == le32(y)
        }),
{
    let buf = le32(x) + le32(y) + rest;
    assert(buf.subrange(8, buf.len() as int) =~= rest);
    assert(buf.subrange(4, 8) =~= le32(y));
}

/// The checksum at offset 4 is the CRC-32 of everything from offset 8 on.
pub proof fn lemma_checksum_field(fp: Fingerprint)
    ensures
        ({
            let buf = encoding(fp);
            &&& buf.len() >= 8
            &&& read_le32(buf, 4) == crc32_of(buf.subrange(8, buf.len() as int))
        }),
{
    let sp = signed_part(fp);
    let c = crc32_of(sp);
    let buf = encoding(fp);
    assert(buf == le32(crate::encoder::MAGIC1) + le32(c) + sp);
    lemma_split_prefix(crate::encoder::MAGIC1, c, sp);
    lemma_read_le32_at(buf, 4, c);
}

/// Each sub-chunk's payload is followed by fewer than four zero bytes, which
/// bring it to a multiple of four bytes.
pub proof fn lemma_chunk_alignment(b: FrequencyBand, peaks: Seq<FrequencyPeak>)
    ensures
        ({
            let n = delta_payload(peaks, 0).len();
            let chunk = band_chunk(b, peaks);
            &&& pad_len(n) < 4
            &&& (n + pad_len(n)) % 4 == 0
            &&& chunk.len() % 4 == 0
            &&& chunk.subrange(8 + n as int, chunk.len() as int) == zeros(pad_len(n))
        }),
{
    let n = delta_payload(peaks, 0).len();
    let chunk = band_chunk(b, peaks);
    assert(chunk.subrange(8 + n as int, chunk.len() as int) =~= zeros(pad_len(n)));
}

/// A fingerprint without peaks encodes to the 56-byte header alone.
pub proof fn lemma_empty_encoding(fp: Fingerprint)
    requires
        forall|b: FrequencyBand| #[trigger] fp.peaks_spec(b).len() == 0,
    ensures
        band_table(fp).len() == 0,
        encoding(fp).len() == 56,
{
    assert(fp.peaks_spec(FrequencyBand::_250_520).len() == 0);
    assert(fp.peaks_spec(FrequencyBand::_520_1450).len() == 0);
    assert(fp.peaks_spec(FrequencyBand::_1450_3500).len() == 0);
    assert(fp.peaks_spec(FrequencyBand::_3500_5500).len() == 0);
}

/// Two fingerprints with the same sample rate, length and peaks encode to
/// the same bytes.
pub proof fn lemma_encoding_deterministic(a: Fingerprint, b: Fingerprint)
    requires
        a.sample_rate_hz == b.sample_rate_hz,
        a.number_samples == b.number_samples,
        forall|band: FrequencyBand| #[trigger] a.peaks_spec(band) == b.peaks_spec(band),
    ensures
        encoding(a) == encoding(b),
{
    assert(a.peaks_spec(FrequencyBand::_250_520) == b.peaks_spec(FrequencyBand::_250_520));
    assert(a.peaks_spec(FrequencyBand::_520_1450) == b.peaks_spec(FrequencyBand::_520_1450));
    assert(a.peaks_spec(FrequencyBand::_1450_3500) == b.peaks_spec(FrequencyBand::_1450_3500));
    assert(a.peaks_spec(FrequencyBand::_3500_5500) == b.peaks_spec(FrequencyBand::_3500_5500));
    assert(band_table(a) == band_table(b));
}

/// The pass number, magnitude and corrected bin of a peak: what a band's
/// payload records of it.
pub open spec fn peak_fields(p: FrequencyPeak) -> (u32, u16, u16) {
    (p.fft_pass_number, p.peak_magnitude, p.corrected_peak_frequency_bin)
}

/// Reads a band's payload back, starting from pass number `last`: an escape
/// byte sets the pass number absolutely, any other first byte adds to it.
pub open spec fn decode_payload(bytes: Seq<u8>, last: u32) -> Seq<(u32, u16, u16)>
    decreases bytes.len(),
{
    if bytes.len() >= 10 && bytes[0] == ESCAPE {
        let base = read_le32(bytes, 1);
        let rec = bytes.subrange(5, bytes.len() as int);
        let pass = (base + rec[0]) as u32;
        seq![(pass, read_le16(rec, 1), read_le16(rec, 3))] + decode_payload(
            rec.subrange(5, rec.len() as int),
            pass,
        )
    } else if bytes.len() >= 5 && bytes[0] != ESCAPE {
        let pass = (last + bytes[0]) as u32;
        seq![(pass, read_le16(bytes, 1), read_le16(bytes, 3))] + decode_payload(
            bytes.subrange(5, bytes.len() as int),
            pass,
        )
    } else {
        Seq::empty()
    }
}

proof fn lemma_decode_from(peaks: Seq<FrequencyPeak>, last: u32)
    requires
        passes_ordered(peaks),
        peaks.len() > 0 ==> peaks[0].fft_pass_number >= last,
    ensures
        decode_payload(delta_payload(peaks, last), last) == peaks.map_values(
            |p: FrequencyPeak| peak_fields(p),
        ),
    decreases peaks.len(),
{
    if peaks.len() > 0 {
        let p = peaks[0];
        let rest = peaks.drop_first();
        assert forall|i: int| 0 < i < rest.len() implies #[trigger] rest[i].fft_pass_number
            >= rest[i - 1].fft_pass_number by {
            assert(rest[i] == peaks[i + 1]);
            assert(rest[i - 1] == peaks[i]);
        }
        if rest.len() > 0 {
            assert(rest[0] == peaks[1]);
        }
        lemma_decode_from(rest, p.fft_pass_number);
        let tail = delta_payload(rest, p.fft_pass_number);
        let bytes = peak_record(p, last) + tail;
        assert(delta_payload(peaks, last) == bytes);
        if p.fft_pass_number - last >= 255 {
            assert(bytes.subrange(1, 5) =~= le32(p.fft_pass_number));
            lemma_read_le32_at(bytes, 1, p.fft_pass_number);
            let rec = bytes.subrange(5, bytes.len() as int);
            assert(rec[0] == 0);
            assert(rec.subrange(1, 3) =~= le16(p.peak_magnitude));
            assert(rec.subrange(3, 5) =~= le16(p.corrected_peak_frequency_bin));
            lemma_read_le16_at(rec, 1, p.peak_magnitude);
            lemma_read_le16_at(rec, 3, p.corrected_peak_frequency_bin);
            assert(rec.subrange(5, rec.len() as int) =~= tail);
        } else {
            assert(bytes[0] == (p.fft_pass_number - last) as u8);
            assert(bytes.subrange(1, 3) =~= le16(p.peak_magnitude));
            assert(bytes.subrange(3, 5) =~= le16(p.corrected_peak_frequency_bin));
            lemma_read_le16_at(bytes, 1, p.peak_magnitude);
            lemma_read_le16_at(bytes, 3, p.corrected_peak_frequency_bin);
            assert(bytes.subrange(5, bytes.len() as int) =~= tail);
        }
        assert(peaks.map_values(|q: FrequencyPeak| peak_fields(q)) =~= seq![peak_fields(p)]
            + rest.map_values(|q: FrequencyPeak| peak_fields(q)));
    }
}

/// Reading a band's payload back gives its peaks, in the order they were
/// found, with pass numbers that never decrease.
pub proof fn lemma_payload_round_trip(peaks: Seq<FrequencyPeak>)
    requires
        passes_ordered(peaks),
    ensures
        ({
            let decoded = decode_payload(delta_payload(peaks, 0), 0);
            &&& decoded == peaks.map_values(|p: FrequencyPeak| peak_fields(p))
            &&& forall|i: int| 0 < i < decoded.len() ==> #[trigger] decoded[i].0 >= decoded[i - 1].0
        }),
{
    lemma_decode_from(peaks, 0);
    let decoded = decode_payload(delta_payload(peaks, 0), 0);
    assert forall|i: int| 0 < i < decoded.len() implies #[trigger] decoded[i].0 >= decoded[i - 1].0 by {
        assert(decoded[i] == peak_fields(peaks[i]));
        assert(decoded[i - 1] == peak_fields(peaks[i - 1]));
    }
}

/// The tags of a band table's sub-chunks, read by walking it from one
/// sub-chunk to the next: tag, payload length, payload, padding.
pub open spec fn chunk_tags(table: Seq<u8>) -> Seq<u32>
    decreases table.len(),
{
    if table.len() >= 8 {
        let n = read_le32(table, 4) as nat;
        let next = 8 + n + pad_len(n);
        if next <= table.len() {
            seq![read_le32(table, 0)] + chunk_tags(table.subrange(next as int, table.len() as int))
        } else {
            Seq::empty()
        }
    } else {
        Seq::empty()
    }
}

/// The sub-chunk tag of band `b`.
pub open spec fn band_tag(b: FrequencyBand) -> u32 {
    (BAND_CHUNK_TAG + ordinal_spec(b)) as u32
}

/// The tag of band `b` where it has peaks.
pub open spec fn tag_if_present(fp: Fingerprint, b: FrequencyBand) -> Seq<u32> {
    if fp.peaks_spec(b).len() == 0 {
        Seq::empty()
    } else {
        seq![band_tag(b)]
    }
}

/// The tags of the bands that have peaks, in ascending band order.
pub open spec fn present_tags(fp: Fingerprint) -> Seq<u32> {
    tag_if_present(fp, FrequencyBand::_250_520) + tag_if_present(fp, FrequencyBand::_520_1450)
        + tag_if_present(fp, FrequencyBand::_1450_3500) + tag_if_present(
        fp,
        FrequencyBand::_3500_5500,
    )
}

proof fn lemma_chunk_tags_section(fp: Fingerprint, b: FrequencyBand, rest: Seq<u8>)
    requires
        fp.peaks_spec(b).len() <= MAX_PEAKS,
    ensures
        chunk_tags(band_section(fp, b) + rest) == tag_if_present(fp, b) + chunk_tags(rest),
{
    if fp.peaks_spec(b).len() == 0 {
        assert(band_section(fp, b) + rest =~= rest);
        assert(tag_if_present(fp, b) + chunk_tags(rest) =~= chunk_tags(rest));
    } else {
        let peaks = fp.peaks_spec(b);
        let payload = delta_payload(peaks, 0);
        lemma_delta_payload_len(peaks, 0);
        let chunk = band_chunk(b, peaks);
        let all = chunk + rest;
        assert(all.subrange(0, 4) =~= le32(band_tag(b)));
        assert(all.subrange(4, 8) =~= le32(payload.len() as u32));
        lemma_read_le32_at(all, 0, band_tag(b));
        lemma_read_le32_at(all, 4, payload.len() as u32);
        assert(all.subrange(chunk.len() as int, all.len() as int) =~= rest);
    }
}

/// Walking the band table reads one sub-chunk per band that has peaks, in
/// strictly increasing band order.
pub proof fn lemma_band_order(fp: Fingerprint)
    requires
        fp.total_peaks() <= MAX_PEAKS,
    ensures
        chunk_tags(band_table(fp)) == present_tags(fp),
        forall|i: int, j: int|
            0 <= i < j < present_tags(fp).len() ==> #[trigger] present_tags(fp)[i]
                < #[trigger] present_tags(fp)[j],
{
    let s0 = band_section(fp, FrequencyBand::_250_520);
    let s1 = band_section(fp, FrequencyBand::_520_1450);
    let s2 = band_section(fp, FrequencyBand::_1450_3500);
    let s3 = band_section(fp, FrequencyBand::_3500_5500);
    assert(band_table(fp) =~= s0 + (s1 + (s2 + (s3 + Seq::empty()))));
    assert(chunk_tags(Seq::<u8>::empty()) == Seq::<u32>::empty());
    lemma_chunk_tags_section(fp, FrequencyBand::_3500_5500, Seq::empty());
    lemma_chunk_tags_section(fp, FrequencyBand::_1450_3500, s3 + Seq::empty());
    lemma_chunk_tags_section(fp, FrequencyBand::_520_1450, s2 + (s3 + Seq::empty()));
    lemma_chunk_tags_section(fp, FrequencyBand::_250_520, s1 + (s2 + (s3 + Seq::empty())));
    assert(present_tags(fp) =~= tag_if_present(fp, FrequencyBand::_250_520) + (tag_if_present(
        fp,
        FrequencyBand::_520_1450,
    ) + (tag_if_present(fp, FrequencyBand::_1450_3500) + (tag_if_present(
        fp,
        FrequencyBand::_3500_5500,
    ) + Seq::empty()))));
    let t = present_tags(fp);
    assert forall|i: int, j: int| 0 <= i < j < t.len() implies #[trigger] t[i] < #[trigger] t[j] by {
        assert(forall|k: int| 0 <= k < t.len() ==> BAND_CHUNK_TAG <= #[trigger] t[k] <= BAND_CHUNK_TAG + 3);
    }
}

} // verus!
