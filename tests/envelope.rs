use audio_fingerprint::band::{FrequencyBand, FrequencyPeak};
use audio_fingerprint::fingerprint::{Fingerprint, FingerprintError};
use audio_fingerprint::uri::{data_uri, uri_from_base64, DATA_URI_PREFIX};

fn peak(pass: u32, magnitude: u16, bin: u16) -> FrequencyPeak {
    FrequencyPeak {
        fft_pass_number: pass,
        peak_magnitude: magnitude,
        corrected_peak_frequency_bin: bin,
        sample_rate_hz: 16000,
    }
}

fn read_u32(buf: &[u8], at: usize) -> u32 {
    u32::from_le_bytes([buf[at], buf[at + 1], buf[at + 2], buf[at + 3]])
}

const SILENT_HEADER: [u8; 56] = [
    128, 37, 254, 202, 129, 103, 12, 184, 8, 0, 0, 0, 0, 156, 17, 148, 0, 0, 0, 0, 0, 0, 0, 0, 0,
    0, 0, 0, 0, 0, 0, 24, 0, 0, 0, 0, 0, 0, 0, 0, 0, 253, 2, 0, 0, 0, 124, 0, 0, 0, 0, 64, 8, 0,
    0, 0,
];

#[test]
fn silent_fingerprint_is_header_only() {
    let fp = Fingerprint::new(16000, 192000);
    let buf = fp.encode_to_binary().unwrap();
    assert_eq!(buf.len(), 56);
    assert_eq!(buf, SILENT_HEADER.to_vec());
    assert_eq!(read_u32(&buf, 4), crc32fast::hash(&buf[8..]));
}

#[test]
fn silent_fingerprint_data_uri() {
    let fp = Fingerprint::new(16000, 192000);
    let uri = fp.to_data_uri().unwrap();
    assert_eq!(
        uri,
        "data:audio/vnd.shazam.sig;base64,gCX+yoFnDLgIAAAAAJwRlAAAAAAAAAAAAAAAAAAAABgAAAAAAAAAAAD9AgAAAHwAAAAAQAgAAAA="
    );
}

#[test]
fn data_uri_of_bytes() {
    assert_eq!(data_uri(&[1, 2, 3]), "data:audio/vnd.shazam.sig;base64,AQID");
    assert_eq!(data_uri(&[0xff]), "data:audio/vnd.shazam.sig;base64,/w==");
    assert_eq!(data_uri(&[]), DATA_URI_PREFIX);
    assert_eq!(uri_from_base64("QUJD"), "data:audio/vnd.shazam.sig;base64,QUJD");
}

#[test]
fn unsupported_sample_rate() {
    let fp = Fingerprint::new(22050, 100);
    assert_eq!(fp.encode_to_binary(), Err(FingerprintError::UnsupportedSampleRate));
    assert_eq!(fp.to_data_uri(), Err(FingerprintError::UnsupportedSampleRate));
}

#[test]
fn sample_rate_codes_and_sample_field() {
    let rates = [(8000u32, 1u32, 1920u32), (11025, 2, 2646), (16000, 3, 3840), (32000, 4, 7680), (44100, 5, 10584), (48000, 6, 11520)];
    for (rate, code, extra) in rates {
        let buf = Fingerprint::new(rate, 1000).encode_to_binary().unwrap();
        assert_eq!(read_u32(&buf, 28), code << 27);
        assert_eq!(read_u32(&buf, 40), 1000 + extra);
        assert_eq!(read_u32(&buf, 0), 0xcafe2580);
        assert_eq!(read_u32(&buf, 12), 0x94119c00);
        assert_eq!(read_u32(&buf, 44), 0x007c0000);
        assert_eq!(read_u32(&buf, 48), 0x40000000);
    }
}

#[test]
fn sample_field_wraps() {
    let buf = Fingerprint::new(16000, u32::MAX).encode_to_binary().unwrap();
    assert_eq!(read_u32(&buf, 40), 3839);
}

#[test]
fn single_peak_uses_escape() {
    let mut fp = Fingerprint::new(16000, 192000);
    fp.push_peak(FrequencyBand::_520_1450, peak(300, 0x1234, 0x2000));
    let buf = fp.encode_to_binary().unwrap();
    assert_eq!(buf.len(), 76);
    assert_eq!(
        buf[56..].to_vec(),
        vec![0x41, 0x00, 0x03, 0x60, 10, 0, 0, 0, 0xff, 0x2c, 0x01, 0x00, 0x00, 0x00, 0x34, 0x12, 0x00, 0x20, 0, 0]
    );
    assert_eq!(read_u32(&buf, 8), 28);
    assert_eq!(read_u32(&buf, 52), 28);
    assert_eq!(read_u32(&buf, 4), crc32fast::hash(&buf[8..]));
}

#[test]
fn two_peaks_relative() {
    let mut fp = Fingerprint::new(16000, 192000);
    fp.push_peak(FrequencyBand::_1450_3500, peak(10, 0x0102, 0x5000));
    fp.push_peak(FrequencyBand::_1450_3500, peak(20, 0x0304, 0x5100));
    let buf = fp.encode_to_binary().unwrap();
    assert_eq!(read_u32(&buf, 56), 0x60030042);
    assert_eq!(read_u32(&buf, 60), 10);
    assert_eq!(
        buf[64..74].to_vec(),
        vec![0x0a, 0x02, 0x01, 0x00, 0x50, 0x0a, 0x04, 0x03, 0x00, 0x51]
    );
    assert_eq!(buf[74..].to_vec(), vec![0, 0]);
    assert_eq!(buf.len(), 56 + 20);
}

#[test]
fn malformed_peak_order() {
    let mut fp = Fingerprint::new(16000, 192000);
    fp.push_peak(FrequencyBand::_250_520, peak(20, 1, 2100));
    fp.push_peak(FrequencyBand::_250_520, peak(10, 1, 2100));
    assert_eq!(fp.encode_to_binary(), Err(FingerprintError::MalformedPeakOrder));
    let mut bad_rate = fp.clone();
    bad_rate.sample_rate_hz = 1;
    assert_eq!(bad_rate.encode_to_binary(), Err(FingerprintError::UnsupportedSampleRate));
}

fn sample_fingerprint() -> Fingerprint {
    let mut fp = Fingerprint::new(16000, 192000);
    fp.push_peak(FrequencyBand::_3500_5500, peak(3, 7000, 40000));
    fp.push_peak(FrequencyBand::_250_520, peak(0, 6500, 2100));
    fp.push_peak(FrequencyBand::_250_520, peak(254, 6600, 2200));
    fp.push_peak(FrequencyBand::_250_520, peak(509, 6700, 2300));
    fp.push_peak(FrequencyBand::_250_520, peak(509, 6800, 2400));
    fp.push_peak(FrequencyBand::_520_1450, peak(1000, 9000, 8192));
    fp
}

#[test]
fn length_fields_match() {
    let buf = sample_fingerprint().encode_to_binary().unwrap();
    assert_eq!(read_u32(&buf, 8) as usize, buf.len() - 48);
    assert_eq!(read_u32(&buf, 52) as usize, buf.len() - 48);
}

#[test]
fn checksum_covers_rest() {
    let buf = sample_fingerprint().encode_to_binary().unwrap();
    assert_eq!(read_u32(&buf, 4), crc32fast::hash(&buf[8..]));
    let mut other = sample_fingerprint();
    other.number_samples = 1;
    let buf2 = other.encode_to_binary().unwrap();
    assert_ne!(read_u32(&buf, 4), read_u32(&buf2, 4));
}

/// Walks the band table: (tag, payload) of each sub-chunk, checking padding.
fn walk_chunks(buf: &[u8]) -> Vec<(u32, Vec<u8>)> {
    let mut out = Vec::new();
    let mut at = 56;
    while at < buf.len() {
        let tag = read_u32(buf, at);
        let len = read_u32(buf, at + 4) as usize;
        let payload = buf[at + 8..at + 8 + len].to_vec();
        let pad = (4 - len % 4) % 4;
        assert!(buf[at + 8 + len..at + 8 + len + pad].iter().all(|b| *b == 0));
        assert_eq!((8 + len + pad) % 4, 0);
        out.push((tag, payload));
        at += 8 + len + pad;
    }
    assert_eq!(at, buf.len());
    out
}

fn decode_payload(payload: &[u8]) -> Vec<(u32, u16, u16)> {
    let mut out = Vec::new();
    let mut last = 0u32;
    let mut at = 0;
    while at < payload.len() {
        if payload[at] == 0xff {
            last = read_u32(payload, at + 1);
            at += 5;
        }
        let pass = last + payload[at] as u32;
        let magnitude = u16::from_le_bytes([payload[at + 1], payload[at + 2]]);
        let bin = u16::from_le_bytes([payload[at + 3], payload[at + 4]]);
        out.push((pass, magnitude, bin));
        last = pass;
        at += 5;
    }
    out
}

#[test]
fn bands_in_ascending_order() {
    let buf = sample_fingerprint().encode_to_binary().unwrap();
    let tags: Vec<u32> = walk_chunks(&buf).iter().map(|c| c.0).collect();
    assert_eq!(tags, vec![0x60030040, 0x60030041, 0x60030043]);
}

#[test]
fn payload_decodes_to_peaks() {
    let buf = sample_fingerprint().encode_to_binary().unwrap();
    let chunks = walk_chunks(&buf);
    assert_eq!(
        decode_payload(&chunks[0].1),
        vec![(0, 6500, 2100), (254, 6600, 2200), (509, 6700, 2300), (509, 6800, 2400)]
    );
    assert_eq!(decode_payload(&chunks[1].1), vec![(1000, 9000, 8192)]);
    assert_eq!(decode_payload(&chunks[2].1), vec![(3, 7000, 40000)]);
    // 254 is written relative, 509 (255 after 254) absolutely.
    assert_eq!(chunks[0].1.len(), 5 + 5 + 10 + 5);
}

#[test]
fn payload_padding() {
    let mut fp = Fingerprint::new(16000, 0);
    fp.push_peak(FrequencyBand::_250_520, peak(1, 2, 2100));
    let buf = fp.encode_to_binary().unwrap();
    assert_eq!(read_u32(&buf, 60), 5);
    assert_eq!(buf.len(), 56 + 8 + 5 + 3);
    assert_eq!(buf[69..].to_vec(), vec![0, 0, 0]);
}

#[test]
fn encoding_is_deterministic() {
    let a = sample_fingerprint().encode_to_binary().unwrap();
    let b = sample_fingerprint().encode_to_binary().unwrap();
    assert_eq!(a, b);
    assert_eq!(sample_fingerprint().to_data_uri(), sample_fingerprint().to_data_uri());
}

#[test]
fn peaks_by_band() {
    let fp = sample_fingerprint();
    assert_eq!(fp.peaks(FrequencyBand::_250_520).len(), 4);
    assert_eq!(fp.peaks(FrequencyBand::_1450_3500).len(), 0);
    assert_eq!(fp.peak_count(), 6);
}
