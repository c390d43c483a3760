use audio_fingerprint::band::FrequencyBand;
use audio_fingerprint::fingerprint::{Fingerprint, FingerprintError};
use audio_fingerprint::generator::{
    PeakCandidate, SignatureGenerator, HOP_SIZE, MIN_PEAK_KEY, SPECTRUM_BINS, WINDOW_SIZE,
};

const BANDS: [FrequencyBand; 4] = [
    FrequencyBand::_250_520,
    FrequencyBand::_520_1450,
    FrequencyBand::_1450_3500,
    FrequencyBand::_3500_5500,
];

fn floor_key() -> u32 {
    0.0000000001f32.to_bits()
}

fn power_spectrum(windowed: &[f32], fft: &mut chfft::RFft1D<f32>) -> Vec<u32> {
    fft.forward(windowed)
        .iter()
        .map(|c| ((c.re.powi(2) + c.im.powi(2)) / ((1 << 17) as f32)).max(0.0000000001))
        .map(f32::to_bits)
        .collect()
}

fn log_magnitude(key: u32) -> f32 {
    f32::from_bits(key).ln().max(1.0 / 64.0) * 1477.3 + 6144.0
}

fn refine(c: &PeakCandidate) -> Result<(u16, u16), FingerprintError> {
    let m = log_magnitude(c.at);
    let before = log_magnitude(c.before);
    let after = log_magnitude(c.after);
    let v1 = m * 2.0 - before - after;
    let v2 = (after - before) * 32.0 / v1;
    if !(v1 >= 0.0) {
        return Err(FingerprintError::InvariantViolation);
    }
    Ok((v2 as u16, m as u16))
}

/// Runs the whole analysis on 16 kHz samples, with the floating-point stages here.
fn analyse(samples: &[i16]) -> Fingerprint {
    let window: Vec<f32> = (0..WINDOW_SIZE)
        .map(|i| 0.5 - 0.5 * (2.0 * std::f32::consts::PI * (i + 1) as f32 / 2049.0).cos())
        .collect();
    let mut fft = chfft::RFft1D::<f32>::new(WINDOW_SIZE);
    let mut g = SignatureGenerator::new(samples.len() as u32);
    for hop in samples.chunks_exact(HOP_SIZE) {
        let w = g.push_hop(hop);
        let windowed: Vec<f32> = w.iter().zip(window.iter()).map(|(s, h)| *s as f32 * h).collect();
        let spectrum = power_spectrum(&windowed, &mut fft);
        for c in g.process_spectrum(&spectrum) {
            let (offset, magnitude) = refine(&c).unwrap();
            g.record_peak(c.bin, offset, magnitude);
        }
    }
    g.into_fingerprint()
}

#[test]
fn window_is_oldest_first() {
    let mut g = SignatureGenerator::new(0);
    let hop1: Vec<i16> = (1..=128).collect();
    let w = g.push_hop(&hop1);
    assert_eq!(w.len(), 2048);
    assert_eq!(w[2047], 128);
    assert_eq!(w[1920], 1);
    assert_eq!(w[1919], 0);
    let hop2: Vec<i16> = (1001..=1128).collect();
    let w = g.push_hop(&hop2);
    assert_eq!(w[2047], 1128);
    assert_eq!(w[1920], 1001);
    assert_eq!(w[1919], 128);
    assert_eq!(g.ring_buffer_of_samples_index, 256);
}

#[test]
fn no_candidates_during_warm_up_or_silence() {
    let mut g = SignatureGenerator::new(192000);
    let quiet = vec![floor_key(); SPECTRUM_BINS];
    for pass in 0..1500u32 {
        let c = g.process_spectrum(&quiet);
        assert!(c.is_empty(), "pass {}", pass);
    }
    assert_eq!(g.num_spread_ffts_done, 1500);
    assert_eq!(g.fft_outputs_index, 1500 % 256);
}

#[test]
fn spike_becomes_candidate_after_warm_up() {
    let mut g = SignatureGenerator::new(192000);
    let quiet = vec![floor_key(); SPECTRUM_BINS];
    let loud = 1000.0f32.to_bits();
    let mut spike = quiet.clone();
    spike[100] = loud;
    let t = 50usize;
    let mut found = Vec::new();
    for pass in 0..t + 100 {
        let spectrum = if pass == t { &spike } else { &quiet };
        let c = g.process_spectrum(spectrum);
        if !c.is_empty() {
            found.push((pass, c));
        }
    }
    assert_eq!(found.len(), 1);
    let (pass, c) = &found[0];
    assert_eq!(*pass, t + 45);
    assert_eq!(
        c,
        &vec![PeakCandidate { bin: 100, before: floor_key(), at: loud, after: floor_key() }]
    );
}

#[test]
fn spread_keeps_three_bin_maximum() {
    let mut g = SignatureGenerator::new(0);
    let mut spectrum = vec![floor_key(); SPECTRUM_BINS];
    let k1 = 1.0f32.to_bits();
    let k2 = 2.0f32.to_bits();
    spectrum[500] = k1;
    spectrum[1024] = k2;
    g.process_spectrum(&spectrum);
    let row = &g.spread_fft_outputs[0..SPECTRUM_BINS];
    assert_eq!(row[497], floor_key());
    assert_eq!(row[498], k1);
    assert_eq!(row[500], k1);
    assert_eq!(row[501], floor_key());
    assert_eq!(row[1024], k2);
    assert_eq!(row[1022], k2);
    assert_eq!(row[1021], floor_key());
    // merged into the slots 1, 3 and 6 passes back
    for back in [1usize, 3, 6] {
        let slot = 256 - back;
        assert_eq!(g.spread_fft_outputs[slot * SPECTRUM_BINS + 500], k1);
    }
    assert_eq!(g.spread_fft_outputs[254 * SPECTRUM_BINS + 500], 0);
}

#[test]
fn recorded_peak_goes_to_its_band() {
    let mut g = SignatureGenerator::new(192000);
    let quiet = vec![floor_key(); SPECTRUM_BINS];
    for _ in 0..50 {
        g.process_spectrum(&quiet);
    }
    assert_eq!(g.record_peak(128, 0, 7000), Some(FrequencyBand::_520_1450));
    assert_eq!(g.record_peak(20, 5, 7000), None);
    assert_eq!(g.record_peak(300, 10, 7100), Some(FrequencyBand::_1450_3500));
    let fp = g.into_fingerprint();
    let band1 = fp.peaks(FrequencyBand::_520_1450);
    assert_eq!(band1.len(), 1);
    assert_eq!(band1[0].fft_pass_number, 4);
    assert_eq!(band1[0].corrected_peak_frequency_bin, 8192);
    assert_eq!(fp.peaks(FrequencyBand::_1450_3500)[0].corrected_peak_frequency_bin, 19210);
    assert_eq!(fp.peak_count(), 2);
}

#[test]
fn silent_excerpt_has_no_peaks() {
    let samples = vec![0i16; 192000];
    let fp = analyse(&samples);
    for band in BANDS {
        assert!(fp.peaks(band).is_empty());
    }
    let buf = fp.encode_to_binary().unwrap();
    assert_eq!(buf.len(), 56);
    assert_eq!(
        u32::from_le_bytes([buf[4], buf[5], buf[6], buf[7]]),
        crc32fast::hash(&buf[8..])
    );
}

#[test]
fn impulse_gives_at_most_one_peak_per_band() {
    let mut samples = vec![0i16; 192000];
    samples[0] = 32767;
    let fp = analyse(&samples);
    for band in BANDS {
        assert!(fp.peaks(band).len() <= 1);
    }
    assert!(fp.encode_to_binary().is_ok());
}

#[test]
fn steady_sine_has_no_strict_time_maximum() {
    // A 1 kHz tone is exactly 8 periods per hop, so every full window has the
    // same spectrum and no bin is strictly above its time neighbours.
    let samples: Vec<i16> = (0..192000)
        .map(|n| (10000.0 * (2.0 * std::f64::consts::PI * 1000.0 * n as f64 / 16000.0).sin()) as i16)
        .collect();
    let fp = analyse(&samples);
    assert_eq!(fp.peaks(FrequencyBand::_520_1450).len(), 0);
    assert!(fp.encode_to_binary().is_ok());
}

#[test]
fn sine_bursts_peak_in_second_band() {
    let samples: Vec<i16> = (0..192000)
        .map(|n| {
            if n % 4000 < 1000 {
                (10000.0 * (2.0 * std::f64::consts::PI * 1000.0 * n as f64 / 16000.0).sin()) as i16
            } else {
                0
            }
        })
        .collect();
    let fp = analyse(&samples);
    let band1 = fp.peaks(FrequencyBand::_520_1450);
    let counts: Vec<usize> = BANDS.iter().map(|b| fp.peaks(*b).len()).collect();
    println!("peaks per band: {:?}", counts);
    assert!(!band1.is_empty());
    let near = band1
        .iter()
        .filter(|p| (p.corrected_peak_frequency_bin as i32 - 8192).abs() <= 64)
        .count();
    assert!(near * 2 > band1.len());
    assert!(fp.encode_to_binary().is_ok());
}

#[test]
fn peaks_stay_in_range_and_magnitudes_fit() {
    let samples: Vec<i16> = (0..192000u32)
        .map(|n| if (n / 37) % 2 == 0 { 32767 } else { -32768 })
        .collect();
    let fp = analyse(&samples);
    for band in BANDS {
        for p in fp.peaks(band) {
            let hz = p.corrected_peak_frequency_bin as f64 * 0.1220703125;
            assert!((250.0..5501.0).contains(&hz));
        }
    }
    assert!(MIN_PEAK_KEY == (1.0f32 / 64.0).to_bits());
    let (_, loudest) = refine(&PeakCandidate { bin: 500, before: 1.0f32.to_bits(), at: f32::MAX.to_bits(), after: 1.0f32.to_bits() }).unwrap();
    assert!(loudest >= 6144);
}
