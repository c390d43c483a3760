use audio_fingerprint::band::{band_of_bin, bin_to_hz, FrequencyBand};
use audio_fingerprint::excerpt::{excerpt_ranges, EXCERPT_SAMPLES};

#[test]
fn bin_to_hz_truncates() {
    assert_eq!(bin_to_hz(8192), 1000);
    assert_eq!(bin_to_hz(2048), 250);
    assert_eq!(bin_to_hz(2047), 249);
    assert_eq!(bin_to_hz(65535), 7999);
}

#[test]
fn band_edges() {
    assert_eq!(band_of_bin(2047), None);
    assert_eq!(band_of_bin(2048), Some(FrequencyBand::_250_520));
    assert_eq!(band_of_bin(4259), Some(FrequencyBand::_250_520));
    assert_eq!(band_of_bin(4260), Some(FrequencyBand::_520_1450));
    assert_eq!(band_of_bin(8192), Some(FrequencyBand::_520_1450));
    assert_eq!(band_of_bin(11878), Some(FrequencyBand::_520_1450));
    assert_eq!(band_of_bin(11879), Some(FrequencyBand::_1450_3500));
    assert_eq!(band_of_bin(28672), Some(FrequencyBand::_3500_5500));
    assert_eq!(band_of_bin(45064), Some(FrequencyBand::_3500_5500));
    assert_eq!(band_of_bin(45065), None);
}

#[test]
fn band_ordinals_and_order() {
    assert_eq!(FrequencyBand::_250_520.ordinal(), 0);
    assert_eq!(FrequencyBand::_3500_5500.ordinal(), 3);
    assert_eq!(FrequencyBand::from_ordinal(2), Some(FrequencyBand::_1450_3500));
    assert_eq!(FrequencyBand::from_ordinal(4), None);
    assert!(FrequencyBand::_250_520 < FrequencyBand::_520_1450);
    assert!(FrequencyBand::_1450_3500 < FrequencyBand::_3500_5500);
    assert_eq!(FrequencyBand::_520_1450.low_hz(), 520);
    assert_eq!(FrequencyBand::_520_1450.high_hz(), 1449);
}

#[test]
fn excerpts_of_a_buffer() {
    assert_eq!(excerpt_ranges(100, 0, 40), vec![(0, 40), (40, 80), (80, 100)]);
    assert_eq!(excerpt_ranges(100, 30, 40), vec![(30, 70), (70, 100)]);
    assert_eq!(excerpt_ranges(100, 100, 40), vec![(100, 100)]);
    assert_eq!(excerpt_ranges(40, 0, 40), vec![(0, 40)]);
    assert_eq!(excerpt_ranges(EXCERPT_SAMPLES * 2, 0, EXCERPT_SAMPLES).len(), 2);
}
