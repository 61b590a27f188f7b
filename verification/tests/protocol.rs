use bas2wav::encode::{
    bit, byte, checksum, encode, first_segment, frame, metadata_payload, second_segment,
    segment_footer, segment_header, sync_bit, EncodeError, LoadMode,
};
use bas2wav::sound::{cycle, half_cycle, silence, tone, HalfCycle, Waveform, WaveformError};
use bas2wav::STANDARD_RATE;

const RATE: u32 = STANDARD_RATE;

/// One period of a sine wave at the standard rate, scaled to three quarters
/// of the positive 8-bit range and truncated toward zero.
fn sine_table(rate: u32) -> Vec<i8> {
    let amplitude = i8::MAX as f64 * 3.0 / 4.0;
    let mut table = Vec::with_capacity(rate as usize);
    for k in 0..rate {
        let phase = k as f64 / rate as f64;
        let value = (phase * 2.0 * std::f64::consts::PI).sin() * amplitude;
        table.push(value as i8);
    }
    table
}

fn standard_waveform() -> Waveform {
    match Waveform::new(RATE, sine_table(RATE)) {
        Ok(w) => w,
        Err(_) => panic!("the standard configuration must be accepted"),
    }
}

#[test]
fn cycle_emits_rate_over_freq_samples() {
    let w = standard_waveform();
    for freq in [770u32, 1000, 2000, 2500, 11025] {
        let mut out = Vec::new();
        cycle(&w, freq, &mut out);
        assert_eq!(out.len(), (RATE / freq) as usize);
    }
}

#[test]
fn half_cycle_emits_half_the_samples() {
    let w = standard_waveform();
    for freq in [770u32, 1000, 2000, 2500] {
        let mut out = Vec::new();
        half_cycle(&w, freq, HalfCycle::High, &mut out);
        assert_eq!(out.len(), (RATE / freq / 2) as usize);
    }
}

#[test]
fn half_cycle_low_negates_every_sample() {
    let w = standard_waveform();
    let mut high = Vec::new();
    let mut low = Vec::new();
    half_cycle(&w, 770, HalfCycle::High, &mut high);
    half_cycle(&w, 770, HalfCycle::Low, &mut low);
    assert_eq!(high.len(), low.len());
    for (h, l) in high.iter().zip(low.iter()) {
        assert_eq!(*h as i16, -(*l as i16));
    }
    assert!(high.iter().any(|s| *s != 0));
}

#[test]
fn tone_emits_duration_times_rate_samples() {
    let w = standard_waveform();
    let mut out = Vec::new();
    tone(&w, 770, 4000, &mut out);
    assert_eq!(out.len(), 4 * RATE as usize);
}

#[test]
fn silence_emits_only_zeroes() {
    let w = standard_waveform();
    let mut out = Vec::new();
    silence(&w, 100, &mut out);
    // floor(0.1 * 11025) whole samples.
    assert_eq!(out.len(), 1102);
    assert!(out.iter().all(|s| *s == 0));
}

#[test]
fn samples_match_the_sine_formula() {
    let w = standard_waveform();
    let amplitude = i8::MAX as f64 * 3.0 / 4.0;
    for freq in [770u32, 1000, 2000, 2500] {
        let mut out = Vec::new();
        cycle(&w, freq, &mut out);
        for (i, sample) in out.iter().enumerate() {
            let time = i as f64 / RATE as f64;
            let expected = ((time * freq as f64 * 2.0 * std::f64::consts::PI).sin() * amplitude)
                as i8;
            assert_eq!(*sample, expected);
        }
    }
}

#[test]
fn every_sample_stays_within_range() {
    let w = standard_waveform();
    let program: Vec<u8> = (0..=255u8).collect();
    let samples = encode(&w, &program, LoadMode::LoadOnly).unwrap();
    assert!(samples.iter().all(|s| -96 <= *s && *s <= 96));
}

#[test]
fn metadata_checksum_xors_to_zero() {
    for len in [1usize, 2, 255, 256, 257, 65535, 65536] {
        for mode in [LoadMode::LoadOnly, LoadMode::LoadAndRun] {
            let p = metadata_payload(len, mode).unwrap();
            assert_eq!(p.len(), 4);
            assert_eq!(0xFFu8 ^ p[0] ^ p[1] ^ p[2] ^ p[3], 0);
        }
    }
}

#[test]
fn program_checksum_xors_to_zero() {
    let programs: Vec<Vec<u8>> = vec![
        vec![0x00],
        vec![0x01, 0x02],
        vec![0xFF, 0xFF, 0xFF],
        (0..=255u8).collect(),
    ];
    for program in programs {
        let cks = checksum(&program);
        let xor_all = program.iter().fold(0u8, |acc, b| acc ^ b);
        assert_eq!(0xFFu8 ^ xor_all ^ cks, 0);
    }
}

#[test]
fn checksum_of_known_bytes() {
    assert_eq!(checksum(&vec![0x00]), 0xFF);
    assert_eq!(checksum(&vec![0x01, 0x02]), 0xFF ^ 0x01 ^ 0x02);
}

#[test]
fn metadata_encodes_length_minus_one_little_endian() {
    let p = metadata_payload(1, LoadMode::LoadOnly).unwrap();
    assert_eq!(p, vec![0x00, 0x00, 0x55, 0xAA]);
    let p = metadata_payload(258, LoadMode::LoadOnly).unwrap();
    assert_eq!(p[0], 0x01);
    assert_eq!(p[1], 0x01);
    let p = metadata_payload(65536, LoadMode::LoadOnly).unwrap();
    assert_eq!(p[0], 0xFF);
    assert_eq!(p[1], 0xFF);
}

#[test]
fn default_mode_only_loads() {
    assert_eq!(LoadMode::default(), LoadMode::LoadOnly);
}

#[test]
fn load_and_run_flag_byte() {
    let p = metadata_payload(1, LoadMode::LoadAndRun).unwrap();
    assert_eq!(p, vec![0x00, 0x00, 0xD5, 0xFF ^ 0xD5]);
}

#[test]
fn zero_length_is_rejected() {
    assert_eq!(
        metadata_payload(0, LoadMode::LoadOnly),
        Err(EncodeError::LengthZero)
    );
    let w = standard_waveform();
    assert_eq!(
        encode(&w, &Vec::new(), LoadMode::LoadOnly),
        Err(EncodeError::LengthZero)
    );
}

#[test]
fn oversized_length_is_rejected_and_maximum_accepted() {
    assert_eq!(
        metadata_payload(65537, LoadMode::LoadOnly),
        Err(EncodeError::LengthTooLarge)
    );
    let w = standard_waveform();
    let too_long = vec![0u8; 65537];
    assert_eq!(
        encode(&w, &too_long, LoadMode::LoadOnly),
        Err(EncodeError::LengthTooLarge)
    );
    let max = vec![0u8; 65536];
    assert!(encode(&w, &max, LoadMode::LoadOnly).is_ok());
}

#[test]
fn byte_is_eight_bits_most_significant_first() {
    let w = standard_waveform();
    let mut from_byte = Vec::new();
    byte(&w, 0xA5, &mut from_byte);
    let mut from_bits = Vec::new();
    for value in [true, false, true, false, false, true, false, true] {
        bit(&w, value, &mut from_bits);
    }
    assert_eq!(from_byte, from_bits);
}

#[test]
fn frame_is_header_payload_footer() {
    let w = standard_waveform();
    let mut framed = Vec::new();
    frame(&w, &vec![0xA5, 0x3C], &mut framed);
    let mut manual = Vec::new();
    segment_header(&w, &mut manual);
    byte(&w, 0xA5, &mut manual);
    byte(&w, 0x3C, &mut manual);
    segment_footer(&w, &mut manual);
    assert_eq!(framed, manual);
}

#[test]
fn header_is_leader_tone_then_sync_marker() {
    let w = standard_waveform();
    let mut header = Vec::new();
    segment_header(&w, &mut header);
    let mut manual = Vec::new();
    tone(&w, 770, 4000, &mut manual);
    sync_bit(&w, &mut manual);
    assert_eq!(header, manual);
}

#[test]
fn encode_scenario_single_zero_byte() {
    let w = standard_waveform();
    let samples = encode(&w, &vec![0x00], LoadMode::LoadOnly).unwrap();
    let mut expected = Vec::new();
    // Metadata: length 1, so a zero length field; checksum 0xFF^0^0^0x55.
    frame(&w, &vec![0x00, 0x00, 0x55, 0xAA], &mut expected);
    // Program: the byte, then checksum 0xFF^0x00.
    frame(&w, &vec![0x00, 0xFF], &mut expected);
    silence(&w, 100, &mut expected);
    assert_eq!(samples, expected);
}

#[test]
fn encode_scenario_two_bytes() {
    let w = standard_waveform();
    let samples = encode(&w, &vec![0x01, 0x02], LoadMode::LoadOnly).unwrap();
    let mut expected = Vec::new();
    // Metadata: length 2 encodes as 0x0001 little-endian.
    frame(
        &w,
        &vec![0x01, 0x00, 0x55, 0xFF ^ 0x01 ^ 0x00 ^ 0x55],
        &mut expected,
    );
    frame(&w, &vec![0x01, 0x02, 0xFF ^ 0x01 ^ 0x02], &mut expected);
    silence(&w, 100, &mut expected);
    assert_eq!(samples, expected);
}

#[test]
fn first_and_second_segment_match_framed_payloads() {
    let w = standard_waveform();
    let mut first = Vec::new();
    assert!(first_segment(&w, 1, LoadMode::LoadOnly, &mut first).is_ok());
    let mut expected = Vec::new();
    frame(&w, &vec![0x00, 0x00, 0x55, 0xAA], &mut expected);
    assert_eq!(first, expected);

    let mut second = Vec::new();
    second_segment(&w, &vec![0x00], &mut second);
    let mut expected = Vec::new();
    frame(&w, &vec![0x00, 0xFF], &mut expected);
    assert_eq!(second, expected);
}

#[test]
fn first_segment_emits_nothing_on_rejection() {
    let w = standard_waveform();
    let mut out = Vec::new();
    assert_eq!(
        first_segment(&w, 0, LoadMode::LoadOnly, &mut out),
        Err(EncodeError::LengthZero)
    );
    assert!(out.is_empty());
    assert_eq!(
        first_segment(&w, 65537, LoadMode::LoadOnly, &mut out),
        Err(EncodeError::LengthTooLarge)
    );
    assert!(out.is_empty());
}

#[test]
fn sync_marker_duration_differs_from_data_bits() {
    let w = standard_waveform();
    let mut sync_high = Vec::new();
    half_cycle(&w, 2500, HalfCycle::High, &mut sync_high);
    let mut sync_low = Vec::new();
    half_cycle(&w, 2000, HalfCycle::Low, &mut sync_low);
    let mut one = Vec::new();
    cycle(&w, 1000, &mut one);
    let mut zero = Vec::new();
    cycle(&w, 2000, &mut zero);
    for sync_len in [sync_high.len(), sync_low.len()] {
        assert_ne!(sync_len, one.len());
        assert_ne!(sync_len, zero.len());
    }
}

#[test]
fn waveform_rejects_bad_configurations() {
    assert!(matches!(
        Waveform::new(0, Vec::new()),
        Err(WaveformError::RateZero)
    ));
    assert!(matches!(
        Waveform::new(3, vec![0, 0]),
        Err(WaveformError::TableLengthMismatch)
    ));
    assert!(matches!(
        Waveform::new(2, vec![0, 127]),
        Err(WaveformError::SampleOutOfRange)
    ));
    assert!(matches!(
        Waveform::new(2, vec![-97, 0]),
        Err(WaveformError::SampleOutOfRange)
    ));
    assert!(Waveform::new(2, vec![-96, 96]).is_ok());
}
