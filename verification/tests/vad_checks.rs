use audio_latency::vad::{
    check_energy_threshold, check_spectral_features, check_zero_crossing_rate, is_signature_worthy,
    run_ml_vad,
};
use audio_latency::config::{AudioCriteria, VadMode};

/// A chunk of `n` copies of one 16-bit sample, little-endian.
fn constant_chunk(sample: i16, n: usize) -> Vec<u8> {
    let b = sample.to_le_bytes();
    let mut out = Vec::new();
    for _ in 0..n {
        out.push(b[0]);
        out.push(b[1]);
    }
    out
}

#[test]
fn energy_check_boundary_inclusive() {
    // Amplitude 16384 is exactly half of full scale: RMS 0.5. At threshold
    // 500 permille the boundary is included, so the check fires.
    let window = vec![constant_chunk(16384, 10)];
    assert!(check_energy_threshold(&window, 500));
}

#[test]
fn energy_check_below_threshold_not_worthy() {
    // Amplitude 16383 puts the RMS just under 0.5.
    let window = vec![constant_chunk(16383, 10)];
    assert!(!check_energy_threshold(&window, 500));
}

#[test]
fn energy_check_above_threshold_worthy() {
    let window = vec![constant_chunk(16385, 10)];
    assert!(check_energy_threshold(&window, 500));
}

#[test]
fn energy_check_empty_window_not_worthy() {
    let window: Vec<Vec<u8>> = Vec::new();
    assert!(!check_energy_threshold(&window, 0));
    let empty_chunks = vec![Vec::new(), Vec::new()];
    assert!(!check_energy_threshold(&empty_chunks, 0));
}

#[test]
fn energy_check_spans_chunks() {
    // Same samples split over several chunks give the same decision.
    let one = vec![constant_chunk(16384, 30)];
    let three = vec![
        constant_chunk(16384, 10),
        constant_chunk(16384, 10),
        constant_chunk(16384, 10),
    ];
    assert_eq!(
        check_energy_threshold(&one, 500),
        check_energy_threshold(&three, 500)
    );
}

/// A chunk alternating between +1 and -1, `n` samples.
fn alternating_chunk(n: usize) -> Vec<u8> {
    let mut out = Vec::new();
    for i in 0..n {
        let s: i16 = if i % 2 == 0 { 1 } else { -1 };
        let b = s.to_le_bytes();
        out.push(b[0]);
        out.push(b[1]);
    }
    out
}

#[test]
fn zero_crossing_check_over_fifty_worthy() {
    // 52 alternating samples make 51 sign changes: over the fixed 50.
    let window = vec![alternating_chunk(52)];
    assert!(check_zero_crossing_rate(&window));
}

#[test]
fn zero_crossing_check_exactly_fifty_not_worthy() {
    // 51 alternating samples make exactly 50 sign changes: not over 50.
    let window = vec![alternating_chunk(51)];
    assert!(!check_zero_crossing_rate(&window));
}

#[test]
fn zero_crossing_zero_sample_carries_sign() {
    // +1, 0, -1 is one crossing: the zero has no sign of its own.
    let mut chunk = Vec::new();
    for s in [1i16, 0, -1] {
        let b = s.to_le_bytes();
        chunk.push(b[0]);
        chunk.push(b[1]);
    }
    let window = vec![chunk];
    // One crossing is far under the threshold.
    assert!(!check_zero_crossing_rate(&window));
}

#[test]
fn spectral_and_ml_never_worthy() {
    let window = vec![constant_chunk(16384, 100)];
    assert!(!check_spectral_features(&window));
    assert!(!run_ml_vad(&window, &String::from("model.onnx")));
}

#[test]
fn vad_dispatch_follows_mode() {
    let window = vec![constant_chunk(16384, 10)];
    let energy = AudioCriteria {
        min_duration_ms: 0,
        energy_threshold_permille: 500,
        vad_mode: VadMode::Energy,
        frequency_range: None,
    };
    assert!(is_signature_worthy(&window, &energy));
    let spectral = AudioCriteria {
        min_duration_ms: 0,
        energy_threshold_permille: 500,
        vad_mode: VadMode::Spectral,
        frequency_range: None,
    };
    assert!(!is_signature_worthy(&window, &spectral));
}
