use audio_latency::samples::chunk_energy;
use audio_latency::signature_detector::generate_signature;

fn chunk_from(samples: &[i16]) -> Vec<u8> {
    let mut out = Vec::new();
    for s in samples {
        let b = s.to_le_bytes();
        out.push(b[0]);
        out.push(b[1]);
    }
    out
}

#[test]
fn chunk_energy_is_mean_magnitude() {
    assert_eq!(chunk_energy(&chunk_from(&[100, 200])), 150);
    assert_eq!(chunk_energy(&chunk_from(&[-100, 200])), 150);
    assert_eq!(chunk_energy(&chunk_from(&[i16::MIN])), 32768);
    assert_eq!(chunk_energy(&Vec::new()), 0);
    // A trailing odd byte is ignored.
    assert_eq!(chunk_energy(&vec![100, 0, 7]), 100);
}

#[test]
fn fingerprint_deterministic() {
    // Hashing the same ordered chunks twice yields the same hash.
    let window = vec![chunk_from(&[100, 200, -300]), chunk_from(&[5000, -5000])];
    let again = vec![chunk_from(&[100, 200, -300]), chunk_from(&[5000, -5000])];
    let s1 = generate_signature(&window);
    let s2 = generate_signature(&again);
    assert_eq!(s1.hash, s2.hash);
    assert_eq!(s1.duration_ms, s2.duration_ms);
}

#[test]
fn fingerprint_order_matters() {
    let a = vec![chunk_from(&[100]), chunk_from(&[200])];
    let b = vec![chunk_from(&[200]), chunk_from(&[100])];
    assert_ne!(generate_signature(&a).hash, generate_signature(&b).hash);
}

#[test]
fn fingerprint_is_xxh3_of_energy_profile() {
    // The hash is xxh3 over the per-chunk mean magnitudes, each encoded as
    // 32 little-endian bits, in window order.
    let window = vec![chunk_from(&[100, 200]), chunk_from(&[-400])];
    let mut bytes: Vec<u8> = Vec::new();
    bytes.extend_from_slice(&150u32.to_le_bytes());
    bytes.extend_from_slice(&400u32.to_le_bytes());
    let expected = xxhash_rust::xxh3::xxh3_64(&bytes);
    assert_eq!(generate_signature(&window).hash, expected);
}

#[test]
fn duration_is_twenty_ms_per_chunk() {
    let window = vec![chunk_from(&[1]), chunk_from(&[2]), chunk_from(&[3])];
    assert_eq!(generate_signature(&window).duration_ms, 60);
}
