use audio_latency::config::CorrelationConfig;
use audio_latency::correlation_store::CorrelationStore;
use audio_latency::metadata::PacketMetadata;
use audio_latency::signature_detector::{AudioSignature, SignatureEvent};

fn event(hash: u64, timestamp_ns: u64) -> SignatureEvent {
    SignatureEvent {
        signature: AudioSignature { hash, duration_ms: 100 },
        metadata: PacketMetadata { ids: Vec::new() },
        timestamp_ns,
        measurement_name: String::from("m"),
    }
}

fn store(max: usize, ttl_seconds: u64) -> CorrelationStore {
    CorrelationStore::new(&CorrelationConfig {
        signature_ttl_seconds: ttl_seconds,
        max_active_signatures: max,
        grouping_key: String::from("interval_id"),
    })
}

#[test]
fn at_most_once_match() {
    // Two claims of the same hash: exactly one succeeds, and the store ends
    // with no entry for that hash.
    let mut s = store(10, 60);
    s.insert(event(42, 0), 0);
    let first = s.try_match(42);
    let second = s.try_match(42);
    assert!(first.is_some());
    assert!(second.is_none());
    assert_eq!(s.len(), 0);
}

#[test]
fn eviction_keeps_cap_and_drops_oldest() {
    // max + 1 inserts leave exactly max entries, the oldest gone.
    let mut s = store(3, 60);
    s.insert(event(1, 0), 0);
    s.insert(event(2, 1), 1);
    s.insert(event(3, 2), 2);
    s.insert(event(4, 3), 3);
    assert_eq!(s.len(), 3);
    assert!(s.try_match(1).is_none());
    assert!(s.try_match(2).is_some());
    assert!(s.try_match(3).is_some());
    assert!(s.try_match(4).is_some());
}

#[test]
fn eviction_scenario_two_slots() {
    // Capacity 2; A at t=0, B at t=1, C at t=2: the store retains B and C,
    // and A is no longer matchable.
    let mut s = store(2, 60);
    let a = 0xA;
    let b = 0xB;
    let c = 0xC;
    s.insert(event(a, 0), 0);
    s.insert(event(b, 1), 1);
    s.insert(event(c, 2), 2);
    assert_eq!(s.len(), 2);
    assert!(s.try_match(a).is_none());
    assert!(s.try_match(b).is_some());
    assert!(s.try_match(c).is_some());
}

#[test]
fn ttl_sweep_boundary() {
    // Inserted at T, gone at any sweep at or after T + ttl, present before.
    let ttl_seconds = 10;
    let t_ns: u64 = 5_000_000_000;
    let mut s = store(10, ttl_seconds);
    s.insert(event(7, t_ns), t_ns);
    s.sweep(t_ns + 9_999_999_999);
    assert_eq!(s.len(), 1);
    s.sweep(t_ns + 10_000_000_000);
    assert_eq!(s.len(), 0);
    assert!(s.try_match(7).is_none());
}

#[test]
fn sweep_keeps_unexpired_in_order() {
    let mut s = store(10, 10);
    s.insert(event(1, 0), 0);
    s.insert(event(2, 9_000_000_000), 9_000_000_000);
    s.sweep(10_000_000_000);
    assert_eq!(s.len(), 1);
    assert!(s.try_match(1).is_none());
    assert!(s.try_match(2).is_some());
}

#[test]
fn colliding_insert_overwrites() {
    // A second insert of the same hash replaces the stored event; the store
    // still holds a single entry for that hash.
    let mut s = store(10, 60);
    s.insert(event(5, 100), 100);
    s.insert(event(5, 200), 200);
    assert_eq!(s.len(), 1);
    let got = s.try_match(5).expect("hash should be stored");
    assert_eq!(got.timestamp_ns, 200);
    assert!(s.try_match(5).is_none());
}

#[test]
fn match_absent_hash_is_silent() {
    let mut s = store(10, 60);
    assert!(s.try_match(999).is_none());
    assert_eq!(s.len(), 0);
}
