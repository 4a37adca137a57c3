use audio_latency::config::{
    AudioCriteria, CorrelationConfig, MeasurementConfig, MetadataExtraction, ProtocolType,
    SignatureRules, VadMode,
};
use audio_latency::correlation_store::CorrelationStore;
use audio_latency::dissemination::BroadcastChannel;
use audio_latency::matcher::{compute_latency_ns, match_candidate};
use audio_latency::signature_detector::SignatureDetector;

fn config(sampling_rate: u32, threshold_permille: u32) -> MeasurementConfig {
    MeasurementConfig {
        name: String::from("edge_latency"),
        enabled: true,
        signature_rules: SignatureRules {
            stream_filter: String::from("port==15000"),
            audio_criteria: AudioCriteria {
                min_duration_ms: 0,
                energy_threshold_permille: threshold_permille,
                vad_mode: VadMode::Energy,
                frequency_range: None,
            },
            sampling_rate,
        },
        metadata_extraction: MetadataExtraction {
            header_offset: 0,
            id_patterns: Vec::new(),
            protocol: ProtocolType::RTP,
        },
        correlation: CorrelationConfig {
            signature_ttl_seconds: 60,
            max_active_signatures: 100,
            grouping_key: String::from("interval_id"),
        },
    }
}

fn constant_chunk(sample: i16, n: usize) -> Vec<u8> {
    let b = sample.to_le_bytes();
    let mut out = Vec::new();
    for _ in 0..n {
        out.push(b[0]);
        out.push(b[1]);
    }
    out
}

#[test]
fn sampling_skips_off_boundary_packets() {
    // Rate 5 over packets 1..10: only packets 5 and 10 are analyzed; the
    // others are skipped entirely, neither buffered nor analyzed.
    let mut d = SignatureDetector::new(config(5, 50));
    let loud = constant_chunk(6554, 50);
    let mut events = 0;
    for i in 1..=10u64 {
        let r = d.process_packet(&loud, i);
        if i % 5 == 0 {
            assert!(r.is_some(), "packet {} lands on the boundary", i);
            events += 1;
        } else {
            assert!(r.is_none(), "packet {} is skipped", i);
        }
    }
    assert_eq!(events, 2);
    assert_eq!(d.audio_buffer.len(), 2);
}

#[test]
fn end_to_end_detect_disseminate_match() {
    // Detector samples packets 1..10 at rate 5. Packet 5's window has RMS
    // 0.02, under the 0.05 threshold: no event. Packet 10's window is loud
    // enough: an event with the fingerprint of the two buffered chunks. The
    // store receives it at its origin time; a matcher at another vantage
    // point recomputes the same hash from its own copy of the window 80 ms
    // later and reports a latency of 80 ms.
    let mut d = SignatureDetector::new(config(5, 50));
    let quiet = constant_chunk(655, 50);
    let loud = constant_chunk(6554, 50);

    let mut emitted = None;
    for i in 1..=10u64 {
        let payload = if i <= 5 { &quiet } else { &loud };
        let r = d.process_packet(payload, 0);
        if i == 5 {
            assert!(r.is_none(), "a quiet window emits nothing");
        }
        if i == 10 {
            emitted = r;
        }
    }
    let event = emitted.expect("the loud window emits a signature");
    assert_eq!(event.signature.duration_ms, 40);
    assert_eq!(event.measurement_name, "edge_latency");

    // Disseminate and ingest at the second vantage point.
    let mut channel = BroadcastChannel::new(1000);
    let mut sub = channel.subscribe();
    channel.publish(event);
    let (received, skipped) = channel.recv(&mut sub);
    let received = received.expect("the subscriber sees the event").clone();
    assert_eq!(skipped, 0);
    let mut store = CorrelationStore::new(&config(5, 50).correlation);
    store.insert(received, 0);

    // The matcher recomputes the fingerprint from its own observed window.
    let observed_window = vec![quiet.clone(), loud.clone()];
    let obs = match_candidate(
        &mut store,
        &observed_window,
        80_000_000,
        &String::from("relay-1"),
        &String::from("interval_id"),
    )
    .expect("the recomputed fingerprint matches");
    assert_eq!(obs.latency_ns, 80_000_000);
    assert_eq!(obs.measurement_name, "edge_latency");
    assert_eq!(obs.observer, "relay-1");
    assert_eq!(obs.grouping_value, "unknown");
    assert!(!obs.clock_skew_flagged);
    assert_eq!(obs.latency_ns, compute_latency_ns(80_000_000, 0).0);

    // The signature was claimed: a second observer cannot match it again.
    assert!(match_candidate(
        &mut store,
        &observed_window,
        90_000_000,
        &String::from("relay-2"),
        &String::from("interval_id"),
    )
    .is_none());
}

#[test]
fn negative_latency_clamped_and_flagged() {
    let (lat, flagged) = compute_latency_ns(100, 250);
    assert_eq!(lat, 0);
    assert!(flagged);
    let (lat, flagged) = compute_latency_ns(250, 100);
    assert_eq!(lat, 150);
    assert!(!flagged);
}

#[test]
fn window_capacity_evicts_oldest() {
    let mut d = SignatureDetector::new(config(1, 1000));
    let chunk = constant_chunk(1, 4);
    for i in 1..=60u64 {
        d.process_packet(&chunk, i);
    }
    assert_eq!(d.audio_buffer.len(), 50);
}

#[test]
fn lagging_subscriber_skips_forward() {
    let mut channel = BroadcastChannel::new(2);
    let mut sub = channel.subscribe();
    let mut d = SignatureDetector::new(config(1, 0));
    // Three events through a two-slot channel: the subscriber misses the
    // first and is told how many it skipped.
    let loud = constant_chunk(6554, 10);
    for i in 1..=3u64 {
        let ev = d.process_packet(&loud, i).expect("every packet is worthy");
        channel.publish(ev);
    }
    let (first, skipped) = channel.recv(&mut sub);
    assert_eq!(skipped, 1);
    assert_eq!(first.unwrap().timestamp_ns, 2);
    let (second, skipped) = channel.recv(&mut sub);
    assert_eq!(skipped, 0);
    assert_eq!(second.unwrap().timestamp_ns, 3);
    let (none, skipped) = channel.recv(&mut sub);
    assert!(none.is_none());
    assert_eq!(skipped, 0);
}
