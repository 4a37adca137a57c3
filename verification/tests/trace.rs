use audio_latency::bpftrace_reader::BpftraceReader;
use audio_latency::ebpf_processor::EbpfProcessor;

#[test]
fn bpftrace_parses_five_field_line() {
    let r = BpftraceReader::new("trace.csv");
    let t = r
        .parse_trace_line(b"123456789,8000,9000,intv-1,7")
        .expect("a well-formed line parses");
    assert_eq!(t.timestamp_ns, 123456789);
    assert_eq!(t.src_port, 8000);
    assert_eq!(t.dst_port, 9000);
    assert_eq!(t.interval_id, "intv-1");
    assert_eq!(t.position, 7);
}

#[test]
fn bpftrace_rejects_malformed_lines() {
    let r = BpftraceReader::new("trace.csv");
    assert!(r.parse_trace_line(b"1,2,3,too-few").is_none());
    assert!(r.parse_trace_line(b"notanumber,8000,8001,x,1").is_none());
    assert!(r.parse_trace_line(b"1,99999,8001,x,1").is_none());
    assert!(r.parse_trace_line(b"").is_none());
}

#[test]
fn bpftrace_average_latency_per_interval() {
    let mut r = BpftraceReader::new("trace.csv");
    // Source sighting fixes the interval's start; relay sightings record.
    r.process_line(b"1000,8000,1,a,0");
    r.process_line(b"1400,1,8001,a,1");
    r.process_line(b"1600,1,8001,a,2");
    // A second interval with one measurement.
    r.process_line(b"2000,8000,1,b,0");
    r.process_line(b"2100,1,8001,b,1");
    // A relay sighting of an unknown interval records nothing.
    r.process_line(b"9999,1,8001,ghost,0");
    let stats = r.get_latency_stats();
    assert_eq!(stats.len(), 2);
    assert_eq!(stats[0], (String::from("a"), 500));
    assert_eq!(stats[1], (String::from("b"), 100));
}

#[test]
fn bpftrace_first_sighting_wins() {
    let mut r = BpftraceReader::new("trace.csv");
    r.process_line(b"1000,8000,1,a,0");
    // A later source sighting does not move the start time.
    r.process_line(b"5000,8000,1,a,1");
    r.process_line(b"1500,1,8001,a,2");
    let stats = r.get_latency_stats();
    assert_eq!(stats, vec![(String::from("a"), 500)]);
}

#[test]
fn bpftrace_clock_skew_clamps_to_zero() {
    let mut r = BpftraceReader::new("trace.csv");
    r.process_line(b"1000,8000,1,a,0");
    r.process_line(b"400,1,8001,a,1");
    let stats = r.get_latency_stats();
    assert_eq!(stats, vec![(String::from("a"), 0)]);
}

#[test]
fn ebpf_parses_seven_field_line() {
    let p = EbpfProcessor::new();
    let e = p
        .parse_trace_line(b"42,10.0.0.1,8000,10.0.0.2,8001,intv,3,160")
        .expect("a well-formed line parses");
    assert_eq!(e.timestamp_ns, 42);
    assert_eq!(e.src_ip, "10.0.0.1");
    assert_eq!(e.src_port, 8000);
    assert_eq!(e.dst_ip, "10.0.0.2");
    assert_eq!(e.dst_port, 8001);
    assert_eq!(e.interval_id, "intv");
    assert_eq!(e.position, 3);
}

#[test]
fn ebpf_skips_header_line() {
    let p = EbpfProcessor::new();
    assert!(p
        .parse_trace_line(b"timestamp,src_ip,src_port,dst_ip,dst_port,interval_id,position,packet_len")
        .is_none());
}

#[test]
fn ebpf_statistics_min_avg_max() {
    let mut p = EbpfProcessor::new();
    assert_eq!(p.get_statistics(), (0, 0, 0));
    p.process_line(b"1000,s,8000,d,1,a,0");
    p.process_line(b"1100,s,1,d,8001,a,1");
    p.process_line(b"1500,s,1,d,8001,a,2");
    p.process_line(b"1300,s,1,d,8001,a,3");
    let (min, avg, max) = p.get_statistics();
    assert_eq!(min, 100);
    assert_eq!(avg, 300);
    assert_eq!(max, 500);
    assert_eq!(p.latency_measurements.len(), 3);
    assert_eq!(p.latency_measurements[0].interval_id, "a");
    assert_eq!(p.latency_measurements[0].source_timestamp_ns, 1000);
    assert_eq!(p.latency_measurements[0].relay_timestamp_ns, 1100);
}

#[test]
fn ebpf_same_packet_can_source_and_relay() {
    // One event from the source port to the relay port both fixes the start
    // and records a zero latency against it.
    let mut p = EbpfProcessor::new();
    p.process_line(b"1000,s,8000,d,8001,a,0");
    let (min, avg, max) = p.get_statistics();
    assert_eq!((min, avg, max), (0, 0, 0));
    assert_eq!(p.latency_measurements.len(), 1);
}
