use audio_latency::config::{IdPattern, MetadataExtraction, ProtocolType};
use audio_latency::metadata::{extract, find_bytes, parse_hex_pattern};

fn binary_cfg(pattern: &str, value_offset: i32, value_length: usize) -> MetadataExtraction {
    MetadataExtraction {
        header_offset: 0,
        id_patterns: vec![IdPattern {
            pattern: String::from(pattern),
            id_type: String::from("interval_id"),
            value_offset,
            value_length,
        }],
        protocol: ProtocolType::RTP,
    }
}

#[test]
fn default_metadata_is_empty() {
    let md = audio_latency::metadata::PacketMetadata::default();
    assert_eq!(md.ids.len(), 0);
    assert!(md.get(&String::from("interval_id")).is_none());
}

#[test]
fn parse_hex_pattern_decodes_groups() {
    assert_eq!(parse_hex_pattern(b"\\x41\\x42"), Some(vec![0x41, 0x42]));
    assert_eq!(parse_hex_pattern(b""), Some(Vec::new()));
    assert_eq!(parse_hex_pattern(b"\\x4"), None);
    assert_eq!(parse_hex_pattern(b"\\xZZ"), None);
    assert_eq!(parse_hex_pattern(b"\\x00abc"), None);
}

#[test]
fn find_bytes_first_occurrence() {
    let hay = b"zzABzzABzz";
    assert_eq!(find_bytes(hay, &vec![0x41, 0x42]), Some(2));
    assert_eq!(find_bytes(hay, &vec![0x51]), None);
    assert_eq!(find_bytes(hay, &Vec::new()), Some(0));
}

#[test]
fn binary_extraction_reads_after_match() {
    // Pattern match at index 10, value_offset 4, value_length 8 on a 30-byte
    // payload: the value is payload[14..22] decoded as text.
    let mut payload = vec![b'.'; 30];
    payload[10] = 0x41;
    payload[11] = 0x42;
    for (i, b) in b"SEGMENT1".iter().enumerate() {
        payload[14 + i] = *b;
    }
    let md = extract(&payload, &binary_cfg("\\x41\\x42", 4, 8));
    let got = md.get(&String::from("interval_id")).expect("value expected");
    assert_eq!(got, "SEGMENT1");
}

#[test]
fn binary_extraction_negative_offset() {
    let mut payload = vec![b'.'; 20];
    payload[10] = 0x41;
    payload[11] = 0x42;
    payload[8] = b'o';
    payload[9] = b'k';
    let md = extract(&payload, &binary_cfg("\\x41\\x42", -2, 2));
    assert_eq!(md.get(&String::from("interval_id")).unwrap(), "ok");
}

#[test]
fn binary_extraction_out_of_bounds_yields_nothing() {
    let mut payload = vec![b'.'; 16];
    payload[10] = 0x41;
    payload[11] = 0x42;
    // 10 + 4 + 8 runs past the end: no value, no error.
    let md = extract(&payload, &binary_cfg("\\x41\\x42", 4, 8));
    assert!(md.get(&String::from("interval_id")).is_none());
    // A start before the payload is equally out of bounds.
    let md = extract(&payload, &binary_cfg("\\x41\\x42", -11, 2));
    assert!(md.get(&String::from("interval_id")).is_none());
}

#[test]
fn regex_extraction_takes_group_one() {
    let payload = b"hdr:id=abc123;rest";
    let cfg = MetadataExtraction {
        header_offset: 4,
        id_patterns: vec![IdPattern {
            pattern: String::from("id=([a-z0-9]+)"),
            id_type: String::from("interval_id"),
            value_offset: 0,
            value_length: 0,
        }],
        protocol: ProtocolType::RTP,
    };
    let md = extract(payload, &cfg);
    assert_eq!(md.get(&String::from("interval_id")).unwrap(), "abc123");
}

#[test]
fn regex_extraction_respects_header_offset() {
    // The identifier sits before the header offset, so the envelope text
    // does not contain it.
    let payload = b"id=abc123;....................";
    let cfg = MetadataExtraction {
        header_offset: 10,
        id_patterns: vec![IdPattern {
            pattern: String::from("id=([a-z0-9]+)"),
            id_type: String::from("interval_id"),
            value_offset: 0,
            value_length: 0,
        }],
        protocol: ProtocolType::RTP,
    };
    let md = extract(payload, &cfg);
    assert!(md.get(&String::from("interval_id")).is_none());
}

#[test]
fn short_payload_yields_empty_metadata() {
    let cfg = MetadataExtraction {
        header_offset: 10,
        id_patterns: vec![IdPattern {
            pattern: String::from("(.*)"),
            id_type: String::from("interval_id"),
            value_offset: 0,
            value_length: 0,
        }],
        protocol: ProtocolType::RTP,
    };
    let md = extract(b"short", &cfg);
    assert_eq!(md.ids.len(), 0);
}

#[test]
fn invalid_regex_yields_nothing() {
    let cfg = MetadataExtraction {
        header_offset: 0,
        id_patterns: vec![IdPattern {
            pattern: String::from("(unclosed"),
            id_type: String::from("interval_id"),
            value_offset: 0,
            value_length: 0,
        }],
        protocol: ProtocolType::RTP,
    };
    let md = extract(b"some payload text", &cfg);
    assert!(md.get(&String::from("interval_id")).is_none());
}

#[test]
fn later_pattern_supersedes_earlier() {
    let payload = b"a=one b=two";
    let mk = |pat: &str| IdPattern {
        pattern: String::from(pat),
        id_type: String::from("interval_id"),
        value_offset: 0,
        value_length: 0,
    };
    let cfg = MetadataExtraction {
        header_offset: 0,
        id_patterns: vec![mk("a=(\\w+)"), mk("b=(\\w+)")],
        protocol: ProtocolType::RTP,
    };
    let md = extract(payload, &cfg);
    assert_eq!(md.get(&String::from("interval_id")).unwrap(), "two");
}
