//! Content-based audio latency measurement: signature detection over sampled
//! packet windows, metadata extraction, and a bounded, age-limited
//! correlation store that matches fingerprints across observation points.

pub mod bpftrace_reader;
pub mod config;
pub mod correlation_store;
pub mod csv;
pub mod dissemination;
pub mod ebpf_processor;
pub mod matcher;
pub mod metadata;
pub mod samples;
pub mod signature_detector;
pub mod vad;
