//! Static per-measurement configuration: sampling cadence, voice-activity
//! strategy selection, metadata patterns, and correlation bounds. Loaded once and
//! treated as immutable for the life of its detector.

use vstd::prelude::*;

verus! {

/// Full configuration for one measurement (one logical stream).
#[derive(Debug, Clone)]
pub struct MeasurementConfig {
    pub name: String,
    pub enabled: bool,
    pub signature_rules: SignatureRules,
    pub metadata_extraction: MetadataExtraction,
    pub correlation: CorrelationConfig,
}

/// How often to sample and what makes a window signature-worthy.
#[derive(Debug, Clone)]
pub struct SignatureRules {
    /// Filter expression identifying candidate streams; handed to the packet
    /// source by the caller, never interpreted here.
    pub stream_filter: String,
    pub audio_criteria: AudioCriteria,
    /// Analyze every N-th packet; must be at least 1.
    pub sampling_rate: u32,
}

/// Voice-activity criteria. The energy threshold is fixed-point: permille
/// (thousandths) of full scale, so 50 stands for a normalized RMS of 0.050.
#[derive(Debug, Clone)]
pub struct AudioCriteria {
    /// Minimum audio duration in ms to consider.
    pub min_duration_ms: u32,
    /// Normalized RMS threshold in permille of full scale (0..=1000).
    pub energy_threshold_permille: u32,
    pub vad_mode: VadMode,
    /// Optional speech band in Hz; informational, nothing reads it.
    pub frequency_range: Option<(u32, u32)>,
}

/// Which voice-activity strategy the detector runs.
#[derive(Debug, Clone)]
pub enum VadMode {
    /// RMS energy over the window against the configured threshold.
    Energy,
    /// Sign changes between consecutive samples against a fixed count.
    ZeroCrossing,
    /// Spectral features; extension point, currently never worthy.
    Spectral,
    /// Model-based detection; extension point, currently never worthy.
    ML { model_path: String },
}

/// Where and how identifiers live inside a payload.
#[derive(Debug, Clone)]
pub struct MetadataExtraction {
    /// Offset where the metadata envelope starts; payloads no longer than
    /// this yield no metadata at all.
    pub header_offset: usize,
    pub id_patterns: Vec<IdPattern>,
    pub protocol: ProtocolType,
}

/// One identifier pattern: either a `\x..`-escaped byte sequence found in the
/// raw payload, or a regular expression applied to the decoded envelope.
#[derive(Debug, Clone)]
pub struct IdPattern {
    /// Byte pattern (leading `\x`) or regular expression.
    pub pattern: String,
    /// The identifier kind this pattern yields, e.g. "interval_id".
    pub id_type: String,
    /// Byte offset of the value relative to a byte-pattern match; may be
    /// negative.
    pub value_offset: i32,
    /// Length of the value in bytes.
    pub value_length: usize,
}

/// Protocol-specific framing of the payload.
#[derive(Debug, Clone)]
pub enum ProtocolType {
    RTP,
    JsonEnvelope { schema: String },
    Binary { field_map: Vec<FieldMapping> },
    Custom { parser_script: String },
}

/// A fixed-offset field of a binary protocol.
#[derive(Debug, Clone)]
pub struct FieldMapping {
    pub name: String,
    pub offset: usize,
    pub length: usize,
    pub encoding: String,
}

/// Bounds and grouping for the correlation store.
#[derive(Debug, Clone)]
pub struct CorrelationConfig {
    /// Entries at least this old are swept out.
    pub signature_ttl_seconds: u64,
    /// Hard cap on stored signatures; the oldest is evicted beyond it.
    pub max_active_signatures: usize,
    /// Metadata key used to label latency observations.
    pub grouping_key: String,
}

impl MeasurementConfig {
    /// A sound configuration: sampling makes progress, the threshold is a
    /// permille value, and the store is allowed to hold at least one entry.
    pub open spec fn wf(self) -> bool {
        &&& self.signature_rules.sampling_rate >= 1
        &&& self.signature_rules.audio_criteria.energy_threshold_permille <= 1000
        &&& self.correlation.max_active_signatures >= 1
    }
}

} // verus!
