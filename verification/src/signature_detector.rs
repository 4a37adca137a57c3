//! The per-stream signature detector: sampling counter, sliding window of
//! recent chunks, and the orchestration of metadata extraction, the
//! voice-activity check and fingerprint generation into a `SignatureEvent`.

use vstd::prelude::*;
use crate::config::MeasurementConfig;
use crate::metadata::{extract, extract_spec, PacketMetadata};
use crate::samples::{chunk_energy, mean_magnitude, window_view};
use crate::vad::{is_signature_worthy, worthy_spec};

verus! {

/// Window capacity in chunks; the oldest chunk is evicted beyond this.
pub const WINDOW_CAPACITY: usize = 50;

/// Assumed duration of one chunk in milliseconds. The window duration is
/// estimated from this fixed assumption, not from packet timing.
pub const CHUNK_DURATION_MS: usize = 20;

/// What xxh3 hashes a byte sequence to; the digest depends on the bytes
/// alone. What is believed of it stands on the trusted wrapper below.
pub uninterp spec fn xxh3_of(bytes: Seq<u8>) -> u64;

/// Relies on `xxhash_rust::xxh3::xxh3_64`: the 64-bit xxh3 digest of the
/// input bytes, a pure function of them.
#[verifier::external_body]
fn xxh3_digest(bytes: &Vec<u8>) -> (r: u64)
    ensures
        r == xxh3_of(bytes@),
{
    xxhash_rust::xxh3::xxh3_64(bytes.as_slice())
}

/// Little-endian bytes of a 32-bit value.
pub open spec fn le32_bytes(e: int) -> Seq<u8> {
    seq![
        (e % 256) as u8,
        ((e / 256) % 256) as u8,
        ((e / 65536) % 256) as u8,
        ((e / 16777216) % 256) as u8,
    ]
}

/// The fingerprint input of the first k chunks: each chunk's mean magnitude
/// encoded as 32 little-endian bits, in window order.
pub open spec fn fingerprint_bytes(chunks: Seq<Seq<u8>>, k: int) -> Seq<u8>
    decreases k,
{
    if k <= 0 {
        Seq::empty()
    } else {
        fingerprint_bytes(chunks, k - 1) + le32_bytes(mean_magnitude(chunks[k - 1]))
    }
}

/// The content hash of a window: xxh3 over its energy profile.
pub open spec fn window_hash(chunks: Seq<Seq<u8>>) -> u64 {
    xxh3_of(fingerprint_bytes(chunks, chunks.len() as int))
}

/// A content fingerprint of an audio window plus its estimated duration.
#[derive(Debug, Clone)]
pub struct AudioSignature {
    pub hash: u64,
    pub duration_ms: u32,
}

/// A detected signature with everything a matcher needs; immutable once
/// created, sent by value over the dissemination channel.
#[derive(Debug, Clone)]
pub struct SignatureEvent {
    pub signature: AudioSignature,
    pub metadata: PacketMetadata,
    /// Wall-clock origin time in nanoseconds, as supplied by the caller.
    pub timestamp_ns: u64,
    pub measurement_name: String,
}

/// The signature of a window: xxh3 over the per-chunk mean magnitudes in
/// window order, and the duration estimated at 20 ms per chunk.
#[verifier::loop_isolation(false)]
pub fn generate_signature(window: &Vec<Vec<u8>>) -> (sig: AudioSignature)
    requires
        window@.len() <= 50,
    ensures
        sig.hash == window_hash(window_view(window@)),
        sig.duration_ms == window@.len() * 20,
{
    let ghost w = window_view(window@);
    let mut bytes: Vec<u8> = Vec::new();
    let mut ci: usize = 0;
    while ci < window.len()
        invariant
            ci <= window@.len(),
            bytes@ == fingerprint_bytes(w, ci as int),
        decreases window@.len() - ci,
    {
        let e = chunk_energy(&window[ci]);
        bytes.push((e % 256) as u8);
        bytes.push(((e / 256) % 256) as u8);
        bytes.push(((e / 65536) % 256) as u8);
        bytes.push(((e / 16777216) % 256) as u8);
        proof {
            assert(bytes@ =~= fingerprint_bytes(w, ci as int + 1));
        }
        ci = ci + 1;
    }
    let hash = xxh3_digest(&bytes);
    AudioSignature { hash, duration_ms: (window.len() * CHUNK_DURATION_MS) as u32 }
}

/// Fingerprinting is deterministic: windows with the same ordered chunk
/// contents hash to the same value, so re-computation on the same bytes at
/// another vantage point reproduces the fingerprint. With the contract of
/// `generate_signature`, any two calls on windows of equal contents return
/// equal hashes.
pub proof fn lemma_fingerprint_deterministic(w1: Seq<Seq<u8>>, w2: Seq<Seq<u8>>)
    requires
        w1 == w2,
    ensures
        window_hash(w1) == window_hash(w2),
{
}

/// The window after a chunk is pushed: the oldest chunk falls out beyond
/// capacity.
pub open spec fn push_evict(w: Seq<Seq<u8>>, c: Seq<u8>) -> Seq<Seq<u8>> {
    let w2 = w.push(c);
    if w2.len() > 50 {
        w2.subrange(1, w2.len() as int)
    } else {
        w2
    }
}

/// Stateful per-stream detector that processes sampled packets and emits
/// signature events at worthy moments.
pub struct SignatureDetector {
    pub config: MeasurementConfig,
    pub audio_buffer: Vec<Vec<u8>>,
    pub packet_counter: u32,
}

impl SignatureDetector {
    /// Well-formed: a sound configuration and the window within capacity.
    pub open spec fn wf(self) -> bool {
        &&& self.config.wf()
        &&& self.audio_buffer@.len() <= 50
    }

    /// A fresh detector for one measurement.
    pub fn new(config: MeasurementConfig) -> (d: Self)
        requires
            config.wf(),
        ensures
            d.wf(),
            d.config == config,
            d.audio_buffer@.len() == 0,
            d.packet_counter == 0,
    {
        SignatureDetector { config, audio_buffer: Vec::new(), packet_counter: 0 }
    }

    /// Advance the sampling counter; on a sampling boundary extract metadata,
    /// slide the window and run the voice-activity check, emitting an event exactly when the
    /// new window is worthy. Packets off the boundary are skipped entirely:
    /// not buffered, not analyzed. Malformed payloads degrade to missing
    /// metadata or an unworthy window, never an error.
    pub fn process_packet(&mut self, payload: &[u8], now_ns: u64) -> (r: Option<SignatureEvent>)
        requires
            old(self).wf(),
            old(self).packet_counter < u32::MAX,
        ensures
            final(self).wf(),
            final(self).config == old(self).config,
            final(self).packet_counter == old(self).packet_counter + 1,
            final(self).packet_counter as int % final(self).config.signature_rules.sampling_rate as int != 0
                ==> r is None && final(self).audio_buffer == old(self).audio_buffer,
            final(self).packet_counter as int % final(self).config.signature_rules.sampling_rate as int == 0
                ==> {
                &&& window_view(final(self).audio_buffer@) == push_evict(
                    window_view(old(self).audio_buffer@),
                    payload@,
                )
                &&& (r is Some <==> worthy_spec(
                    window_view(final(self).audio_buffer@),
                    final(self).config.signature_rules.audio_criteria,
                ))
                &&& match r {
                    Some(ev) => {
                        &&& ev.signature.hash == window_hash(window_view(final(self).audio_buffer@))
                        &&& ev.signature.duration_ms == final(self).audio_buffer@.len() * 20
                        &&& ev.metadata@ == extract_spec(
                            payload@,
                            final(self).config.metadata_extraction,
                        )
                        &&& ev.timestamp_ns == now_ns
                        &&& ev.measurement_name == final(self).config.name
                    },
                    None => true,
                }
            },
    {
        self.packet_counter = self.packet_counter + 1;

        // Sample according to the configured rate.
        if self.packet_counter % self.config.signature_rules.sampling_rate != 0 {
            return None;
        }

        // Extract metadata first; its cost is paid once per sampled packet
        // even when no signature is emitted.
        let metadata = extract(payload, &self.config.metadata_extraction);

        // Slide the window, evicting the oldest chunk beyond capacity.
        self.audio_buffer.push(vstd::slice::slice_to_vec(payload));
        if self.audio_buffer.len() > WINDOW_CAPACITY {
            self.audio_buffer.remove(0);
        }
        proof {
            assert(window_view(self.audio_buffer@) =~= push_evict(
                window_view(old(self).audio_buffer@),
                payload@,
            ));
        }

        // Voice activity: is this a signature-worthy moment?
        if is_signature_worthy(&self.audio_buffer, &self.config.signature_rules.audio_criteria) {
            let signature = generate_signature(&self.audio_buffer);
            return Some(
                SignatureEvent {
                    signature,
                    metadata,
                    timestamp_ns: now_ns,
                    measurement_name: self.config.name.clone(),
                },
            );
        }

        None
    }
}

} // verus!
