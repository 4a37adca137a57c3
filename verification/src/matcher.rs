//! The matcher: recomputes the content fingerprint over a locally observed
//! window, claims the matching pending signature from the correlation store,
//! and turns the pair of timestamps into a latency observation. A negative
//! latency (clock skew between observation points) is clamped to zero and
//! flagged, never an error.

use vstd::prelude::*;
use crate::correlation_store::{contains_hash, find_entry, CorrelationStore};
use crate::metadata::lookup_pairs;
use crate::samples::window_view;
use crate::signature_detector::{generate_signature, window_hash};

verus! {

/// One latency observation, keyed the way the metrics sink expects it.
#[derive(Debug, Clone)]
pub struct LatencyObservation {
    pub measurement_name: String,
    /// Value stored under the configured grouping key, or "unknown".
    pub grouping_value: String,
    /// Identity of the observing vantage point.
    pub observer: String,
    pub latency_ns: u64,
    /// Set when the observed time preceded the origin time and the latency
    /// was clamped to zero.
    pub clock_skew_flagged: bool,
}

/// Latency between origin and observation, clamped at zero: the clamped
/// value and whether clamping happened.
pub fn compute_latency_ns(observed_ns: u64, origin_ns: u64) -> (r: (u64, bool))
    ensures
        r.0 == if observed_ns >= origin_ns {
            observed_ns - origin_ns
        } else {
            0
        },
        r.1 == (observed_ns < origin_ns),
{
    if observed_ns >= origin_ns {
        (observed_ns - origin_ns, false)
    } else {
        (0, true)
    }
}

/// Recompute the fingerprint of an observed candidate window, claim the
/// pending signature for it, and report the latency observation. Succeeds
/// exactly when the store holds the recomputed hash; the claimed entry is
/// gone afterwards, so no second observer can match it again.
pub fn match_candidate(
    store: &mut CorrelationStore,
    window: &Vec<Vec<u8>>,
    observed_ns: u64,
    observer: &String,
    grouping_key: &String,
) -> (r: Option<LatencyObservation>)
    requires
        old(store).wf(),
        window@.len() <= 50,
    ensures
        final(store).wf(),
        final(store).max_active_signatures == old(store).max_active_signatures,
        final(store).signature_ttl_seconds == old(store).signature_ttl_seconds,
        r is Some <==> contains_hash(
            old(store).entries@,
            window_hash(window_view(window@)),
        ),
        !contains_hash(final(store).entries@, window_hash(window_view(window@))),
        r is None ==> final(store).entries@ == old(store).entries@,
        match r {
            Some(obs) => find_entry(
                old(store).entries@,
                window_hash(window_view(window@)),
            ) matches Some(e) && {
                &&& obs.measurement_name == e.event.measurement_name
                &&& obs.observer == observer
                &&& obs.latency_ns == if observed_ns >= e.event.timestamp_ns {
                    observed_ns - e.event.timestamp_ns
                } else {
                    0
                }
                &&& obs.clock_skew_flagged == (observed_ns < e.event.timestamp_ns)
                &&& match lookup_pairs(e.event.metadata@, grouping_key@) {
                    Some(v) => obs.grouping_value@ == v,
                    None => obs.grouping_value@ == "unknown"@,
                }
            },
            None => true,
        },
{
    let sig = generate_signature(window);
    match store.try_match(sig.hash) {
        Some(event) => {
            let (latency_ns, flagged) = compute_latency_ns(observed_ns, event.timestamp_ns);
            let grouping_value: String = match event.metadata.get(grouping_key) {
                Some(v) => v.clone(),
                None => "unknown".to_owned(),
            };
            Some(
                LatencyObservation {
                    measurement_name: event.measurement_name,
                    grouping_value,
                    observer: observer.clone(),
                    latency_ns,
                    clock_skew_flagged: flagged,
                },
            )
        },
        None => None,
    }
}

} // verus!
