//! Voice-activity checks: the decision whether the current window of audio is
//! worth fingerprinting. The energy check compares normalized RMS against the
//! configured threshold; the zero-crossing check counts sign changes across
//! the whole window. Spectral and model-based detection are extension points
//! that currently never fire.

use vstd::prelude::*;
use crate::config::{AudioCriteria, VadMode};
use crate::samples::{
    chunk_sum_sq, num_samples, sample_magnitude, sample_sign, sample_signum, window_samples,
    window_sum_sq, window_view,
};

verus! {

/// The energy criterion, squared to stay in integers. With n samples of summed
/// squared magnitude ssq, the normalized RMS is sqrt(ssq/n)/32768, and
/// RMS >= t/1000 holds exactly when ssq * 10^6 >= n * t^2 * 32768^2
/// (32768^2 == 1073741824). A window with no samples is never worthy.
pub open spec fn energy_worthy(chunks: Seq<Seq<u8>>, thr_permille: int) -> bool {
    let n = window_samples(chunks, chunks.len() as int);
    let ssq = window_sum_sq(chunks, chunks.len() as int);
    n > 0 && ssq * 1000000 >= n * (thr_permille * thr_permille * 1073741824)
}

/// Crossings counted among the first n samples of one chunk, and the sign
/// carried out, starting from carried sign `prev`. A zero sample has no sign
/// and carries `prev` forward unchanged.
pub open spec fn chunk_crossings(chunk: Seq<u8>, n: int, prev: int) -> (int, int)
    decreases n,
{
    if n <= 0 {
        (0, prev)
    } else {
        let r = chunk_crossings(chunk, n - 1, prev);
        let s = sample_sign(chunk, n - 1);
        if s == 0 {
            r
        } else if r.1 != 0 && s != r.1 {
            (r.0 + 1, s)
        } else {
            (r.0, s)
        }
    }
}

/// Crossings counted over the first k chunks of a window, and the sign
/// carried out, starting from carried sign `prev`.
pub open spec fn window_crossings(chunks: Seq<Seq<u8>>, k: int, prev: int) -> (int, int)
    decreases k,
{
    if k <= 0 {
        (0, prev)
    } else {
        let r = window_crossings(chunks, k - 1, prev);
        let c = chunk_crossings(chunks[k - 1], num_samples(chunks[k - 1]), r.1);
        (r.0 + c.0, c.1)
    }
}

/// The zero-crossing criterion: more than 50 sign changes over the whole window.
/// The count is absolute, not normalized by window length or duration; a
/// longer window triggers more easily. Kept exactly as observed.
pub open spec fn zero_crossing_worthy(chunks: Seq<Seq<u8>>) -> bool {
    window_crossings(chunks, chunks.len() as int, 0).0 > 50
}

/// The voice-activity decision for a window under the configured strategy.
pub open spec fn worthy_spec(chunks: Seq<Seq<u8>>, criteria: AudioCriteria) -> bool {
    match criteria.vad_mode {
        VadMode::Energy => energy_worthy(chunks, criteria.energy_threshold_permille as int),
        VadMode::ZeroCrossing => zero_crossing_worthy(chunks),
        VadMode::Spectral => false,
        VadMode::ML { .. } => false,
    }
}

/// RMS energy over the whole window against the permille threshold,
/// boundary inclusive.
#[verifier::loop_isolation(false)]
pub fn check_energy_threshold(window: &Vec<Vec<u8>>, thr_permille: u32) -> (worthy: bool)
    requires
        window@.len() <= 50,
        thr_permille <= 1000,
    ensures
        worthy == energy_worthy(window_view(window@), thr_permille as int),
{
    let ghost w = window_view(window@);
    let mut total: u128 = 0;
    let mut energy: u128 = 0;
    let mut ci: usize = 0;
    while ci < window.len()
        invariant
            ci <= window@.len() <= 50,
            w == window_view(window@),
            total == window_samples(w, ci as int),
            energy == window_sum_sq(w, ci as int),
            total <= ci as u128 * 0x8000_0000_0000_0000,
            energy <= total * 0x4000_0000,
        decreases window@.len() - ci,
    {
        let chunk = &window[ci];
        let ns: usize = chunk.len() / 2;
        let mut si: usize = 0;
        while si < ns
            invariant
                ci < window@.len() <= 50,
                w == window_view(window@),
                w[ci as int] == window@[ci as int]@,
                ns == num_samples(w[ci as int]),
                2 * ns <= w[ci as int].len(),
                si <= ns,
                total == window_samples(w, ci as int) + si,
                energy == window_sum_sq(w, ci as int) + chunk_sum_sq(w[ci as int], si as int),
                total <= ci as u128 * 0x8000_0000_0000_0000 + si as u128,
                energy <= total * 0x4000_0000,
            decreases ns - si,
        {
            let m = sample_magnitude(chunk, si);
            proof {
                assert((m as u128) * (m as u128) <= 0x4000_0000) by (nonlinear_arith)
                    requires
                        m <= 32768,
                ;
            }
            energy = energy + (m as u128) * (m as u128);
            total = total + 1;
            si = si + 1;
        }
        ci = ci + 1;
    }
    if total == 0 {
        return false;
    }
    proof {
        assert((thr_permille as u128) * (thr_permille as u128) <= 1000000) by (nonlinear_arith)
            requires
                thr_permille <= 1000,
        ;
    }
    let tsq: u128 = (thr_permille as u128) * (thr_permille as u128);
    proof {
        assert(total * (tsq * 0x4000_0000) <= 0x190_0000_0000_0000_0000u128
            * 0x4_0000_0000_0000u128) by (nonlinear_arith)
            requires
                total <= 0x190_0000_0000_0000_0000u128,
                tsq * 0x4000_0000 <= 0x4_0000_0000_0000u128,
        ;
    }
    let lhs: u128 = energy * 1000000;
    let rhs: u128 = total * (tsq * 0x4000_0000);
    lhs >= rhs
}

/// Sign changes between consecutive samples across the whole window against
/// the fixed count of 50.
#[verifier::loop_isolation(false)]
pub fn check_zero_crossing_rate(window: &Vec<Vec<u8>>) -> (worthy: bool)
    requires
        window@.len() <= 50,
    ensures
        worthy == zero_crossing_worthy(window_view(window@)),
{
    let ghost w = window_view(window@);
    let mut crossings: u128 = 0;
    let mut seen: u128 = 0;
    let mut prev: i8 = 0;
    let mut ci: usize = 0;
    while ci < window.len()
        invariant
            ci <= window@.len() <= 50,
            w == window_view(window@),
            crossings as int == window_crossings(w, ci as int, 0).0,
            prev as int == window_crossings(w, ci as int, 0).1,
            seen == window_samples(w, ci as int),
            crossings <= seen,
            seen <= ci as u128 * 0x8000_0000_0000_0000,
        decreases window@.len() - ci,
    {
        let chunk = &window[ci];
        let ns: usize = chunk.len() / 2;
        let ghost prev0 = prev as int;
        let ghost cross0 = crossings as int;
        let mut si: usize = 0;
        while si < ns
            invariant
                ci < window@.len() <= 50,
                w == window_view(window@),
                w[ci as int] == window@[ci as int]@,
                ns == num_samples(w[ci as int]),
                2 * ns <= w[ci as int].len(),
                si <= ns,
                cross0 == window_crossings(w, ci as int, 0).0,
                prev0 == window_crossings(w, ci as int, 0).1,
                crossings as int - cross0 == chunk_crossings(w[ci as int], si as int, prev0).0,
                prev as int == chunk_crossings(w[ci as int], si as int, prev0).1,
                seen == window_samples(w, ci as int) + si,
                crossings <= seen,
                seen <= ci as u128 * 0x8000_0000_0000_0000 + si as u128,
            decreases ns - si,
        {
            let s = sample_signum(chunk, si);
            if s != 0 {
                if prev != 0 && s != prev {
                    crossings = crossings + 1;
                }
                prev = s;
            }
            seen = seen + 1;
            si = si + 1;
        }
        ci = ci + 1;
    }
    crossings > 50
}

/// Spectral-feature detection; extension point, currently never worthy.
pub fn check_spectral_features(window: &Vec<Vec<u8>>) -> (worthy: bool)
    ensures
        !worthy,
{
    false
}

/// Model-based voice-activity detection; extension point, currently never
/// worthy regardless of the configured model.
pub fn run_ml_vad(window: &Vec<Vec<u8>>, model_path: &String) -> (worthy: bool)
    ensures
        !worthy,
{
    false
}

/// The voice-activity decision: decides from the current window whether this is a
/// signature-worthy moment, under the strategy the criteria select.
pub fn is_signature_worthy(window: &Vec<Vec<u8>>, criteria: &AudioCriteria) -> (worthy: bool)
    requires
        window@.len() <= 50,
        criteria.energy_threshold_permille <= 1000,
    ensures
        worthy == worthy_spec(window_view(window@), *criteria),
{
    match &criteria.vad_mode {
        VadMode::Energy => check_energy_threshold(window, criteria.energy_threshold_permille),
        VadMode::ZeroCrossing => check_zero_crossing_rate(window),
        VadMode::Spectral => check_spectral_features(window),
        VadMode::ML { model_path } => run_ml_vad(window, model_path),
    }
}

} // verus!
