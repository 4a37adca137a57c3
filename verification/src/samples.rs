//! Arithmetic over raw audio payloads. A chunk is a byte sequence holding
//! little-endian 16-bit signed samples; a window is the ordered sequence of
//! the most recent chunks. Everything here is stated and proved over the
//! unsigned byte pairs, reading magnitudes and signs out of the two's
//! complement encoding directly.

use vstd::prelude::*;

verus! {

/// The chunk sequences of a window of chunks.
pub open spec fn window_view(w: Seq<Vec<u8>>) -> Seq<Seq<u8>> {
    Seq::new(w.len(), |i: int| w[i]@)
}

/// Number of complete 16-bit samples in a chunk; a trailing odd byte is
/// ignored.
pub open spec fn num_samples(chunk: Seq<u8>) -> int {
    chunk.len() as int / 2
}

/// The i-th sample as the unsigned 16-bit value read little-endian.
pub open spec fn sample_u16(chunk: Seq<u8>, i: int) -> int {
    chunk[2 * i] + 256 * chunk[2 * i + 1]
}

/// Magnitude of the i-th sample, reading the 16-bit value as two's
/// complement.
pub open spec fn sample_abs(chunk: Seq<u8>, i: int) -> int {
    let v = sample_u16(chunk, i);
    if v >= 32768 {
        65536 - v
    } else {
        v
    }
}

/// Sign of the i-th sample: -1, 0 or 1.
pub open spec fn sample_sign(chunk: Seq<u8>, i: int) -> int {
    let v = sample_u16(chunk, i);
    if v == 0 {
        0
    } else if v < 32768 {
        1
    } else {
        -1
    }
}

/// Sum of squared magnitudes of the first n samples of a chunk.
pub open spec fn chunk_sum_sq(chunk: Seq<u8>, n: int) -> int
    decreases n,
{
    if n <= 0 {
        0
    } else {
        chunk_sum_sq(chunk, n - 1) + sample_abs(chunk, n - 1) * sample_abs(chunk, n - 1)
    }
}

/// Sum of magnitudes of the first n samples of a chunk.
pub open spec fn chunk_sum_abs(chunk: Seq<u8>, n: int) -> int
    decreases n,
{
    if n <= 0 {
        0
    } else {
        chunk_sum_abs(chunk, n - 1) + sample_abs(chunk, n - 1)
    }
}

/// Total number of samples over the first k chunks of a window.
pub open spec fn window_samples(chunks: Seq<Seq<u8>>, k: int) -> int
    decreases k,
{
    if k <= 0 {
        0
    } else {
        window_samples(chunks, k - 1) + num_samples(chunks[k - 1])
    }
}

/// Total squared energy over the first k chunks of a window.
pub open spec fn window_sum_sq(chunks: Seq<Seq<u8>>, k: int) -> int
    decreases k,
{
    if k <= 0 {
        0
    } else {
        window_sum_sq(chunks, k - 1) + chunk_sum_sq(chunks[k - 1], num_samples(chunks[k - 1]))
    }
}

/// Mean sample magnitude of a chunk; zero for a chunk with no samples.
pub open spec fn mean_magnitude(chunk: Seq<u8>) -> int {
    if num_samples(chunk) == 0 {
        0
    } else {
        chunk_sum_abs(chunk, num_samples(chunk)) / num_samples(chunk)
    }
}

/// Every partial magnitude sum is bounded by full scale per sample.
pub proof fn lemma_chunk_sum_abs_bound(chunk: Seq<u8>, n: int)
    requires
        0 <= n,
        2 * n <= chunk.len(),
    ensures
        0 <= chunk_sum_abs(chunk, n) <= n * 32768,
    decreases n,
{
    if n > 0 {
        lemma_chunk_sum_abs_bound(chunk, n - 1);
    }
}

/// Unsigned 16-bit little-endian value of sample i of a chunk.
fn read_sample_u16(chunk: &Vec<u8>, i: usize) -> (v: u16)
    requires
        2 * i + 1 < chunk@.len(),
    ensures
        v as int == sample_u16(chunk@, i as int),
{
    let n = chunk.len();
    let lo = chunk[2 * i];
    let hi = chunk[2 * i + 1];
    lo as u16 + (hi as u16) * 256
}

/// Magnitude of sample i of a chunk.
pub fn sample_magnitude(chunk: &Vec<u8>, i: usize) -> (m: u32)
    requires
        2 * i + 1 < chunk@.len(),
    ensures
        m as int == sample_abs(chunk@, i as int),
        m <= 32768,
{
    let v = read_sample_u16(chunk, i);
    if v >= 32768 {
        65536 - v as u32
    } else {
        v as u32
    }
}

/// Sign of sample i of a chunk: -1, 0 or 1.
pub fn sample_signum(chunk: &Vec<u8>, i: usize) -> (s: i8)
    requires
        2 * i + 1 < chunk@.len(),
    ensures
        s as int == sample_sign(chunk@, i as int),
{
    let v = read_sample_u16(chunk, i);
    if v == 0 {
        0
    } else if v < 32768 {
        1
    } else {
        -1
    }
}

/// Mean sample magnitude of one chunk, the per-chunk term of the content
/// fingerprint.
pub fn chunk_energy(chunk: &Vec<u8>) -> (e: u32)
    ensures
        e as int == mean_magnitude(chunk@),
        e <= 32768,
{
    let ns: usize = chunk.len() / 2;
    if ns == 0 {
        return 0;
    }
    let mut sum: u128 = 0;
    let mut si: usize = 0;
    while si < ns
        invariant
            ns == num_samples(chunk@),
            2 * ns <= chunk@.len(),
            si <= ns,
            sum == chunk_sum_abs(chunk@, si as int),
            sum <= si as u128 * 32768,
        decreases ns - si,
    {
        let m = sample_magnitude(chunk, si);
        sum = sum + m as u128;
        si = si + 1;
    }
    proof {
        lemma_chunk_sum_abs_bound(chunk@, ns as int);
        assert(sum / (ns as u128) <= 32768) by (nonlinear_arith)
            requires
                sum <= ns as u128 * 32768,
                ns as u128 > 0,
        ;
    }
    (sum / ns as u128) as u32
}

} // verus!
