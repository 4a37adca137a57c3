//! Explicit-identifier latency estimation: parses CSV trace records that
//! already carry an interval identifier, remembers when each interval was
//! first seen at the source port, and collects source-to-relay latencies per
//! interval. The caller reads the trace file and hands lines in; everything
//! here is pure bookkeeping.

use vstd::prelude::*;
use crate::csv::{csv_fields, digits_value, is_digits, parse_u16, parse_u32, parse_u64,
    split_commas};
use crate::metadata::{utf8_lossy, utf8_lossy_of};
use crate::samples::window_view;

verus! {

/// One parsed trace record: where and when an audio chunk was seen.
#[derive(Debug, Clone)]
pub struct AudioChunkTrace {
    pub timestamp_ns: u64,
    pub src_port: u16,
    pub dst_port: u16,
    pub interval_id: String,
    pub position: u32,
}

/// Port at which an interval's first sighting counts as its source time.
pub const SOURCE_PORT: u16 = 8000;

/// Port whose sightings are measured against the source time.
pub const RELAY_PORT: u16 = 8001;

/// The field is a decimal number that fits 64 bits.
pub open spec fn fits_u64(f: Seq<u8>) -> bool {
    is_digits(f) && digits_value(f) <= u64::MAX
}

/// The field is a decimal number that fits 32 bits.
pub open spec fn fits_u32(f: Seq<u8>) -> bool {
    is_digits(f) && digits_value(f) <= u32::MAX
}

/// The field is a decimal number that fits 16 bits.
pub open spec fn fits_u16(f: Seq<u8>) -> bool {
    is_digits(f) && digits_value(f) <= u16::MAX
}

/// A line parses iff it has at least five fields and the numeric ones fit.
pub open spec fn trace_line_ok(line: Seq<u8>) -> bool {
    let fs = csv_fields(line);
    &&& fs.len() >= 5
    &&& fits_u64(fs[0])
    &&& fits_u16(fs[1])
    &&& fits_u16(fs[2])
    &&& fits_u32(fs[4])
}

/// No stored interval identifier repeats.
pub open spec fn seen_keys_unique(s: Seq<(String, u64)>) -> bool {
    forall|i: int, j: int| 0 <= i < j < s.len() ==> s[i].0@ != s[j].0@
}

/// Some record is stored under this interval identifier.
pub open spec fn seen_contains(s: Seq<(String, u64)>, id: Seq<char>) -> bool {
    exists|i: int| 0 <= i < s.len() && s[i].0@ == id
}

/// No latency bucket's interval identifier repeats.
pub open spec fn lat_keys_unique(s: Seq<(String, Vec<u64>)>) -> bool {
    forall|i: int, j: int| 0 <= i < j < s.len() ==> s[i].0@ != s[j].0@
}

/// Some latency bucket exists for this interval identifier.
pub open spec fn lat_contains(s: Seq<(String, Vec<u64>)>, id: Seq<char>) -> bool {
    exists|i: int| 0 <= i < s.len() && s[i].0@ == id
}

/// The first-seen times after a trace record is folded in.
pub open spec fn seen_after(s: Seq<(String, u64)>, t: AudioChunkTrace) -> Seq<(String, u64)> {
    if t.src_port == SOURCE_PORT && !seen_contains(s, t.interval_id@) {
        s.push((t.interval_id, t.timestamp_ns))
    } else {
        s
    }
}

/// Latency reader keyed by explicit interval identifiers, in first-seen
/// order.
pub struct BpftraceReader {
    pub trace_file: String,
    pub interval_first_seen: Vec<(String, u64)>,
    pub interval_latencies: Vec<(String, Vec<u64>)>,
}

/// Position of an interval identifier among the first-seen records.
#[verifier::loop_isolation(false)]
fn seen_position(v: &Vec<(String, u64)>, id: &String) -> (r: Option<usize>)
    ensures
        match r {
            Some(i) => i < v@.len() && v@[i as int].0@ == id@,
            None => !seen_contains(v@, id@),
        },
{
    let mut i: usize = 0;
    while i < v.len()
        invariant
            i <= v@.len(),
            forall|j: int| 0 <= j < i ==> v@[j].0@ != id@,
        decreases v@.len() - i,
    {
        if v[i].0 == *id {
            return Some(i);
        }
        i = i + 1;
    }
    None
}

/// Position of an interval identifier among the latency buckets.
#[verifier::loop_isolation(false)]
fn lat_position(v: &Vec<(String, Vec<u64>)>, id: &String) -> (r: Option<usize>)
    ensures
        match r {
            Some(i) => i < v@.len() && v@[i as int].0@ == id@,
            None => !lat_contains(v@, id@),
        },
{
    let mut i: usize = 0;
    while i < v.len()
        invariant
            i <= v@.len(),
            forall|j: int| 0 <= j < i ==> v@[j].0@ != id@,
        decreases v@.len() - i,
    {
        if v[i].0 == *id {
            return Some(i);
        }
        i = i + 1;
    }
    None
}

/// Sum of a latency sequence.
pub open spec fn sum_seq(s: Seq<u64>) -> int
    decreases s.len(),
{
    if s.len() == 0 {
        0
    } else {
        sum_seq(s.drop_last()) + s.last()
    }
}

/// The average latencies, one per interval with at least one measurement, in
/// stored order.
pub open spec fn stats_spec(s: Seq<(String, Vec<u64>)>) -> Seq<(Seq<char>, int)>
    decreases s.len(),
{
    if s.len() == 0 {
        Seq::empty()
    } else {
        let rest = stats_spec(s.drop_last());
        if s.last().1@.len() == 0 {
            rest
        } else {
            rest.push((s.last().0@, sum_seq(s.last().1@) / s.last().1@.len() as int))
        }
    }
}

/// The (identifier, average) pairs a stats result denotes.
pub open spec fn stats_view(v: Seq<(String, u64)>) -> Seq<(Seq<char>, int)> {
    Seq::new(v.len(), |i: int| (v[i].0@, v[i].1 as int))
}

/// Average of a non-empty latency bucket, exact and within 64 bits.
#[verifier::loop_isolation(false)]
fn average_latency(lats: &Vec<u64>) -> (avg: u64)
    requires
        lats@.len() >= 1,
    ensures
        avg as int == sum_seq(lats@) / lats@.len() as int,
{
    let n = lats.len();
    let mut sum: u128 = 0;
    let mut i: usize = 0;
    proof {
        assert(lats@.take(0) =~= Seq::<u64>::empty());
    }
    while i < n
        invariant
            i <= n,
            sum == sum_seq(lats@.take(i as int)),
            sum <= i as u128 * 0xffff_ffff_ffff_ffff,
        decreases n - i,
    {
        proof {
            assert(lats@.take(i as int + 1).drop_last() =~= lats@.take(i as int));
            assert(lats@.take(i as int + 1).last() == lats@[i as int]);
        }
        sum = sum + lats[i] as u128;
        i = i + 1;
    }
    proof {
        assert(lats@.take(n as int) =~= lats@);
        assert(sum / (n as u128) <= 0xffff_ffff_ffff_ffff) by (nonlinear_arith)
            requires
                sum <= n as u128 * 0xffff_ffff_ffff_ffff,
                n as u128 > 0,
        ;
    }
    (sum / n as u128) as u64
}

impl BpftraceReader {
    /// Well-formed: each interval appears at most once in each table.
    pub open spec fn wf(self) -> bool {
        &&& seen_keys_unique(self.interval_first_seen@)
        &&& lat_keys_unique(self.interval_latencies@)
    }

    /// A fresh reader for one trace file path.
    pub fn new(trace_file: &str) -> (r: Self)
        ensures
            r.wf(),
            r.trace_file@ == trace_file@,
            r.interval_first_seen@.len() == 0,
            r.interval_latencies@.len() == 0,
    {
        BpftraceReader {
            trace_file: trace_file.to_owned(),
            interval_first_seen: Vec::new(),
            interval_latencies: Vec::new(),
        }
    }

    /// Parse one CSV trace line: timestamp, source port, destination port,
    /// interval identifier, position. Extra fields are ignored; a missing or
    /// malformed field yields nothing, never an error.
    pub fn parse_trace_line(&self, line: &[u8]) -> (r: Option<AudioChunkTrace>)
        ensures
            r is Some <==> trace_line_ok(line@),
            match r {
                Some(t) => {
                    let fs = csv_fields(line@);
                    &&& t.timestamp_ns == digits_value(fs[0])
                    &&& t.src_port == digits_value(fs[1])
                    &&& t.dst_port == digits_value(fs[2])
                    &&& t.interval_id@ == utf8_lossy_of(fs[3])
                    &&& t.position == digits_value(fs[4])
                },
                None => true,
            },
    {
        let parts = split_commas(line);
        if parts.len() < 5 {
            return None;
        }
        let timestamp_ns = match parse_u64(parts[0].as_slice()) {
            Some(v) => v,
            None => {
                return None;
            },
        };
        let src_port = match parse_u16(parts[1].as_slice()) {
            Some(v) => v,
            None => {
                return None;
            },
        };
        let dst_port = match parse_u16(parts[2].as_slice()) {
            Some(v) => v,
            None => {
                return None;
            },
        };
        let position = match parse_u32(parts[4].as_slice()) {
            Some(v) => v,
            None => {
                return None;
            },
        };
        let interval_id = utf8_lossy(parts[3].as_slice());
        Some(AudioChunkTrace { timestamp_ns, src_port, dst_port, interval_id, position })
    }

    /// Fold one record in. A first sighting at the source port fixes the
    /// interval's source time; a sighting at the relay port of a known
    /// interval appends the latency against that source time, clamped at
    /// zero, to the interval's bucket. Both may happen for one record.
    pub fn process_trace(&mut self, trace: AudioChunkTrace)
        requires
            old(self).wf(),
        ensures
            final(self).wf(),
            final(self).trace_file == old(self).trace_file,
            final(self).interval_first_seen@ == seen_after(
                old(self).interval_first_seen@,
                trace,
            ),
            ({
                let fs1 = seen_after(old(self).interval_first_seen@, trace);
                let olats = old(self).interval_latencies@;
                let nlats = final(self).interval_latencies@;
                if trace.dst_port == RELAY_PORT && seen_contains(fs1, trace.interval_id@) {
                    exists|si: int|
                        0 <= si < fs1.len() && fs1[si].0@ == trace.interval_id@ && ({
                            let lat: u64 = if trace.timestamp_ns >= fs1[si].1 {
                                (trace.timestamp_ns - fs1[si].1) as u64
                            } else {
                                0u64
                            };
                            if lat_contains(olats, trace.interval_id@) {
                                exists|li: int|
                                    {
                                        &&& 0 <= li < olats.len()
                                        &&& olats[li].0@ == trace.interval_id@
                                        &&& nlats.len() == olats.len()
                                        &&& nlats[li].0 == olats[li].0
                                        &&& nlats[li].1@ == olats[li].1@.push(lat)
                                        &&& forall|k: int|
                                            0 <= k < olats.len() && k != li ==> nlats[k]
                                                == olats[k]
                                    }
                            } else {
                                &&& nlats.len() == olats.len() + 1
                                &&& nlats.last().0@ == trace.interval_id@
                                &&& nlats.last().1@ == seq![lat]
                                &&& forall|k: int| 0 <= k < olats.len() ==> nlats[k] == olats[k]
                            }
                        })
                } else {
                    nlats == olats
                }
            }),
    {
        // First sighting at the source port fixes the source time.
        if trace.src_port == SOURCE_PORT {
            if let None = seen_position(&self.interval_first_seen, &trace.interval_id) {
                self.interval_first_seen.push((trace.interval_id.clone(), trace.timestamp_ns));
                proof {
                    assert(seen_keys_unique(self.interval_first_seen@)) by {
                        let s = self.interval_first_seen@;
                        let o = old(self).interval_first_seen@;
                        assert(forall|j: int| 0 <= j < o.len() ==> s[j] == o[j]);
                        if !seen_keys_unique(s) {
                            let (a, b) = choose|a: int, b: int|
                                0 <= a < b < s.len() && s[a].0@ == s[b].0@;
                            assert(b == s.len() - 1);
                            assert(seen_contains(o, trace.interval_id@));
                        }
                    }
                }
            }
        }
        proof {
            assert(self.interval_first_seen@ == seen_after(
                old(self).interval_first_seen@,
                trace,
            ));
        }

        // A sighting at the relay port of a known interval records a latency.
        if trace.dst_port == RELAY_PORT {
            let first: u64 = match seen_position(&self.interval_first_seen, &trace.interval_id) {
                Some(si) => self.interval_first_seen[si].1,
                None => {
                    return;
                },
            };
            let lat: u64 = if trace.timestamp_ns >= first {
                trace.timestamp_ns - first
            } else {
                0
            };
            match lat_position(&self.interval_latencies, &trace.interval_id) {
                Some(li) => {
                    let ghost olats = self.interval_latencies@;
                    let mut bucket = self.interval_latencies.remove(li);
                    bucket.1.push(lat);
                    self.interval_latencies.insert(li, bucket);
                    proof {
                        let nlats = self.interval_latencies@;
                        assert(forall|k: int|
                            0 <= k < olats.len() && k != li ==> nlats[k] == olats[k]);
                        assert(lat_keys_unique(nlats)) by {
                            assert(forall|k: int|
                                0 <= k < nlats.len() ==> nlats[k].0@ == olats[k].0@);
                        }
                    }
                },
                None => {
                    let mut bucket: Vec<u64> = Vec::new();
                    bucket.push(lat);
                    let ghost olats = self.interval_latencies@;
                    self.interval_latencies.push((trace.interval_id.clone(), bucket));
                    proof {
                        let nlats = self.interval_latencies@;
                        assert(forall|k: int| 0 <= k < olats.len() ==> nlats[k] == olats[k]);
                        assert(lat_keys_unique(nlats)) by {
                            if !lat_keys_unique(nlats) {
                                let (a, b) = choose|a: int, b: int|
                                    0 <= a < b < nlats.len() && nlats[a].0@ == nlats[b].0@;
                                assert(b == nlats.len() - 1);
                                assert(lat_contains(olats, trace.interval_id@));
                            }
                        }
                    }
                },
            }
        }
    }

    /// Parse and fold in one line; a line that does not parse is skipped.
    pub fn process_line(&mut self, line: &[u8])
        requires
            old(self).wf(),
        ensures
            final(self).wf(),
            final(self).trace_file == old(self).trace_file,
            !trace_line_ok(line@) ==> *final(self) == *old(self),
    {
        match self.parse_trace_line(line) {
            Some(trace) => self.process_trace(trace),
            None => {},
        }
    }

    /// Average source-to-relay latency per interval, in stored order; an
    /// interval without measurements yields no row.
    #[verifier::loop_isolation(false)]
    pub fn get_latency_stats(&self) -> (stats: Vec<(String, u64)>)
        requires
            self.wf(),
        ensures
            stats_view(stats@) == stats_spec(self.interval_latencies@),
    {
        let s = &self.interval_latencies;
        let mut stats: Vec<(String, u64)> = Vec::new();
        let mut i: usize = 0;
        proof {
            assert(s@.take(0) =~= Seq::<(String, Vec<u64>)>::empty());
            assert(stats_view(stats@) =~= stats_spec(s@.take(0)));
        }
        while i < s.len()
            invariant
                i <= s@.len(),
                stats_view(stats@) == stats_spec(s@.take(i as int)),
            decreases s@.len() - i,
        {
            proof {
                assert(s@.take(i as int + 1).drop_last() =~= s@.take(i as int));
                assert(s@.take(i as int + 1).last() == s@[i as int]);
            }
            if s[i].1.len() > 0 {
                let avg = average_latency(&s[i].1);
                stats.push((s[i].0.clone(), avg));
                proof {
                    assert(stats_view(stats@) =~= stats_spec(s@.take(i as int + 1)));
                }
            }
            i = i + 1;
        }
        proof {
            assert(s@.take(s@.len() as int) =~= s@);
        }
        stats
    }
}

} // verus!
