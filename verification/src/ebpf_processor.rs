//! Latency measurement from kernel-trace output: parses CSV event lines that
//! carry addresses, ports and an interval identifier, fixes each interval's
//! source time at its first sighting on the source port, and records one
//! latency measurement per relay sighting. The caller reads the trace file
//! and hands lines in.

use vstd::prelude::*;
use crate::bpftrace_reader::{
    fits_u16, fits_u32, fits_u64, seen_contains, seen_keys_unique, sum_seq, RELAY_PORT,
    SOURCE_PORT,
};
use crate::csv::{csv_fields, digits_value, parse_u16, parse_u32, parse_u64, split_commas};
use crate::metadata::{utf8_lossy, utf8_lossy_of};

verus! {

/// One parsed trace event.
#[derive(Debug, Clone)]
pub struct AudioEvent {
    pub timestamp_ns: u64,
    pub src_ip: String,
    pub src_port: u16,
    pub dst_ip: String,
    pub dst_port: u16,
    pub interval_id: String,
    pub position: u32,
}

/// One source-to-relay latency measurement.
#[derive(Debug, Clone)]
pub struct LatencyMeasurement {
    pub interval_id: String,
    pub source_timestamp_ns: u64,
    pub relay_timestamp_ns: u64,
    /// Relay time minus source time, clamped at zero under clock skew.
    pub latency_ns: u64,
}

/// An event line parses iff it has at least seven fields and the numeric
/// ones fit. A header line fails the numeric test and parses to nothing.
pub open spec fn event_line_ok(line: Seq<u8>) -> bool {
    let fs = csv_fields(line);
    &&& fs.len() >= 7
    &&& fits_u64(fs[0])
    &&& fits_u16(fs[2])
    &&& fits_u16(fs[4])
    &&& fits_u32(fs[6])
}

/// Smallest latency among the measurements.
pub open spec fn min_latency(s: Seq<LatencyMeasurement>) -> int
    decreases s.len(),
{
    if s.len() <= 1 {
        if s.len() == 0 {
            0
        } else {
            s[0].latency_ns as int
        }
    } else {
        let rest = min_latency(s.drop_last());
        if s.last().latency_ns < rest {
            s.last().latency_ns as int
        } else {
            rest
        }
    }
}

/// Largest latency among the measurements.
pub open spec fn max_latency(s: Seq<LatencyMeasurement>) -> int
    decreases s.len(),
{
    if s.len() <= 1 {
        if s.len() == 0 {
            0
        } else {
            s[0].latency_ns as int
        }
    } else {
        let rest = max_latency(s.drop_last());
        if s.last().latency_ns > rest {
            s.last().latency_ns as int
        } else {
            rest
        }
    }
}

/// The latencies of the measurements, in order.
pub open spec fn latencies_of(s: Seq<LatencyMeasurement>) -> Seq<u64> {
    s.map_values(|m: LatencyMeasurement| m.latency_ns)
}

/// Explicit-identifier latency processor over kernel trace events.
pub struct EbpfProcessor {
    pub interval_first_seen: Vec<(String, u64)>,
    pub latency_measurements: Vec<LatencyMeasurement>,
}

/// Position of an interval identifier among the first-seen records.
#[verifier::loop_isolation(false)]
fn seen_position(v: &Vec<(String, u64)>, id: &String) -> (r: Option<usize>)
    ensures
        match r {
            Some(i) => i < v@.len() && v@[i as int].0@ == id@,
            None => !seen_contains(v@, id@),
        },
{
    let mut i: usize = 0;
    while i < v.len()
        invariant
            i <= v@.len(),
            forall|j: int| 0 <= j < i ==> v@[j].0@ != id@,
        decreases v@.len() - i,
    {
        if v[i].0 == *id {
            return Some(i);
        }
        i = i + 1;
    }
    None
}

impl EbpfProcessor {
    /// Well-formed: each interval's source time is recorded at most once.
    pub open spec fn wf(self) -> bool {
        seen_keys_unique(self.interval_first_seen@)
    }

    /// A fresh processor with nothing seen and nothing measured.
    pub fn new() -> (r: Self)
        ensures
            r.wf(),
            r.interval_first_seen@.len() == 0,
            r.latency_measurements@.len() == 0,
    {
        EbpfProcessor { interval_first_seen: Vec::new(), latency_measurements: Vec::new() }
    }

    /// Parse one CSV event line: timestamp, source address, source port,
    /// destination address, destination port, interval identifier, position.
    /// Extra fields are ignored; anything malformed yields nothing.
    pub fn parse_trace_line(&self, line: &[u8]) -> (r: Option<AudioEvent>)
        ensures
            r is Some <==> event_line_ok(line@),
            match r {
                Some(e) => {
                    let fs = csv_fields(line@);
                    &&& e.timestamp_ns == digits_value(fs[0])
                    &&& e.src_ip@ == utf8_lossy_of(fs[1])
                    &&& e.src_port == digits_value(fs[2])
                    &&& e.dst_ip@ == utf8_lossy_of(fs[3])
                    &&& e.dst_port == digits_value(fs[4])
                    &&& e.interval_id@ == utf8_lossy_of(fs[5])
                    &&& e.position == digits_value(fs[6])
                },
                None => true,
            },
    {
        let parts = split_commas(line);
        if parts.len() < 7 {
            return None;
        }
        let timestamp_ns = match parse_u64(parts[0].as_slice()) {
            Some(v) => v,
            None => {
                return None;
            },
        };
        let src_port = match parse_u16(parts[2].as_slice()) {
            Some(v) => v,
            None => {
                return None;
            },
        };
        let dst_port = match parse_u16(parts[4].as_slice()) {
            Some(v) => v,
            None => {
                return None;
            },
        };
        let position = match parse_u32(parts[6].as_slice()) {
            Some(v) => v,
            None => {
                return None;
            },
        };
        let src_ip = utf8_lossy(parts[1].as_slice());
        let dst_ip = utf8_lossy(parts[3].as_slice());
        let interval_id = utf8_lossy(parts[5].as_slice());
        Some(AudioEvent { timestamp_ns, src_ip, src_port, dst_ip, dst_port, interval_id, position })
    }

    /// Fold one event in. A first sighting at the source port fixes the
    /// interval's source time; a sighting at the relay port of a known
    /// interval appends one measurement with the latency clamped at zero.
    pub fn process_event(&mut self, event: AudioEvent)
        requires
            old(self).wf(),
        ensures
            final(self).wf(),
            final(self).interval_first_seen@ == (if event.src_port == SOURCE_PORT
                && !seen_contains(old(self).interval_first_seen@, event.interval_id@) {
                old(self).interval_first_seen@.push((event.interval_id, event.timestamp_ns))
            } else {
                old(self).interval_first_seen@
            }),
            ({
                let fs1 = final(self).interval_first_seen@;
                let olats = old(self).latency_measurements@;
                let nlats = final(self).latency_measurements@;
                if event.dst_port == RELAY_PORT && seen_contains(fs1, event.interval_id@) {
                    exists|si: int|
                        0 <= si < fs1.len() && fs1[si].0@ == event.interval_id@ && nlats
                            == olats.push(
                            (LatencyMeasurement {
                                interval_id: event.interval_id,
                                source_timestamp_ns: fs1[si].1,
                                relay_timestamp_ns: event.timestamp_ns,
                                latency_ns: if event.timestamp_ns >= fs1[si].1 {
                                    (event.timestamp_ns - fs1[si].1) as u64
                                } else {
                                    0u64
                                },
                            }),
                        )
                } else {
                    nlats == olats
                }
            }),
    {
        if event.src_port == SOURCE_PORT {
            if let None = seen_position(&self.interval_first_seen, &event.interval_id) {
                self.interval_first_seen.push((event.interval_id.clone(), event.timestamp_ns));
                proof {
                    assert(seen_keys_unique(self.interval_first_seen@)) by {
                        let s = self.interval_first_seen@;
                        let o = old(self).interval_first_seen@;
                        assert(forall|j: int| 0 <= j < o.len() ==> s[j] == o[j]);
                        if !seen_keys_unique(s) {
                            let (a, b) = choose|a: int, b: int|
                                0 <= a < b < s.len() && s[a].0@ == s[b].0@;
                            assert(b == s.len() - 1);
                            assert(seen_contains(o, event.interval_id@));
                        }
                    }
                }
            }
        }
        if event.dst_port == RELAY_PORT {
            let first: u64 = match seen_position(&self.interval_first_seen, &event.interval_id) {
                Some(si) => self.interval_first_seen[si].1,
                None => {
                    return;
                },
            };
            let latency_ns: u64 = if event.timestamp_ns >= first {
                event.timestamp_ns - first
            } else {
                0
            };
            self.latency_measurements.push(
                LatencyMeasurement {
                    interval_id: event.interval_id,
                    source_timestamp_ns: first,
                    relay_timestamp_ns: event.timestamp_ns,
                    latency_ns,
                },
            );
        }
    }

    /// Parse and fold in one line; a line that does not parse is skipped.
    pub fn process_line(&mut self, line: &[u8])
        requires
            old(self).wf(),
        ensures
            final(self).wf(),
            !event_line_ok(line@) ==> *final(self) == *old(self),
    {
        match self.parse_trace_line(line) {
            Some(event) => self.process_event(event),
            None => {},
        }
    }

    /// Smallest, average and largest recorded latency in nanoseconds; all
    /// zero when nothing was measured.
    #[verifier::loop_isolation(false)]
    pub fn get_statistics(&self) -> (r: (u64, u64, u64))
        ensures
            self.latency_measurements@.len() == 0 ==> r == (0u64, 0u64, 0u64),
            self.latency_measurements@.len() > 0 ==> {
                &&& r.0 == min_latency(self.latency_measurements@)
                &&& r.1 as int == sum_seq(latencies_of(self.latency_measurements@))
                    / self.latency_measurements@.len() as int
                &&& r.2 == max_latency(self.latency_measurements@)
            },
    {
        let s = &self.latency_measurements;
        let n = s.len();
        if n == 0 {
            return (0, 0, 0);
        }
        let ghost ls = latencies_of(s@);
        let mut min: u64 = s[0].latency_ns;
        let mut max: u64 = s[0].latency_ns;
        let mut sum: u128 = s[0].latency_ns as u128;
        let mut i: usize = 1;
        proof {
            let l1 = latencies_of(s@.take(1));
            assert(s@.take(1).len() == 1);
            assert(s@.take(1)[0] == s@[0]);
            assert(l1.len() == 1);
            assert(l1.last() == s@[0].latency_ns);
            assert(l1.drop_last() =~= Seq::<u64>::empty());
            assert(sum_seq(Seq::<u64>::empty()) == 0);
            assert(sum_seq(l1) == s@[0].latency_ns as int);
        }
        while i < n
            invariant
                1 <= i <= n,
                min as int == min_latency(s@.take(i as int)),
                max as int == max_latency(s@.take(i as int)),
                sum == sum_seq(latencies_of(s@.take(i as int))),
                sum <= i as u128 * 0xffff_ffff_ffff_ffff,
            decreases n - i,
        {
            proof {
                assert(s@.take(i as int + 1).drop_last() =~= s@.take(i as int));
                assert(s@.take(i as int + 1).last() == s@[i as int]);
                assert(latencies_of(s@.take(i as int + 1)).drop_last() =~= latencies_of(
                    s@.take(i as int),
                ));
                assert(latencies_of(s@.take(i as int + 1)).last() == s@[i as int].latency_ns);
            }
            let l = s[i].latency_ns;
            if l < min {
                min = l;
            }
            if l > max {
                max = l;
            }
            sum = sum + l as u128;
            i = i + 1;
        }
        proof {
            assert(s@.take(n as int) =~= s@);
            assert(sum / (n as u128) <= 0xffff_ffff_ffff_ffff) by (nonlinear_arith)
                requires
                    sum <= n as u128 * 0xffff_ffff_ffff_ffff,
                    n as u128 > 0,
            ;
        }
        let avg = (sum / n as u128) as u64;
        (min, avg, max)
    }
}

} // verus!
