//! The correlation store: a bounded, age-limited index of pending (not yet
//! matched) signatures, keyed by the 64-bit content hash. At most one entry
//! per hash is held at any time; an insert of a colliding hash overwrites the
//! stored entry in place. Beyond `max_active_signatures` the single oldest
//! entry is evicted; `sweep` removes every entry whose age has reached the
//! TTL. A match removes its entry, so a hash can be claimed at most once.

use vstd::prelude::*;
use crate::config::CorrelationConfig;
use crate::signature_detector::SignatureEvent;

verus! {

/// A stored signature event plus its insertion time.
#[derive(Debug, Clone)]
pub struct CorrelationEntry {
    pub hash: u64,
    pub inserted_at_ns: u64,
    pub event: SignatureEvent,
}

/// No two entries share a hash.
pub open spec fn hashes_unique(s: Seq<CorrelationEntry>) -> bool {
    forall|i: int, j: int| 0 <= i < j < s.len() ==> s[i].hash != s[j].hash
}

/// Some entry carries this hash.
pub open spec fn contains_hash(s: Seq<CorrelationEntry>, h: u64) -> bool {
    exists|i: int| 0 <= i < s.len() && s[i].hash == h
}

/// The entry stored under a hash, if any.
pub open spec fn find_entry(s: Seq<CorrelationEntry>, h: u64) -> Option<CorrelationEntry>
    decreases s.len(),
{
    if s.len() == 0 {
        None
    } else if s.last().hash == h {
        Some(s.last())
    } else {
        find_entry(s.drop_last(), h)
    }
}

/// Position of the entry with the smallest insertion time; the earliest such
/// position on a tie.
pub open spec fn oldest_index(s: Seq<CorrelationEntry>) -> int
    decreases s.len(),
{
    if s.len() <= 1 {
        0
    } else {
        let r = oldest_index(s.drop_last());
        if s.last().inserted_at_ns < s[r].inserted_at_ns {
            s.len() - 1
        } else {
            r
        }
    }
}

/// An entry's age at `now_ns` has reached the TTL. An entry whose insertion
/// time lies in the future (clock skew) has negative age and never expires.
pub open spec fn expired(e: CorrelationEntry, ttl_seconds: int, now_ns: int) -> bool {
    now_ns - e.inserted_at_ns >= ttl_seconds * 1000000000
}

/// The entries a sweep at `now_ns` keeps, in stored order.
pub open spec fn live_entries(s: Seq<CorrelationEntry>, ttl_seconds: int, now_ns: int) -> Seq<
    CorrelationEntry,
>
    decreases s.len(),
{
    if s.len() == 0 {
        s
    } else {
        let rest = live_entries(s.drop_last(), ttl_seconds, now_ns);
        if expired(s.last(), ttl_seconds, now_ns) {
            rest
        } else {
            rest.push(s.last())
        }
    }
}

/// A hash stored at a known position is found there.
pub proof fn lemma_find_entry_at(s: Seq<CorrelationEntry>, i: int)
    requires
        hashes_unique(s),
        0 <= i < s.len(),
    ensures
        find_entry(s, s[i].hash) == Some(s[i]),
    decreases s.len(),
{
    if i < s.len() - 1 {
        lemma_find_entry_at(s.drop_last(), i);
    }
}

/// An absent hash is found nowhere.
pub proof fn lemma_find_entry_absent(s: Seq<CorrelationEntry>, h: u64)
    requires
        !contains_hash(s, h),
    ensures
        find_entry(s, h) is None,
    decreases s.len(),
{
    if s.len() > 0 {
        assert(!contains_hash(s.drop_last(), h)) by {
            assert(forall|i: int|
                0 <= i < s.len() - 1 ==> s.drop_last()[i] == s[i]);
        }
        lemma_find_entry_absent(s.drop_last(), h);
    }
}

/// At-most-once claim: removing the only entry with a hash leaves no entry
/// with that hash.
pub proof fn lemma_claim_removes_hash(s: Seq<CorrelationEntry>, i: int, h: u64)
    requires
        hashes_unique(s),
        0 <= i < s.len(),
        s[i].hash == h,
    ensures
        !contains_hash(s.remove(i), h),
        hashes_unique(s.remove(i)),
{
    let t = s.remove(i);
    assert(forall|j: int| 0 <= j < i ==> t[j] == s[j]);
    assert(forall|j: int| i <= j < t.len() ==> t[j] == s[j + 1]);
}

/// The oldest index points at a minimal insertion time, strictly before any
/// later position carrying the same time.
pub proof fn lemma_oldest_index_min(s: Seq<CorrelationEntry>)
    requires
        s.len() >= 1,
    ensures
        0 <= oldest_index(s) < s.len(),
        forall|j: int|
            0 <= j < s.len() ==> (#[trigger] s[j].inserted_at_ns) >= s[oldest_index(
                s,
            )].inserted_at_ns,
        forall|j: int|
            0 <= j < oldest_index(s) ==> (#[trigger] s[j].inserted_at_ns) > s[oldest_index(
                s,
            )].inserted_at_ns,
    decreases s.len(),
{
    if s.len() > 1 {
        lemma_oldest_index_min(s.drop_last());
        assert(forall|j: int| 0 <= j < s.len() - 1 ==> s.drop_last()[j] == s[j]);
    }
}

/// What a sweep keeps: a subsequence with the same uniqueness, holding
/// exactly the unexpired entries.
pub proof fn lemma_live_entries(s: Seq<CorrelationEntry>, ttl_seconds: int, now_ns: int)
    ensures
        live_entries(s, ttl_seconds, now_ns).len() <= s.len(),
        forall|h: u64|
            contains_hash(live_entries(s, ttl_seconds, now_ns), h) ==> contains_hash(s, h),
        hashes_unique(s) ==> hashes_unique(live_entries(s, ttl_seconds, now_ns)),
    decreases s.len(),
{
    let live = live_entries(s, ttl_seconds, now_ns);
    if s.len() > 0 {
        let d = s.drop_last();
        lemma_live_entries(d, ttl_seconds, now_ns);
        let dl = live_entries(d, ttl_seconds, now_ns);
        assert(forall|j: int| 0 <= j < d.len() ==> d[j] == s[j]);
        assert forall|h: u64| contains_hash(live, h) implies contains_hash(s, h) by {
            let i = choose|i: int| 0 <= i < live.len() && live[i].hash == h;
            if expired(s.last(), ttl_seconds, now_ns) || i < live.len() - 1 {
                assert(contains_hash(dl, h)) by {
                    assert(dl[i].hash == h);
                }
                assert(contains_hash(d, h));
                let k = choose|k: int| 0 <= k < d.len() && d[k].hash == h;
                assert(s[k].hash == h);
            } else {
                assert(s[s.len() - 1].hash == h);
            }
        }
        if hashes_unique(s) {
            assert forall|i: int, j: int| 0 <= i < j < live.len() implies live[i].hash
                != live[j].hash by {
                if !expired(s.last(), ttl_seconds, now_ns) && j == live.len() - 1 {
                    if live[i].hash == s.last().hash {
                        assert(contains_hash(dl, live[i].hash)) by {
                            assert(dl[i].hash == live[i].hash);
                        }
                        assert(contains_hash(d, live[i].hash));
                        let k = choose|k: int| 0 <= k < d.len() && d[k].hash == live[i].hash;
                        assert(s[k].hash == s[s.len() - 1].hash);
                    }
                }
            }
        }
    }
}

/// TTL correctness over one stored hash: after a sweep it is gone exactly
/// when its age has reached the TTL, and kept unchanged otherwise.
pub proof fn lemma_ttl_correctness(
    s: Seq<CorrelationEntry>,
    ttl_seconds: int,
    now_ns: int,
    h: u64,
)
    requires
        hashes_unique(s),
    ensures
        match find_entry(s, h) {
            Some(e) => {
                &&& expired(e, ttl_seconds, now_ns) ==> !contains_hash(
                    live_entries(s, ttl_seconds, now_ns),
                    h,
                )
                &&& !expired(e, ttl_seconds, now_ns) ==> find_entry(
                    live_entries(s, ttl_seconds, now_ns),
                    h,
                ) == Some(e)
            },
            None => !contains_hash(live_entries(s, ttl_seconds, now_ns), h),
        },
    decreases s.len(),
{
    let live = live_entries(s, ttl_seconds, now_ns);
    lemma_live_entries(s, ttl_seconds, now_ns);
    if s.len() == 0 {
    } else {
        let d = s.drop_last();
        assert(forall|j: int| 0 <= j < d.len() ==> d[j] == s[j]);
        lemma_ttl_correctness(d, ttl_seconds, now_ns, h);
        lemma_live_entries(d, ttl_seconds, now_ns);
        let dl = live_entries(d, ttl_seconds, now_ns);
        if s.last().hash == h {
            // The stored entry is the last one; no earlier entry carries h.
            assert(!contains_hash(d, h)) by {
                if contains_hash(d, h) {
                    let k = choose|k: int| 0 <= k < d.len() && d[k].hash == h;
                    assert(s[k].hash == s[s.len() - 1].hash);
                }
            }
            lemma_find_entry_absent(d, h);
            if expired(s.last(), ttl_seconds, now_ns) {
                assert(!contains_hash(dl, h));
                assert(live == dl);
            } else {
                assert(live.last() == s.last());
            }
        } else {
            // h, if stored, lives in the prefix; the last entry never
            // carries it.
            if !expired(s.last(), ttl_seconds, now_ns) {
                assert(live == dl.push(s.last()));
                match find_entry(d, h) {
                    Some(e) => {
                        if !expired(e, ttl_seconds, now_ns) {
                            assert(live.drop_last() =~= dl);
                            assert(find_entry(live, h) == find_entry(dl, h));
                        } else {
                            assert(!contains_hash(dl, h));
                            assert forall|i: int| 0 <= i < live.len() implies live[i].hash
                                != h by {
                                if i < live.len() - 1 {
                                    assert(dl[i].hash != h) by {
                                        if dl[i].hash == h {
                                            assert(contains_hash(dl, h));
                                        }
                                    }
                                }
                            }
                        }
                    },
                    None => {
                        assert(!contains_hash(dl, h));
                        assert forall|i: int| 0 <= i < live.len() implies live[i].hash != h by {
                            if i < live.len() - 1 {
                                assert(dl[i].hash != h) by {
                                    if dl[i].hash == h {
                                        assert(contains_hash(dl, h));
                                    }
                                }
                            }
                        }
                    },
                }
            }
        }
    }
}

/// Bounded, age-limited index of pending signatures, in insertion order.
/// Shared across tasks by the caller behind its own synchronization; every
/// operation here is a single atomic step of that discipline.
pub struct CorrelationStore {
    pub entries: Vec<CorrelationEntry>,
    /// Hard cap on the number of stored entries; at least 1.
    pub max_active_signatures: usize,
    /// Entries whose age in seconds reaches this are swept out.
    pub signature_ttl_seconds: u64,
}

impl CorrelationStore {
    /// Well-formed: within capacity and at most one entry per hash.
    pub open spec fn wf(self) -> bool {
        &&& self.max_active_signatures >= 1
        &&& self.entries@.len() <= self.max_active_signatures
        &&& hashes_unique(self.entries@)
    }

    /// An empty store with the configured bounds.
    pub fn new(config: &CorrelationConfig) -> (store: Self)
        requires
            config.max_active_signatures >= 1,
        ensures
            store.wf(),
            store.entries@.len() == 0,
            store.max_active_signatures == config.max_active_signatures,
            store.signature_ttl_seconds == config.signature_ttl_seconds,
    {
        CorrelationStore {
            entries: Vec::new(),
            max_active_signatures: config.max_active_signatures,
            signature_ttl_seconds: config.signature_ttl_seconds,
        }
    }

    /// Number of stored entries; never above the cap.
    pub fn len(&self) -> (n: usize)
        requires
            self.wf(),
        ensures
            n == self.entries@.len(),
            n <= self.max_active_signatures,
    {
        self.entries.len()
    }

    /// Position of the stored entry with this hash, if any.
    #[verifier::loop_isolation(false)]
    fn position_of(&self, h: u64) -> (r: Option<usize>)
        ensures
            match r {
                Some(i) => i < self.entries@.len() && self.entries@[i as int].hash == h,
                None => !contains_hash(self.entries@, h),
            },
    {
        let mut i: usize = 0;
        while i < self.entries.len()
            invariant
                i <= self.entries@.len(),
                forall|j: int| 0 <= j < i ==> self.entries@[j].hash != h,
            decreases self.entries@.len() - i,
        {
            if self.entries[i].hash == h {
                return Some(i);
            }
            i = i + 1;
        }
        None
    }

    /// Position of the oldest stored entry.
    #[verifier::loop_isolation(false)]
    fn position_of_oldest(&self) -> (oi: usize)
        requires
            self.entries@.len() >= 1,
        ensures
            oi as int == oldest_index(self.entries@),
    {
        let ghost s = self.entries@;
        let mut oi: usize = 0;
        let mut i: usize = 1;
        proof {
            assert(s.take(1).len() == 1);
        }
        while i < self.entries.len()
            invariant
                1 <= i <= s.len(),
                oi < i,
                oi as int == oldest_index(s.take(i as int)),
            decreases s.len() - i,
        {
            proof {
                assert(s.take(i as int + 1).drop_last() =~= s.take(i as int));
                assert(s.take(i as int + 1).last() == s[i as int]);
            }
            if self.entries[i].inserted_at_ns < self.entries[oi].inserted_at_ns {
                oi = i;
            }
            i = i + 1;
        }
        proof {
            assert(s.take(s.len() as int) =~= s);
        }
        oi
    }

    /// Add or overwrite the entry for the event's hash, stamped with `now_ns`
    /// as insertion time. When the store is full and the hash is new, the
    /// single oldest entry is evicted first (an expiry, not a match), so the
    /// size never exceeds the cap.
    pub fn insert(&mut self, event: SignatureEvent, now_ns: u64)
        requires
            old(self).wf(),
        ensures
            final(self).wf(),
            final(self).max_active_signatures == old(self).max_active_signatures,
            final(self).signature_ttl_seconds == old(self).signature_ttl_seconds,
            find_entry(final(self).entries@, event.signature.hash) == Some(
                CorrelationEntry { hash: event.signature.hash, inserted_at_ns: now_ns, event },
            ),
            contains_hash(old(self).entries@, event.signature.hash) ==> exists|i: int|
                0 <= i < old(self).entries@.len() && old(self).entries@[i].hash
                    == event.signature.hash && final(self).entries@ == old(
                    self,
                ).entries@.update(
                    i,
                    CorrelationEntry { hash: event.signature.hash, inserted_at_ns: now_ns, event },
                ),
            !contains_hash(old(self).entries@, event.signature.hash) && old(self).entries@.len()
                < old(self).max_active_signatures ==> final(self).entries@ == old(
                self,
            ).entries@.push(
                CorrelationEntry { hash: event.signature.hash, inserted_at_ns: now_ns, event },
            ),
            !contains_hash(old(self).entries@, event.signature.hash) && old(self).entries@.len()
                == old(self).max_active_signatures ==> final(self).entries@ == old(
                self,
            ).entries@.remove(oldest_index(old(self).entries@)).push(
                CorrelationEntry { hash: event.signature.hash, inserted_at_ns: now_ns, event },
            ),
    {
        let h = event.signature.hash;
        let entry = CorrelationEntry { hash: h, inserted_at_ns: now_ns, event };
        match self.position_of(h) {
            Some(i) => {
                self.entries.remove(i);
                self.entries.insert(i, entry);
                proof {
                    assert(self.entries@ =~= old(self).entries@.update(i as int, entry));
                    assert(hashes_unique(self.entries@));
                    lemma_find_entry_at(self.entries@, i as int);
                }
            },
            None => {
                if self.entries.len() == self.max_active_signatures {
                    let oi = self.position_of_oldest();
                    proof {
                        lemma_oldest_index_min(old(self).entries@);
                        lemma_claim_removes_hash(
                            old(self).entries@,
                            oi as int,
                            old(self).entries@[oi as int].hash,
                        );
                    }
                    self.entries.remove(oi);
                    proof {
                        let removed = old(self).entries@.remove(oi as int);
                        assert(!contains_hash(removed, h)) by {
                            if contains_hash(removed, h) {
                                let k = choose|k: int|
                                    0 <= k < removed.len() && removed[k].hash == h;
                                if k < oi as int {
                                    assert(old(self).entries@[k].hash == h);
                                } else {
                                    assert(old(self).entries@[k + 1].hash == h);
                                }
                            }
                        }
                    }
                }
                let ghost before = self.entries@;
                self.entries.push(entry);
                proof {
                    assert(hashes_unique(self.entries@)) by {
                        assert(forall|j: int|
                            0 <= j < before.len() ==> self.entries@[j] == before[j]);
                        if !hashes_unique(self.entries@) {
                            let (a, b) = choose|a: int, b: int|
                                0 <= a < b < self.entries@.len() && self.entries@[a].hash
                                    == self.entries@[b].hash;
                            assert(b == self.entries@.len() - 1);
                            assert(contains_hash(before, h));
                        }
                    }
                    lemma_find_entry_at(self.entries@, self.entries@.len() - 1);
                }
            },
        }
    }

    /// Atomically remove and hand out the entry for a hash. Success exactly
    /// when the hash is stored; afterwards the store holds nothing for it, so
    /// of two claims of the same hash exactly one can succeed. Absence is a
    /// normal outcome, not an error.
    pub fn try_match(&mut self, hash: u64) -> (r: Option<SignatureEvent>)
        requires
            old(self).wf(),
        ensures
            final(self).wf(),
            final(self).max_active_signatures == old(self).max_active_signatures,
            final(self).signature_ttl_seconds == old(self).signature_ttl_seconds,
            r is Some <==> contains_hash(old(self).entries@, hash),
            !contains_hash(final(self).entries@, hash),
            r is None ==> final(self).entries@ == old(self).entries@,
            match r {
                Some(ev) => find_entry(old(self).entries@, hash) matches Some(e) && e.event == ev
                    && exists|i: int|
                    0 <= i < old(self).entries@.len() && old(self).entries@[i].hash == hash
                        && final(self).entries@ == old(self).entries@.remove(i),
                None => true,
            },
    {
        match self.position_of(hash) {
            Some(i) => {
                let entry = self.entries.remove(i);
                proof {
                    lemma_find_entry_at(old(self).entries@, i as int);
                    lemma_claim_removes_hash(old(self).entries@, i as int, hash);
                }
                Some(entry.event)
            },
            None => {
                proof {
                    lemma_find_entry_absent(self.entries@, hash);
                }
                None
            },
        }
    }

    /// Remove every entry whose age at `now_ns` has reached the TTL. Expired
    /// entries are misses, never failures; unexpired entries stay, in order.
    #[verifier::loop_isolation(false)]
    pub fn sweep(&mut self, now_ns: u64)
        requires
            old(self).wf(),
        ensures
            final(self).wf(),
            final(self).max_active_signatures == old(self).max_active_signatures,
            final(self).signature_ttl_seconds == old(self).signature_ttl_seconds,
            final(self).entries@ == live_entries(
                old(self).entries@,
                old(self).signature_ttl_seconds as int,
                now_ns as int,
            ),
    {
        let ghost s = self.entries@;
        let ghost ttl = self.signature_ttl_seconds as int;
        let ttl_seconds = self.signature_ttl_seconds;
        let mut kept: Vec<CorrelationEntry> = Vec::new();
        proof {
            assert(s.take(0) =~= Seq::<CorrelationEntry>::empty());
            assert(s.skip(0) =~= s);
        }
        while self.entries.len() > 0
            invariant
                self.entries@.len() <= s.len(),
                self.entries@ == s.skip(s.len() - self.entries@.len()),
                kept@ == live_entries(s.take(s.len() - self.entries@.len()), ttl, now_ns as int),
                self.signature_ttl_seconds == old(self).signature_ttl_seconds,
                self.max_active_signatures == old(self).max_active_signatures,
            decreases self.entries@.len(),
        {
            let ghost k = s.len() - self.entries@.len();
            let e = self.entries.remove(0);
            proof {
                assert(e == s[k]);
                assert(self.entries@ =~= s.skip(k + 1));
                assert(s.take(k + 1).drop_last() =~= s.take(k));
                assert(s.take(k + 1).last() == s[k]);
            }
            // age >= ttl expires; a future insertion time never does.
            let keep: bool = if now_ns < e.inserted_at_ns {
                true
            } else {
                let age: u128 = (now_ns - e.inserted_at_ns) as u128;
                let lim: u128 = (ttl_seconds as u128) * 1000000000;
                age < lim
            };
            if keep {
                kept.push(e);
            }
        }
        proof {
            assert(s.take(s.len() as int) =~= s);
            lemma_live_entries(s, ttl, now_ns as int);
        }
        self.entries = kept;
    }
}

} // verus!
