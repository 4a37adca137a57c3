//! Best-effort dissemination: a bounded, multi-subscriber broadcast of
//! signature events. The channel keeps the most recent `capacity` events with
//! running sequence numbers; every subscriber that keeps up sees every event
//! in order, and one that falls behind skips forward past what it missed.
//! Publishing never blocks and never fails.

use vstd::prelude::*;
use crate::signature_detector::SignatureEvent;

verus! {

/// The broadcast buffer. Events carry implicit sequence numbers: the oldest
/// buffered event has number `next_seq - buffer.len()`, the newest
/// `next_seq - 1`.
pub struct BroadcastChannel {
    pub capacity: usize,
    pub next_seq: u64,
    pub buffer: Vec<SignatureEvent>,
}

/// A subscription cursor: the sequence number of the next event to read.
pub struct Subscriber {
    pub next_seq: u64,
}

impl BroadcastChannel {
    /// Sequence number of the oldest buffered event.
    pub open spec fn first_seq(self) -> int {
        self.next_seq - self.buffer@.len()
    }

    /// Well-formed: room for at least one event, no more events than
    /// capacity, and sequence numbers consistent with the buffer.
    pub open spec fn wf(self) -> bool {
        &&& self.capacity >= 1
        &&& self.buffer@.len() <= self.capacity
        &&& self.buffer@.len() <= self.next_seq
        &&& self.next_seq > 0 ==> self.buffer@.len() >= 1
    }

    /// A cursor may only point into the published range.
    pub open spec fn valid_subscriber(self, sub: Subscriber) -> bool {
        sub.next_seq <= self.next_seq
    }

    /// An empty channel with the given slot count.
    pub fn new(capacity: usize) -> (ch: Self)
        requires
            capacity >= 1,
        ensures
            ch.wf(),
            ch.capacity == capacity,
            ch.next_seq == 0,
            ch.buffer@.len() == 0,
    {
        BroadcastChannel { capacity, next_seq: 0, buffer: Vec::new() }
    }

    /// A new subscription, starting at the events published from now on.
    pub fn subscribe(&self) -> (sub: Subscriber)
        ensures
            sub.next_seq == self.next_seq,
            self.valid_subscriber(sub),
    {
        Subscriber { next_seq: self.next_seq }
    }

    /// Publish an event to every subscriber: it takes the next sequence
    /// number, and the oldest buffered event falls out beyond capacity. Never
    /// blocks, never fails, whatever the subscribers do.
    pub fn publish(&mut self, event: SignatureEvent)
        requires
            old(self).wf(),
            old(self).next_seq < u64::MAX,
        ensures
            final(self).wf(),
            final(self).capacity == old(self).capacity,
            final(self).next_seq == old(self).next_seq + 1,
            old(self).buffer@.len() < old(self).capacity ==> final(self).buffer@ == old(
                self,
            ).buffer@.push(event),
            old(self).buffer@.len() == old(self).capacity ==> final(self).buffer@ == old(
                self,
            ).buffer@.subrange(1, old(self).buffer@.len() as int).push(event),
    {
        if self.buffer.len() == self.capacity {
            self.buffer.remove(0);
            proof {
                assert(self.buffer@ =~= old(self).buffer@.subrange(
                    1,
                    old(self).buffer@.len() as int,
                ));
            }
        }
        self.buffer.push(event);
        self.next_seq = self.next_seq + 1;
    }

    /// Take the next event for a subscriber. Hands back the event and how
    /// many events the subscriber missed to get it: a cursor that fell behind
    /// the buffer skips ahead to the oldest buffered event. Nothing when the
    /// subscriber is caught up.
    pub fn recv<'a>(&'a self, sub: &mut Subscriber) -> (r: (Option<&'a SignatureEvent>, u64))
        requires
            self.wf(),
            self.valid_subscriber(*old(sub)),
        ensures
            self.valid_subscriber(*final(sub)),
            old(sub).next_seq == self.next_seq ==> r.0 is None && r.1 == 0 && final(sub).next_seq
                == old(sub).next_seq,
            old(sub).next_seq < self.next_seq ==> {
                let read = if old(sub).next_seq < self.first_seq() {
                    self.first_seq()
                } else {
                    old(sub).next_seq as int
                };
                &&& r.1 == read - old(sub).next_seq
                &&& r.0 matches Some(ev) && *ev == self.buffer@[read - self.first_seq()]
                &&& final(sub).next_seq == read + 1
            },
    {
        if sub.next_seq >= self.next_seq {
            return (None, 0);
        }
        // next_seq > 0 here, and the buffer cannot be empty: an event was
        // published after this cursor's position.
        let first: u64 = self.next_seq - self.buffer.len() as u64;
        let (read, skipped): (u64, u64) = if sub.next_seq < first {
            (first, first - sub.next_seq)
        } else {
            (sub.next_seq, 0)
        };
        let idx: usize = (read - first) as usize;
        sub.next_seq = read + 1;
        (Some(&self.buffer[idx]), skipped)
    }
}

} // verus!
