use std::collections::BTreeMap;
use std::collections::BTreeSet;

use bytes::Bytes;
use vstd::prelude::*;

use crate::clock::{elapsed, Moment};
use crate::reassembly::{keys_from, run_length, values_from};

verus! {

/// The mutable state of one logical connection, owned by the task that drives
/// it. Sequence numbers are `u64`; time is read from a monotonic clock as
/// [`Moment`]s and round-trip times are given in nanoseconds.
pub struct ConnVars {
    /// Next sequence number to hand to outbound data.
    pub next_free_seqno: u64,
    /// Number of retransmissions so far.
    pub retrans_count: u64,
    /// Deadline of the pending acknowledgment, present exactly while
    /// `ack_seqnos` is not empty.
    pub delayed_ack_timer: Option<Moment>,
    /// Sequence numbers received and not yet acknowledged.
    pub ack_seqnos: BTreeSet<u64>,
    /// Chunks received ahead of a gap, by sequence number.
    pub reorderer: BTreeMap<u64, Bytes>,
    /// Next sequence number to deliver in order.
    pub lowest_unseen: u64,
    /// Where the congestion-control law stands.
    pub congestion: Congestion,
    /// Set once no more new data is to be accepted.
    pub closing: bool,
}

/// The timing state of the congestion-control law. Its fields change only
/// through the connection's acknowledgment and loss events, so slow start,
/// once left, is never entered again.
pub struct Congestion {
    slow_start: bool,
    last_loss: Moment,
    flights: u64,
    last_flight: Moment,
}

impl Congestion {
    /// Whether no loss has been reported yet.
    pub closed spec fn spec_slow_start(self) -> bool {
        self.slow_start
    }

    /// When the window was last cut (or the connection made).
    pub closed spec fn spec_last_loss(self) -> Moment {
        self.last_loss
    }

    /// Round-trip-scale acknowledgment intervals counted so far.
    pub closed spec fn spec_flights(self) -> u64 {
        self.flights
    }

    /// When the last interval was counted (or the connection made).
    pub closed spec fn spec_last_flight(self) -> Moment {
        self.last_flight
    }

    /// `next` is what an acknowledgment at `now` makes of `self`, with
    /// `counted` telling whether a round-trip-scale interval was counted.
    pub open spec fn acked(self, now: Moment, srtt_nanos: u64, counted: bool, next: Congestion) -> bool {
        &&& counted == (elapsed(now, self.spec_last_flight()) > srtt_nanos)
        &&& next.spec_slow_start() == self.spec_slow_start()
        &&& next.spec_last_loss() == self.spec_last_loss()
        &&& if counted {
            next.spec_flights() == self.spec_flights() + 1 && next.spec_last_flight() == now
        } else {
            next.spec_flights() == self.spec_flights() && next.spec_last_flight()
                == self.spec_last_flight()
        }
    }

    /// `next` is what a loss at `now` makes of `self`, with `cut` telling
    /// whether the window is to be cut.
    pub open spec fn lost(self, now: Moment, srtt_nanos: u64, cut: bool, next: Congestion) -> bool {
        &&& !next.spec_slow_start()
        &&& cut == (elapsed(now, self.spec_last_loss()) > srtt_nanos)
        &&& next.spec_last_loss() == if cut {
            now
        } else {
            self.spec_last_loss()
        }
        &&& next.spec_flights() == self.spec_flights()
        &&& next.spec_last_flight() == self.spec_last_flight()
    }

    pub fn slow_start(&self) -> (r: bool)
        ensures
            r == self.spec_slow_start(),
    {
        self.slow_start
    }

    pub fn last_loss(&self) -> (r: Moment)
        ensures
            r == self.spec_last_loss(),
    {
        self.last_loss
    }

    pub fn flights(&self) -> (r: u64)
        ensures
            r == self.spec_flights(),
    {
        self.flights
    }

    pub fn last_flight(&self) -> (r: Moment)
        ensures
            r == self.spec_last_flight(),
    {
        self.last_flight
    }
}

impl ConnVars {
    /// Chunks are held only ahead of the delivery cursor, and the
    /// acknowledgment deadline is set exactly while acknowledgments are owed.
    pub open spec fn wf(self) -> bool {
        &&& forall|k: u64| #[trigger]
            self.reorderer@.contains_key(k) ==> self.lowest_unseen < k && k < u64::MAX
        &&& (self.delayed_ack_timer is Some <==> !self.ack_seqnos@.is_empty())
    }

    /// The sequence and retransmission counters and the closing flag agree.
    pub open spec fn same_counters(self, other: ConnVars) -> bool {
        &&& self.next_free_seqno == other.next_free_seqno
        &&& self.retrans_count == other.retrans_count
        &&& self.closing == other.closing
    }

    /// The owed acknowledgments and their deadline agree.
    pub open spec fn same_acks(self, other: ConnVars) -> bool {
        &&& self.delayed_ack_timer == other.delayed_ack_timer
        &&& self.ack_seqnos@ == other.ack_seqnos@
    }

    /// The held chunks and the delivery cursor agree.
    pub open spec fn same_reassembly(self, other: ConnVars) -> bool {
        &&& self.reorderer@ == other.reorderer@
        &&& self.lowest_unseen == other.lowest_unseen
    }

    /// The congestion-control timing state agrees.
    pub open spec fn same_congestion(self, other: ConnVars) -> bool {
        self.congestion == other.congestion
    }

    /// What the reassembly buffer holds once a chunk at `seqno` is taken in,
    /// before any delivery: a chunk behind the cursor is dropped, any other
    /// one is stored under its sequence number.
    pub open spec fn stored_after(self, seqno: u64, payload: Bytes) -> Map<u64, Bytes> {
        if seqno < self.lowest_unseen {
            self.reorderer@
        } else {
            self.reorderer@.insert(seqno, payload)
        }
    }

    /// How many chunks a receipt at `seqno` delivers in order.
    pub open spec fn delivered_count(self, seqno: u64, payload: Bytes) -> nat {
        run_length(self.stored_after(seqno, payload), self.lowest_unseen)
    }

    /// `next` and `delivered` are what a receipt of `payload` at `seqno`
    /// makes of `self`: the cursor moves past the run of chunks that is now
    /// contiguous, those chunks are handed out in order, and only chunks
    /// beyond the new cursor stay held.
    pub open spec fn received(
        self,
        seqno: u64,
        payload: Bytes,
        next: ConnVars,
        delivered: Seq<Bytes>,
    ) -> bool {
        let stored = self.stored_after(seqno, payload);
        let count = self.delivered_count(seqno, payload);
        &&& next.lowest_unseen == self.lowest_unseen + count
        &&& delivered == values_from(stored, self.lowest_unseen, count)
        &&& next.reorderer@ == stored.restrict(keys_from(next.lowest_unseen))
        &&& forall|k: u64| #[trigger] next.reorderer@.contains_key(k) ==> next.lowest_unseen < k
    }

    /// The state of a new connection whose clock reads `now`: nothing sent,
    /// received or owed, a window in slow start, and not closing.
    pub fn new(now: Moment) -> (r: ConnVars)
        ensures
            r.wf(),
            r.next_free_seqno == 0,
            r.retrans_count == 0,
            r.delayed_ack_timer is None,
            r.ack_seqnos@.is_empty(),
            r.reorderer@.is_empty(),
            r.lowest_unseen == 0,
            r.congestion.spec_slow_start(),
            r.congestion.spec_last_loss() == now,
            r.congestion.spec_flights() == 0,
            r.congestion.spec_last_flight() == now,
            !r.closing,
    {
        ConnVars {
            next_free_seqno: 0,
            retrans_count: 0,
            delayed_ack_timer: None,
            ack_seqnos: BTreeSet::new(),
            reorderer: BTreeMap::new(),
            lowest_unseen: 0,
            congestion: Congestion { slow_start: true, last_loss: now, flights: 0, last_flight: now },
            closing: false,
        }
    }

    /// Takes in a payload chunk received at `seqno` and returns the chunks
    /// that are now deliverable in order: the longest run of consecutive
    /// sequence numbers held from the cursor on. A chunk behind the cursor is
    /// a duplicate and changes nothing.
    pub fn receive_chunk(&mut self, seqno: u64, payload: Bytes) -> (delivered: Vec<Bytes>)
        requires
            old(self).wf(),
            seqno < u64::MAX,
        ensures
            final(self).wf(),
            old(self).received(seqno, payload, *final(self), delivered@),
            final(self).same_counters(*old(self)),
            final(self).same_acks(*old(self)),
            final(self).same_congestion(*old(self)),
    {
        let mut delivered: Vec<Bytes> = Vec::new();
        if seqno < self.lowest_unseen {
            proof {
                assert(self.reorderer@.restrict(keys_from(self.lowest_unseen)) =~= self.reorderer@);
                assert(!self.reorderer@.contains_key(self.lowest_unseen));
                assert(delivered@ =~= values_from(self.reorderer@, self.lowest_unseen, 0));
            }
            return delivered;
        }
        self.reorderer.insert(seqno, payload);
        let ghost stored = self.reorderer@;
        let ghost start = self.lowest_unseen;
        proof {
            assert(stored.restrict(keys_from(start)) =~= stored);
            assert(delivered@ =~= values_from(stored, start, 0));
        }
        while self.reorderer.contains_key(&self.lowest_unseen)
            invariant
                start <= self.lowest_unseen,
                forall|k: u64| #[trigger] stored.contains_key(k) ==> start <= k && k < u64::MAX,
                self.reorderer@ == stored.restrict(keys_from(self.lowest_unseen)),
                run_length(stored, start) == (self.lowest_unseen - start) + run_length(
                    stored,
                    self.lowest_unseen,
                ),
                delivered@ == values_from(stored, start, (self.lowest_unseen - start) as nat),
                self.same_counters(*old(self)),
                self.same_acks(*old(self)),
                self.same_congestion(*old(self)),
            decreases u64::MAX - self.lowest_unseen,
        {
            let chunk = self.reorderer.remove(&self.lowest_unseen);
            match chunk {
                Some(c) => {
                    delivered.push(c);
                },
                None => {},
            }
            self.lowest_unseen = self.lowest_unseen + 1;
            proof {
                assert(self.reorderer@ =~= stored.restrict(keys_from(self.lowest_unseen)));
                assert(delivered@ =~= values_from(
                    stored,
                    start,
                    (self.lowest_unseen - start) as nat,
                ));
            }
        }
        proof {
            assert forall|k: u64| #[trigger] self.reorderer@.contains_key(k) implies self.lowest_unseen
                < k && k < u64::MAX by {
                if k == self.lowest_unseen {
                    assert(stored.contains_key(k));
                }
            }
        }
        delivered
    }

    /// Records an acknowledgment. The round-trip-scale counter advances when
    /// more than `srtt_nanos` has passed since it last did; the result says
    /// whether it did. Growing the window is left to the caller, on every call.
    pub fn congestion_ack(&mut self, now: Moment, srtt_nanos: u64) -> (counted: bool)
        requires
            old(self).congestion.spec_flights() < u64::MAX,
        ensures
            old(self).congestion.acked(now, srtt_nanos, counted, final(self).congestion),
            final(self).same_counters(*old(self)),
            final(self).same_acks(*old(self)),
            final(self).same_reassembly(*old(self)),
    {
        let counted = now.saturating_nanos_since(&self.congestion.last_flight) > srtt_nanos;
        if counted {
            self.congestion.flights = self.congestion.flights + 1;
            self.congestion.last_flight = now;
        }
        counted
    }

    /// Records a detected loss. Slow start ends for good. The window is to be
    /// cut only when more than `srtt_nanos` has passed since the last cut; the
    /// result says whether it is, and a cut restarts that interval at `now`.
    pub fn congestion_loss(&mut self, now: Moment, srtt_nanos: u64) -> (cut: bool)
        ensures
            old(self).congestion.lost(now, srtt_nanos, cut, final(self).congestion),
            final(self).same_counters(*old(self)),
            final(self).same_acks(*old(self)),
            final(self).same_reassembly(*old(self)),
    {
        self.congestion.slow_start = false;
        let cut = now.saturating_nanos_since(&self.congestion.last_loss) > srtt_nanos;
        if cut {
            self.congestion.last_loss = now;
        }
        cut
    }

    /// Hands out the next outbound sequence number.
    pub fn alloc_seqno(&mut self) -> (seqno: u64)
        requires
            old(self).next_free_seqno < u64::MAX,
        ensures
            seqno == old(self).next_free_seqno,
            final(self).next_free_seqno == old(self).next_free_seqno + 1,
            final(self).retrans_count == old(self).retrans_count,
            final(self).closing == old(self).closing,
            final(self).same_acks(*old(self)),
            final(self).same_reassembly(*old(self)),
            final(self).same_congestion(*old(self)),
    {
        let seqno = self.next_free_seqno;
        self.next_free_seqno = seqno + 1;
        seqno
    }

    /// Counts one retransmission.
    pub fn count_retransmission(&mut self)
        requires
            old(self).retrans_count < u64::MAX,
        ensures
            final(self).retrans_count == old(self).retrans_count + 1,
            final(self).next_free_seqno == old(self).next_free_seqno,
            final(self).closing == old(self).closing,
            final(self).same_acks(*old(self)),
            final(self).same_reassembly(*old(self)),
            final(self).same_congestion(*old(self)),
    {
        self.retrans_count = self.retrans_count + 1;
    }

    /// Notes that `seqno` was received and is owed an acknowledgment. The
    /// deadline is kept when one is already pending, else set to `deadline`.
    /// The result says whether `seqno` was not owed before.
    pub fn schedule_ack(&mut self, seqno: u64, deadline: Moment) -> (fresh: bool)
        requires
            old(self).wf(),
        ensures
            final(self).wf(),
            fresh == !old(self).ack_seqnos@.contains(seqno),
            final(self).ack_seqnos@ == old(self).ack_seqnos@.insert(seqno),
            final(self).delayed_ack_timer == (match old(self).delayed_ack_timer {
                Some(d) => Some(d),
                None => Some(deadline),
            }),
            final(self).same_counters(*old(self)),
            final(self).same_reassembly(*old(self)),
            final(self).same_congestion(*old(self)),
    {
        let fresh = self.ack_seqnos.insert(seqno);
        if self.delayed_ack_timer.is_none() {
            self.delayed_ack_timer = Some(deadline);
        }
        proof {
            assert(self.ack_seqnos@.contains(seqno));
        }
        fresh
    }

    /// Takes every owed acknowledgment at once and clears the deadline. The
    /// returned set iterates in ascending order.
    pub fn take_pending_acks(&mut self) -> (acks: BTreeSet<u64>)
        requires
            old(self).wf(),
        ensures
            final(self).wf(),
            acks@ == old(self).ack_seqnos@,
            final(self).ack_seqnos@.is_empty(),
            final(self).delayed_ack_timer is None,
            final(self).same_counters(*old(self)),
            final(self).same_reassembly(*old(self)),
            final(self).same_congestion(*old(self)),
    {
        let mut acks: BTreeSet<u64> = BTreeSet::new();
        std::mem::swap(&mut self.ack_seqnos, &mut acks);
        self.delayed_ack_timer = None;
        acks
    }

    /// Signals that no new data is to be accepted; there is no way back.
    pub fn mark_closing(&mut self)
        ensures
            final(self).closing,
            final(self).next_free_seqno == old(self).next_free_seqno,
            final(self).retrans_count == old(self).retrans_count,
            final(self).same_acks(*old(self)),
            final(self).same_reassembly(*old(self)),
            final(self).same_congestion(*old(self)),
    {
        self.closing = true;
    }
}

} // verus!
