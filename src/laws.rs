use bytes::Bytes;
use vstd::prelude::*;

use crate::clock::{elapsed, Moment};
use crate::connvars::{Congestion, ConnVars};
use crate::reassembly::keys_from;

verus! {

/// Sequence numbers handed out one after another strictly increase, so none
/// is handed out twice.
pub proof fn lemma_allocations_distinct(states: Seq<ConnVars>, issued: Seq<u64>)
    requires
        states.len() == issued.len() + 1,
        forall|i: int|
            0 <= i < issued.len() ==> #[trigger] issued[i] == states[i].next_free_seqno
                && states[i + 1].next_free_seqno == states[i].next_free_seqno + 1,
    ensures
        forall|i: int, j: int|
            0 <= i < j < states.len() ==> states[i].next_free_seqno
                < states[j].next_free_seqno,
        forall|i: int, j: int| 0 <= i < j < issued.len() ==> issued[i] < issued[j],
{
    assert forall|i: int| 0 <= i < states.len() implies #[trigger] states[i].next_free_seqno
        == states[0].next_free_seqno + i by {
        lemma_allocation_offset(states, issued, i);
    }
    assert forall|i: int, j: int| 0 <= i < j < issued.len() implies issued[i] < issued[j] by {
        assert(issued[i] == states[i].next_free_seqno);
        assert(issued[j] == states[j].next_free_seqno);
    }
}

proof fn lemma_allocation_offset(states: Seq<ConnVars>, issued: Seq<u64>, i: int)
    requires
        states.len() == issued.len() + 1,
        forall|i: int|
            0 <= i < issued.len() ==> #[trigger] issued[i] == states[i].next_free_seqno
                && states[i + 1].next_free_seqno == states[i].next_free_seqno + 1,
        0 <= i < states.len(),
    ensures
        states[i].next_free_seqno == states[0].next_free_seqno + i,
    decreases i,
{
    if i > 0 {
        lemma_allocation_offset(states, issued, i - 1);
        assert(issued[i - 1] == states[i - 1].next_free_seqno);
    }
}

/// Over any run of receipts from a well-formed state, the delivery cursor
/// never moves back, and after each receipt no held chunk lies at or behind
/// the cursor.
pub proof fn lemma_receipts_keep_cursor(
    states: Seq<ConnVars>,
    seqnos: Seq<u64>,
    payloads: Seq<Bytes>,
    delivered: Seq<Seq<Bytes>>,
)
    requires
        states.len() == seqnos.len() + 1,
        payloads.len() == seqnos.len(),
        delivered.len() == seqnos.len(),
        states[0].wf(),
        forall|i: int|
            0 <= i < seqnos.len() ==> states[i].received(
                seqnos[i],
                payloads[i],
                states[i + 1],
                #[trigger] delivered[i],
            ),
    ensures
        forall|i: int, j: int|
            0 <= i <= j < states.len() ==> states[i].lowest_unseen <= states[j].lowest_unseen,
        forall|i: int, k: u64|
            0 <= i < states.len() && #[trigger] states[i].reorderer@.contains_key(k)
                ==> states[i].lowest_unseen < k,
{
    assert forall|i: int, j: int| 0 <= i <= j < states.len() implies states[i].lowest_unseen
        <= states[j].lowest_unseen by {
        lemma_cursor_monotone(states, seqnos, payloads, delivered, i, j);
    }
    assert forall|i: int, k: u64|
        0 <= i < states.len() && #[trigger] states[i].reorderer@.contains_key(
            k,
        ) implies states[i].lowest_unseen < k by {
        if i > 0 {
            assert(states[i - 1].received(
                seqnos[i - 1],
                payloads[i - 1],
                states[i],
                delivered[i - 1],
            ));
        }
    }
}

proof fn lemma_cursor_monotone(
    states: Seq<ConnVars>,
    seqnos: Seq<u64>,
    payloads: Seq<Bytes>,
    delivered: Seq<Seq<Bytes>>,
    i: int,
    j: int,
)
    requires
        states.len() == seqnos.len() + 1,
        payloads.len() == seqnos.len(),
        delivered.len() == seqnos.len(),
        forall|i: int|
            0 <= i < seqnos.len() ==> states[i].received(
                seqnos[i],
                payloads[i],
                states[i + 1],
                #[trigger] delivered[i],
            ),
        0 <= i <= j < states.len(),
    ensures
        states[i].lowest_unseen <= states[j].lowest_unseen,
    decreases j - i,
{
    if i < j {
        lemma_cursor_monotone(states, seqnos, payloads, delivered, i, j - 1);
        assert(states[j - 1].received(
            seqnos[j - 1],
            payloads[j - 1],
            states[j],
            delivered[j - 1],
        ));
    }
}

/// Receiving the same chunk at the same sequence number a second time
/// delivers nothing more and leaves the cursor and the held chunks as the
/// first receipt left them.
pub proof fn lemma_receive_idempotent(
    first: ConnVars,
    once: ConnVars,
    twice: ConnVars,
    seqno: u64,
    payload: Bytes,
    delivered_once: Seq<Bytes>,
    delivered_twice: Seq<Bytes>,
)
    requires
        first.wf(),
        first.received(seqno, payload, once, delivered_once),
        once.received(seqno, payload, twice, delivered_twice),
    ensures
        twice.lowest_unseen == once.lowest_unseen,
        twice.reorderer@ == once.reorderer@,
        delivered_twice.len() == 0,
{
    let stored = once.stored_after(seqno, payload);
    if seqno >= once.lowest_unseen {
        assert(first.stored_after(seqno, payload).contains_key(seqno));
        assert(once.reorderer@.contains_key(seqno));
        assert(stored =~= once.reorderer@);
    }
    assert(!stored.contains_key(once.lowest_unseen));
    assert(stored.restrict(keys_from(once.lowest_unseen)) =~= once.reorderer@);
}

/// Losses each more than one round-trip time after the window was last cut,
/// and after one another, each cut the window.
pub proof fn lemma_spaced_losses_all_cut(
    states: Seq<Congestion>,
    times: Seq<Moment>,
    srtt_nanos: u64,
    cuts: Seq<bool>,
)
    requires
        states.len() == times.len() + 1,
        cuts.len() == times.len(),
        forall|i: int|
            0 <= i < times.len() ==> states[i].lost(
                times[i],
                srtt_nanos,
                #[trigger] cuts[i],
                states[i + 1],
            ),
        times.len() > 0 ==> elapsed(times[0], states[0].spec_last_loss()) > srtt_nanos,
        forall|i: int| 0 < i < times.len() ==> elapsed(#[trigger] times[i], times[i - 1]) > srtt_nanos,
    ensures
        forall|i: int| 0 <= i < cuts.len() ==> #[trigger] cuts[i],
{
    assert forall|i: int| 0 <= i < cuts.len() implies #[trigger] cuts[i] by {
        lemma_spaced_loss_cuts(states, times, srtt_nanos, cuts, i);
    }
}

proof fn lemma_spaced_loss_cuts(
    states: Seq<Congestion>,
    times: Seq<Moment>,
    srtt_nanos: u64,
    cuts: Seq<bool>,
    i: int,
)
    requires
        states.len() == times.len() + 1,
        cuts.len() == times.len(),
        forall|i: int|
            0 <= i < times.len() ==> states[i].lost(
                times[i],
                srtt_nanos,
                #[trigger] cuts[i],
                states[i + 1],
            ),
        times.len() > 0 ==> elapsed(times[0], states[0].spec_last_loss()) > srtt_nanos,
        forall|i: int| 0 < i < times.len() ==> elapsed(#[trigger] times[i], times[i - 1]) > srtt_nanos,
        0 <= i < times.len(),
    ensures
        cuts[i],
        states[i + 1].spec_last_loss() == times[i],
    decreases i,
{
    if i > 0 {
        lemma_spaced_loss_cuts(states, times, srtt_nanos, cuts, i - 1);
        assert(elapsed(times[i], times[i - 1]) > srtt_nanos);
    }
    assert(states[i].lost(times[i], srtt_nanos, cuts[i], states[i + 1]));
}

/// Of a burst of losses that all fall within one round-trip time of the
/// first, where the first comes more than one round-trip time after the last
/// cut, only the first cuts the window.
pub proof fn lemma_burst_losses_cut_once(
    states: Seq<Congestion>,
    times: Seq<Moment>,
    srtt_nanos: u64,
    cuts: Seq<bool>,
)
    requires
        states.len() == times.len() + 1,
        cuts.len() == times.len(),
        times.len() > 0,
        forall|i: int|
            0 <= i < times.len() ==> states[i].lost(
                times[i],
                srtt_nanos,
                #[trigger] cuts[i],
                states[i + 1],
            ),
        elapsed(times[0], states[0].spec_last_loss()) > srtt_nanos,
        forall|i: int| 0 <= i < times.len() ==> elapsed(#[trigger] times[i], times[0]) <= srtt_nanos,
    ensures
        cuts[0],
        forall|i: int| 0 < i < cuts.len() ==> !#[trigger] cuts[i],
{
    assert(states[0].lost(times[0], srtt_nanos, cuts[0], states[1]));
    assert forall|i: int| 0 < i < cuts.len() implies !#[trigger] cuts[i] by {
        lemma_burst_keeps_first_cut(states, times, srtt_nanos, cuts, i);
    }
}

proof fn lemma_burst_keeps_first_cut(
    states: Seq<Congestion>,
    times: Seq<Moment>,
    srtt_nanos: u64,
    cuts: Seq<bool>,
    i: int,
)
    requires
        states.len() == times.len() + 1,
        cuts.len() == times.len(),
        times.len() > 0,
        forall|i: int|
            0 <= i < times.len() ==> states[i].lost(
                times[i],
                srtt_nanos,
                #[trigger] cuts[i],
                states[i + 1],
            ),
        elapsed(times[0], states[0].spec_last_loss()) > srtt_nanos,
        forall|i: int| 0 <= i < times.len() ==> elapsed(#[trigger] times[i], times[0]) <= srtt_nanos,
        0 < i < times.len(),
    ensures
        !cuts[i],
        states[i + 1].spec_last_loss() == times[0],
    decreases i,
{
    assert(states[0].lost(times[0], srtt_nanos, cuts[0], states[1]));
    if i > 1 {
        lemma_burst_keeps_first_cut(states, times, srtt_nanos, cuts, i - 1);
    }
    assert(elapsed(times[i], times[0]) <= srtt_nanos);
    assert(states[i].lost(times[i], srtt_nanos, cuts[i], states[i + 1]));
}

/// Over any run of acknowledgments and losses (`is_loss[i]` telling which
/// event came at step `i`), the connection is in slow start exactly while it
/// started in slow start and no loss has come yet.
pub proof fn lemma_slow_start_one_way(
    states: Seq<Congestion>,
    is_loss: Seq<bool>,
    times: Seq<Moment>,
    srtts: Seq<u64>,
    results: Seq<bool>,
)
    requires
        states.len() == is_loss.len() + 1,
        times.len() == is_loss.len(),
        srtts.len() == is_loss.len(),
        results.len() == is_loss.len(),
        forall|i: int|
            0 <= i < is_loss.len() ==> if #[trigger] is_loss[i] {
                states[i].lost(times[i], srtts[i], results[i], states[i + 1])
            } else {
                states[i].acked(times[i], srtts[i], results[i], states[i + 1])
            },
    ensures
        forall|j: int|
            0 <= j < states.len() ==> (#[trigger] states[j].spec_slow_start() <==> (
            states[0].spec_slow_start() && forall|i: int| 0 <= i < j ==> !is_loss[i])),
{
    assert forall|j: int| 0 <= j < states.len() implies (#[trigger] states[j].spec_slow_start() <==> (
    states[0].spec_slow_start() && forall|i: int| 0 <= i < j ==> !is_loss[i])) by {
        lemma_slow_start_prefix(states, is_loss, times, srtts, results, j);
    }
}

proof fn lemma_slow_start_prefix(
    states: Seq<Congestion>,
    is_loss: Seq<bool>,
    times: Seq<Moment>,
    srtts: Seq<u64>,
    results: Seq<bool>,
    j: int,
)
    requires
        states.len() == is_loss.len() + 1,
        times.len() == is_loss.len(),
        srtts.len() == is_loss.len(),
        results.len() == is_loss.len(),
        forall|i: int|
            0 <= i < is_loss.len() ==> if #[trigger] is_loss[i] {
                states[i].lost(times[i], srtts[i], results[i], states[i + 1])
            } else {
                states[i].acked(times[i], srtts[i], results[i], states[i + 1])
            },
        0 <= j < states.len(),
    ensures
        states[j].spec_slow_start() <==> (states[0].spec_slow_start() && forall|i: int|
            0 <= i < j ==> !is_loss[i]),
    decreases j,
{
    if j > 0 {
        lemma_slow_start_prefix(states, is_loss, times, srtts, results, j - 1);
        if is_loss[j - 1] {
            assert(states[j - 1].lost(times[j - 1], srtts[j - 1], results[j - 1], states[j]));
        } else {
            assert(states[j - 1].acked(times[j - 1], srtts[j - 1], results[j - 1], states[j]));
            assert((forall|i: int| 0 <= i < j ==> !is_loss[i]) <==> (forall|i: int|
                0 <= i < j - 1 ==> !is_loss[i]));
        }
    }
}

} // verus!
