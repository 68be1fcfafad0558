use bytes::Bytes;
use relconn::{ConnVars, Moment};

const MS: u64 = 1_000_000;

fn at(ms: u64) -> Moment {
    Moment::from_nanos(ms * MS)
}

fn chunk(tag: u8) -> Bytes {
    Bytes::from(vec![tag; 3])
}

#[test]
fn new_connection_starts_empty() {
    let vars = ConnVars::new(at(7));
    assert_eq!(vars.next_free_seqno, 0);
    assert_eq!(vars.retrans_count, 0);
    assert_eq!(vars.delayed_ack_timer, None);
    assert!(vars.ack_seqnos.is_empty());
    assert!(vars.reorderer.is_empty());
    assert_eq!(vars.lowest_unseen, 0);
    assert!(vars.congestion.slow_start());
    assert_eq!(vars.congestion.last_loss(), at(7));
    assert_eq!(vars.congestion.flights(), 0);
    assert_eq!(vars.congestion.last_flight(), at(7));
    assert!(!vars.closing);
}

#[test]
fn allocated_seqnos_strictly_increase() {
    let mut vars = ConnVars::new(at(0));
    let issued: Vec<u64> = (0..5).map(|_| vars.alloc_seqno()).collect();
    assert_eq!(issued, vec![0, 1, 2, 3, 4]);
    assert_eq!(vars.next_free_seqno, 5);
}

#[test]
fn retransmissions_are_counted() {
    let mut vars = ConnVars::new(at(0));
    vars.count_retransmission();
    vars.count_retransmission();
    assert_eq!(vars.retrans_count, 2);
    assert_eq!(vars.next_free_seqno, 0);
}

#[test]
fn first_pending_ack_sets_the_deadline() {
    let mut vars = ConnVars::new(at(0));
    assert!(vars.schedule_ack(5, at(10)));
    assert_eq!(vars.delayed_ack_timer, Some(at(10)));
    assert!(vars.schedule_ack(3, at(20)));
    assert_eq!(vars.delayed_ack_timer, Some(at(10)));
    assert!(!vars.schedule_ack(5, at(30)));
    assert_eq!(vars.delayed_ack_timer, Some(at(10)));
    assert_eq!(vars.ack_seqnos.len(), 2);
}

#[test]
fn taking_acks_clears_set_and_deadline() {
    let mut vars = ConnVars::new(at(0));
    for s in [9, 2, 7, 2] {
        vars.schedule_ack(s, at(40));
    }
    let acks = vars.take_pending_acks();
    assert_eq!(acks.into_iter().collect::<Vec<u64>>(), vec![2, 7, 9]);
    assert!(vars.ack_seqnos.is_empty());
    assert_eq!(vars.delayed_ack_timer, None);
    assert!(vars.schedule_ack(1, at(50)));
    assert_eq!(vars.delayed_ack_timer, Some(at(50)));
}

#[test]
fn gap_then_fill_drains_in_order() {
    let mut vars = ConnVars::new(at(0));
    assert!(vars.receive_chunk(5, chunk(5)).is_empty());
    assert_eq!(vars.lowest_unseen, 0);
    for s in 0..4u64 {
        let out = vars.receive_chunk(s, chunk(s as u8));
        assert_eq!(out, vec![chunk(s as u8)]);
        assert_eq!(vars.lowest_unseen, s + 1);
    }
    let out = vars.receive_chunk(4, chunk(4));
    assert_eq!(out, vec![chunk(4), chunk(5)]);
    assert_eq!(vars.lowest_unseen, 6);
    assert!(vars.reorderer.is_empty());
}

#[test]
fn out_of_order_run_delivers_at_once() {
    let mut vars = ConnVars::new(at(0));
    for s in [3u64, 1, 2, 6] {
        assert!(vars.receive_chunk(s, chunk(s as u8)).is_empty());
    }
    let out = vars.receive_chunk(0, chunk(0));
    assert_eq!(out, vec![chunk(0), chunk(1), chunk(2), chunk(3)]);
    assert_eq!(vars.lowest_unseen, 4);
    assert_eq!(vars.reorderer.keys().copied().collect::<Vec<u64>>(), vec![6]);
}

#[test]
fn chunk_behind_cursor_is_dropped() {
    let mut vars = ConnVars::new(at(0));
    vars.receive_chunk(0, chunk(0));
    vars.receive_chunk(1, chunk(1));
    vars.receive_chunk(3, chunk(3));
    let out = vars.receive_chunk(0, chunk(9));
    assert!(out.is_empty());
    assert_eq!(vars.lowest_unseen, 2);
    assert_eq!(vars.reorderer.keys().copied().collect::<Vec<u64>>(), vec![3]);
}

#[test]
fn same_chunk_twice_changes_nothing_more() {
    let mut once = ConnVars::new(at(0));
    let mut twice = ConnVars::new(at(0));
    for vars in [&mut once, &mut twice] {
        vars.receive_chunk(0, chunk(0));
        vars.receive_chunk(2, chunk(2));
    }
    assert!(twice.receive_chunk(2, chunk(2)).is_empty());
    assert!(twice.receive_chunk(0, chunk(0)).is_empty());
    assert_eq!(twice.lowest_unseen, once.lowest_unseen);
    assert_eq!(twice.reorderer, once.reorderer);
}

#[test]
fn ack_within_round_trip_counts_no_flight() {
    let mut vars = ConnVars::new(at(0));
    assert!(!vars.congestion_ack(at(0), 100 * MS));
    assert_eq!(vars.congestion.flights(), 0);
    assert!(vars.congestion.slow_start());
    assert!(!vars.congestion_ack(at(100), 100 * MS));
    assert_eq!(vars.congestion.flights(), 0);
}

#[test]
fn ack_after_round_trip_counts_a_flight() {
    let mut vars = ConnVars::new(at(0));
    assert!(vars.congestion_ack(at(101), 100 * MS));
    assert_eq!(vars.congestion.flights(), 1);
    assert_eq!(vars.congestion.last_flight(), at(101));
    assert!(!vars.congestion_ack(at(150), 100 * MS));
    assert!(vars.congestion_ack(at(250), 100 * MS));
    assert_eq!(vars.congestion.flights(), 2);
    assert_eq!(vars.congestion.last_loss(), at(0));
}

#[test]
fn immediate_loss_leaves_slow_start_without_cut() {
    let mut vars = ConnVars::new(at(0));
    assert!(!vars.congestion_loss(at(0), 100 * MS));
    assert!(!vars.congestion.slow_start());
    assert_eq!(vars.congestion.last_loss(), at(0));
}

#[test]
fn spaced_losses_each_cut() {
    let mut vars = ConnVars::new(at(0));
    for t in [150u64, 300, 451, 700] {
        assert!(vars.congestion_loss(at(t), 100 * MS));
        assert_eq!(vars.congestion.last_loss(), at(t));
    }
}

#[test]
fn burst_of_losses_cuts_once() {
    let mut vars = ConnVars::new(at(0));
    let cuts: Vec<bool> = [200u64, 210, 250, 300]
        .iter()
        .map(|&t| vars.congestion_loss(at(t), 100 * MS))
        .collect();
    assert_eq!(cuts, vec![true, false, false, false]);
    assert_eq!(vars.congestion.last_loss(), at(200));
}

#[test]
fn clock_running_backward_counts_as_no_time() {
    let mut vars = ConnVars::new(at(500));
    assert!(!vars.congestion_loss(at(100), 0));
    assert!(!vars.congestion_ack(at(100), 0));
    assert_eq!(at(100).saturating_nanos_since(&at(500)), 0);
    assert_eq!(at(500).saturating_nanos_since(&at(100)), 400 * MS);
    assert!(vars.congestion_loss(at(501), 0));
}

#[test]
fn slow_start_never_returns() {
    let mut vars = ConnVars::new(at(0));
    vars.congestion_ack(at(10), 100 * MS);
    assert!(vars.congestion.slow_start());
    vars.congestion_loss(at(20), 100 * MS);
    assert!(!vars.congestion.slow_start());
    for t in 3..10u64 {
        vars.congestion_ack(at(t * 100), 100 * MS);
        assert!(!vars.congestion.slow_start());
    }
}

#[test]
fn closing_is_one_way() {
    let mut vars = ConnVars::new(at(0));
    vars.mark_closing();
    assert!(vars.closing);
    vars.mark_closing();
    assert!(vars.closing);
    assert_eq!(vars.alloc_seqno(), 0);
}
