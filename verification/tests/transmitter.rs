use lanmic::transmitter::{Backlog, TxShared, MAX_BURST_FRAMES};

#[test]
fn bursts_put_aside_are_kept_in_order_until_settled() {
    let mut shared = TxShared::default();
    let mut backlog = Backlog::new(2);
    backlog.keep(&[1, 2, 3, 4]);
    // Half a frame at the end would turn the channels round.
    backlog.keep(&[5, 6, 7]);
    assert_eq!(backlog.samples(), [1, 2, 3, 4, 5, 6]);
    backlog.settle(&mut shared);
    assert!(backlog.samples().is_empty());
    assert_eq!(shared.stats().frames_dropped, 0);
}

#[test]
fn what_a_backlog_has_no_room_for_is_accounted_for() {
    let mut shared = TxShared::default();
    let mut backlog = Backlog::new(1);
    backlog.keep(&vec![7; MAX_BURST_FRAMES - 10]);
    backlog.keep(&[8; 11]);
    // There is room for this one, but not behind a hole.
    backlog.keep(&[9; 5]);
    assert_eq!(backlog.samples(), vec![7; MAX_BURST_FRAMES - 10]);
    backlog.settle(&mut shared);
    assert_eq!(shared.stats().frames_dropped, 16);
    assert_eq!(shared.pending_gap, 16);

    // It starts over.
    backlog.keep(&[1; 5]);
    assert_eq!(backlog.samples(), [1; 5]);
}

#[test]
fn a_full_backlog_is_one_burst() {
    let mut backlog = Backlog::new(0);
    backlog.keep(&vec![3; MAX_BURST_FRAMES]);
    assert_eq!(backlog.samples().len(), MAX_BURST_FRAMES);
}
