use lanmic::supervisor::{
    Supervisor, Tick, MAX_REOPEN_BACKOFF_MS, SUPERVISOR_TICK_MS,
};

/// Runs a supervisor over scripted opens and restarts, counting what it did.
fn run(
    opens: &[bool],
    restarts: &[bool],
    ticks: usize,
) -> Option<(usize, usize, Vec<u64>, usize)> {
    let mut attempts = 0usize;
    let mut open = |attempts: &mut usize| {
        let ok = opens.get(*attempts).copied().unwrap_or(true);
        *attempts += 1;
        ok
    };
    let first = open(&mut attempts);
    let mut live = usize::from(first);
    let mut most = live;
    let mut closes = 0usize;
    let mut waits = Vec::new();
    let mut s = Supervisor::start(first)?;
    for i in 0..=ticks {
        let running = i < ticks;
        let restart = restarts.get(i).copied().unwrap_or(false);
        match s.tick(running, restart) {
            Tick::Stop { close } => {
                assert_eq!(close, live == 1);
                if close {
                    closes += 1;
                    live -= 1;
                }
                break;
            }
            Tick::Go {
                publish,
                close,
                open: reopen,
            } => {
                assert_eq!(publish, live == 1);
                if close {
                    closes += 1;
                    live -= 1;
                }
                if reopen {
                    let ok = open(&mut attempts);
                    live += usize::from(ok);
                    most = most.max(live);
                    if let Some(wait) = s.reopened(ok) {
                        waits.push(wait);
                    }
                }
            }
        }
    }
    assert_eq!(live, 0, "leaked a stream");
    Some((attempts, closes, waits, most))
}

#[test]
fn a_failed_first_open_is_reported_and_gives_up() {
    // A start that cannot open is the caller's to report, not something to
    // retry behind their back.
    assert_eq!(Supervisor::start(false), None);
    assert!(run(&[false], &[], 5).is_none());
}

#[test]
fn the_stream_is_closed_when_running_goes_false() {
    let (opens, closes, waits, most) = run(&[true], &[], 1).unwrap();
    assert_eq!((opens, closes, most), (1, 1, 1));
    assert!(waits.is_empty());
}

#[test]
fn a_restart_request_closes_the_old_stream_before_opening_the_new_one() {
    let (opens, closes, _, most) = run(&[true, true], &[true], 3).unwrap();
    assert_eq!(opens, 2, "did not reopen");
    assert_eq!(closes, 2, "leaked a stream");
    assert_eq!(most, 1, "two streams at once");
}

#[test]
fn the_wait_doubles_up_to_a_ceiling_and_starts_over_on_success() {
    let fails = [
        true, false, false, false, false, false, false, true, false, true,
    ];
    let (opens, closes, waits, most) = run(&fails, &[true, false, false, false, false, false, false, true], 12).unwrap();
    assert_eq!(waits, [200, 400, 800, 1600, 3200, 3200, 200]);
    assert_eq!(most, 1);
    assert_eq!(opens, 10);
    assert_eq!(closes, 3);
    assert_eq!((SUPERVISOR_TICK_MS, MAX_REOPEN_BACKOFF_MS), (200, 3200));
}

#[test]
fn a_failed_reopen_is_tried_again_until_the_session_ends() {
    // Up, restarted, three failures in a row, and the session ends without a stream.
    let (opens, closes, waits, most) = run(&[true, false, false, false], &[true], 3).unwrap();
    assert_eq!((opens, closes, most), (4, 1, 1));
    assert_eq!(waits, [200, 400, 800]);
}
