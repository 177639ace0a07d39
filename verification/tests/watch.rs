use algolings_cli::watch::{after_first_wait, settles, wait_for_quiet, Debouncer};
use std::sync::mpsc;
use std::sync::mpsc::{RecvError, RecvTimeoutError};
use std::time::{Duration, Instant};

#[test]
fn fresh_token_is_current() {
    let mut debouncer = Debouncer::new();
    let token = debouncer.bump();
    assert!(debouncer.is_current(token));
}

#[test]
fn superseded_token_is_no_longer_current() {
    let mut debouncer = Debouncer::new();
    let stale_token = debouncer.bump();
    let _fresh_token = debouncer.bump();
    assert!(!debouncer.is_current(stale_token));
}

#[test]
fn tokens_count_the_settled_changes() {
    let mut debouncer = Debouncer::default();
    assert!(debouncer.is_current(0));
    assert_eq!(debouncer.bump(), 1);
    assert_eq!(debouncer.bump(), 2);
    assert_eq!(debouncer.bump(), 3);
    assert!(debouncer.is_current(3));
    assert!(!debouncer.is_current(0));
    assert!(!debouncer.is_current(4));
}

#[test]
fn wait_for_quiet_returns_after_a_single_event_settles() {
    let (tx, mut rx) = mpsc::channel();
    tx.send(()).unwrap();
    let result = wait_for_quiet(&mut rx, Duration::from_millis(30));
    assert!(result.is_ok());
}

#[test]
fn wait_for_quiet_errors_when_sender_is_dropped_before_any_event() {
    let (tx, mut rx) = mpsc::channel::<()>();
    drop(tx);
    assert!(wait_for_quiet(&mut rx, Duration::from_millis(10)).is_err());
}

#[test]
fn wait_for_quiet_settles_promptly_if_sender_disconnects_after_an_event() {
    // The watcher shuts down in the middle of a wait: once an event has been
    // seen, the hang-up settles at once.
    let (tx, mut rx) = mpsc::channel();
    tx.send(()).unwrap();
    drop(tx);
    let start = Instant::now();
    let result = wait_for_quiet(&mut rx, Duration::from_millis(200));
    assert!(result.is_ok());
    assert!(start.elapsed() < Duration::from_millis(200));
}

#[test]
fn a_burst_of_events_is_drained_by_one_settle() {
    let (tx, mut rx) = mpsc::channel();
    for _ in 0..5 {
        tx.send(()).unwrap();
    }
    let start = Instant::now();
    assert_eq!(wait_for_quiet(&mut rx, Duration::from_millis(40)), Ok(()));
    assert!(start.elapsed() >= Duration::from_millis(40));
    assert!(rx.try_recv().is_err());
}

#[test]
fn an_early_hang_up_is_reported_as_such() {
    let (tx, mut rx) = mpsc::channel::<()>();
    drop(tx);
    assert_eq!(
        wait_for_quiet(&mut rx, Duration::from_millis(10)),
        Err(RecvTimeoutError::Disconnected)
    );
}

#[test]
fn every_answer_of_the_channel_is_judged() {
    assert_eq!(after_first_wait(Ok(())), Ok(()));
    assert_eq!(after_first_wait(Err(RecvError)), Err(RecvTimeoutError::Disconnected));
    assert!(!settles(Ok(())));
    assert!(settles(Err(RecvTimeoutError::Timeout)));
    assert!(settles(Err(RecvTimeoutError::Disconnected)));
}

#[test]
fn queued_events_make_one_trigger_whatever_the_quiet_period() {
    for period in [Duration::ZERO, Duration::from_millis(10), Duration::from_secs(60)] {
        for queued in 0..4 {
            let (tx, mut rx) = mpsc::channel();
            for _ in 0..queued {
                tx.send(()).unwrap();
            }
            drop(tx);
            assert_eq!(wait_for_quiet(&mut rx, period).is_ok(), queued >= 1);
            assert_eq!(rx.try_recv(), Err(mpsc::TryRecvError::Disconnected));
            assert_eq!(wait_for_quiet(&mut rx, period), Err(RecvTimeoutError::Disconnected));
        }
    }
}

#[test]
fn every_burst_is_one_settle_and_leaves_the_next_alone() {
    let (tx, mut rx) = mpsc::channel();
    for burst in 1..4 {
        for _ in 0..burst {
            tx.send(()).unwrap();
        }
        let start = Instant::now();
        assert_eq!(wait_for_quiet(&mut rx, Duration::from_millis(20)), Ok(()));
        assert!(start.elapsed() >= Duration::from_millis(20));
        assert_eq!(rx.try_recv(), Err(mpsc::TryRecvError::Empty));
    }
    drop(tx);
    assert_eq!(
        wait_for_quiet(&mut rx, Duration::from_millis(20)),
        Err(RecvTimeoutError::Disconnected)
    );
}
