use tokio::sync::mpsc;
use vllm_coldstart_probe::drain::{Drainer, PassEnd, Report, SendOutcome};
use vllm_coldstart_probe::event::{SizeMismatch, SyscallEvent};

fn record(timestamp_ns: u64) -> [u8; 32] {
    SyscallEvent::new_enter(timestamp_ns, 1, 2, 257).to_bytes()
}

#[test]
fn events_reach_the_channel_in_order() {
    let (mut tx, mut rx) = mpsc::channel::<SyscallEvent>(4);
    let mut drainer = Drainer::new();
    assert_eq!(drainer.forward(&record(10), &mut tx), Report::Forwarded);
    assert_eq!(drainer.forward(&record(20), &mut tx), Report::Forwarded);
    assert_eq!(drainer.total_drained(), 2);
    assert_eq!(drainer.total_dropped(), 0);
    let first = rx.try_recv().unwrap();
    assert_eq!(first.timestamp_ns, 10);
    assert_eq!((first.pid, first.tid, first.syscall_nr), (1, 2, 257));
    assert_eq!(rx.try_recv().unwrap().timestamp_ns, 20);
    assert!(rx.try_recv().is_err());
}

#[test]
fn a_full_channel_drops_events() {
    let (mut tx, mut rx) = mpsc::channel::<SyscallEvent>(1);
    let mut drainer = Drainer::new();
    assert_eq!(drainer.forward(&record(10), &mut tx), Report::Forwarded);
    assert_eq!(
        drainer.forward(&record(20), &mut tx),
        Report::Dropped { warn: false }
    );
    assert_eq!((drainer.total_drained(), drainer.total_dropped()), (1, 1));
    assert_eq!(rx.try_recv().unwrap().timestamp_ns, 10);
    assert!(rx.try_recv().is_err());
}

#[test]
fn a_closed_channel_ends_the_draining() {
    let (mut tx, rx) = mpsc::channel::<SyscallEvent>(1);
    drop(rx);
    let mut drainer = Drainer::new();
    assert_eq!(drainer.forward(&record(10), &mut tx), Report::ConsumerClosed);
    assert_eq!((drainer.total_drained(), drainer.total_dropped()), (0, 0));
}

#[test]
fn malformed_records_are_skipped() {
    let (mut tx, mut rx) = mpsc::channel::<SyscallEvent>(1);
    let mut drainer = Drainer::new();
    assert_eq!(
        drainer.forward(&[1, 2, 3], &mut tx),
        Report::Malformed(SizeMismatch {
            got: 3,
            expected: 32
        })
    );
    assert_eq!((drainer.total_drained(), drainer.total_dropped()), (0, 0));
    assert!(rx.try_recv().is_err());
    assert!(drainer.end_pass());
}

#[test]
fn losses_are_warned_of_at_every_thousandth() {
    let mut drainer = Drainer::new();
    let mut warnings = Vec::new();
    for i in 1..=2500 {
        if drainer.record(SendOutcome::Full) == (Report::Dropped { warn: true }) {
            warnings.push(i);
        }
    }
    assert_eq!(warnings, vec![1000, 2000]);
    assert_eq!(drainer.total_dropped(), 2500);
}

#[test]
fn passes_that_forward_nothing_pause() {
    let mut drainer = Drainer::new();
    assert!(drainer.end_pass());
    assert_eq!(drainer.record(SendOutcome::Sent), Report::Forwarded);
    assert_eq!(
        drainer.record(SendOutcome::Full),
        Report::Dropped { warn: false }
    );
    assert!(!drainer.end_pass());
    assert_eq!(
        drainer.record(SendOutcome::Full),
        Report::Dropped { warn: false }
    );
    assert!(drainer.end_pass());
    assert_eq!((drainer.total_drained(), drainer.total_dropped()), (1, 2));
}

#[test]
fn an_idle_drainer_stops_once_the_channel_is_closed() {
    let (tx, rx) = mpsc::channel::<SyscallEvent>(1);
    let mut drainer = Drainer::new();
    assert_eq!(drainer.finish_pass(tx.is_closed()), PassEnd::Pause);
    drop(rx);
    assert_eq!(drainer.finish_pass(tx.is_closed()), PassEnd::Stop);
}

#[test]
fn a_pass_ends_by_what_it_forwarded() {
    let mut drainer = Drainer::new();
    drainer.record(SendOutcome::Sent);
    assert_eq!(drainer.finish_pass(false), PassEnd::Continue);
    drainer.record(SendOutcome::Full);
    assert_eq!(drainer.finish_pass(false), PassEnd::Pause);
    drainer.record(SendOutcome::Sent);
    assert_eq!(drainer.finish_pass(true), PassEnd::Stop);
    assert_eq!(drainer.finish_pass(false), PassEnd::Pause);
    assert_eq!((drainer.total_drained(), drainer.total_dropped()), (2, 1));
}

#[test]
fn every_record_of_a_run_is_accounted_for() {
    let (mut tx, mut rx) = mpsc::channel::<SyscallEvent>(2);
    let mut drainer = Drainer::new();
    let mut received = Vec::new();
    let mut malformed = 0;
    let mut refused = 0;
    for i in 0..12u64 {
        let report = if i % 4 == 3 {
            drainer.forward(&[0; 31], &mut tx)
        } else {
            drainer.forward(&record(i), &mut tx)
        };
        match report {
            Report::Malformed(_) => malformed += 1,
            Report::ConsumerClosed => refused += 1,
            _ => {}
        }
        if i == 5 {
            assert_eq!(drainer.finish_pass(tx.is_closed()), PassEnd::Continue);
            while let Ok(event) = rx.try_recv() {
                received.push(event.timestamp_ns);
            }
        }
        if i == 9 {
            rx.close();
            while let Ok(event) = rx.try_recv() {
                received.push(event.timestamp_ns);
            }
        }
    }
    assert_eq!(received, vec![0, 1, 6, 8]);
    assert_eq!((drainer.total_drained(), drainer.total_dropped()), (4, 4));
    assert_eq!((malformed, refused), (3, 1));
}

#[test]
fn small_losses_are_warned_of_at_the_end() {
    let mut drainer = Drainer::new();
    assert!(!drainer.losses_unwarned());
    drainer.record(SendOutcome::Sent);
    assert!(!drainer.losses_unwarned());
    for _ in 1..1000 {
        assert_eq!(
            drainer.record(SendOutcome::Full),
            Report::Dropped { warn: false }
        );
        assert!(drainer.losses_unwarned());
    }
    assert_eq!(
        drainer.record(SendOutcome::Full),
        Report::Dropped { warn: true }
    );
    assert!(!drainer.losses_unwarned());
    drainer.record(SendOutcome::Full);
    assert!(!drainer.losses_unwarned());
}

#[test]
fn a_single_loss_on_a_full_channel_is_warned_of() {
    let (mut tx, rx) = mpsc::channel::<SyscallEvent>(1);
    let mut drainer = Drainer::new();
    drainer.forward(&record(1), &mut tx);
    drainer.forward(&record(2), &mut tx);
    drop(rx);
    assert_eq!(drainer.finish_pass(tx.is_closed()), PassEnd::Stop);
    assert_eq!(drainer.total_dropped(), 1);
    assert!(drainer.losses_unwarned());
}
