use vllm_coldstart_probe::consumer::{Action, Consumer, Input, Phase, StopReason};
use vllm_coldstart_probe::event::SyscallEvent;

fn event(timestamp_ns: u64, pid: u32) -> SyscallEvent {
    SyscallEvent::new_enter(timestamp_ns, pid, pid, 0)
}

/// Feeds an event whose writes and flushes all succeed. Gives the text that was
/// written and the number of flushes.
fn feed(consumer: &mut Consumer, event: SyscallEvent) -> (String, usize) {
    let mut text = String::new();
    let mut flushes = 0;
    let mut action = consumer.step(Input::Received(event));
    loop {
        match action {
            Action::Wait => return (text, flushes),
            Action::Write(part) => text.push_str(&part),
            Action::Flush => flushes += 1,
            Action::Finish(_) => unreachable!(),
        }
        action = consumer.step(Input::Completed(true));
    }
}

#[test]
fn one_line_for_each_event_of_the_process() {
    let mut consumer = Consumer::new(7);
    let mut output = String::new();
    for (timestamp_ns, pid) in [(1, 7), (2, 8), (3, 7), (4, 0)] {
        output.push_str(&feed(&mut consumer, event(timestamp_ns, pid)).0);
    }
    assert_eq!(
        output,
        "{\"timestamp_ns\":1,\"pid\":7,\"tid\":7,\"syscall_nr\":0,\"kind\":0,\"ret\":0}\n\
         {\"timestamp_ns\":3,\"pid\":7,\"tid\":7,\"syscall_nr\":0,\"kind\":0,\"ret\":0}\n"
    );
    assert_eq!(consumer.consumed, 2);
}

#[test]
fn events_of_other_processes_change_nothing() {
    let mut consumer = Consumer::new(7);
    assert!(matches!(
        consumer.step(Input::Received(event(1, 8))),
        Action::Wait
    ));
    assert_eq!(consumer, Consumer::new(7));
}

#[test]
fn the_output_is_flushed_at_every_thousandth_event() {
    let mut consumer = Consumer::new(7);
    let mut flushed_at = Vec::new();
    for i in 1..=2500u64 {
        if feed(&mut consumer, event(i, 7)).1 > 0 {
            flushed_at.push(i);
        }
    }
    assert_eq!(flushed_at, vec![1000, 2000]);
    assert_eq!(consumer.consumed, 2500);
}

#[test]
fn a_failed_object_is_passed_over() {
    let mut consumer = Consumer::new(7);
    assert!(matches!(
        consumer.step(Input::Received(event(1, 7))),
        Action::Write(_)
    ));
    assert!(matches!(
        consumer.step(Input::Completed(false)),
        Action::Wait
    ));
    assert_eq!(consumer.consumed, 1);
    assert_eq!(consumer.phase, Phase::Waiting);
    assert!(feed(&mut consumer, event(2, 7)).0.ends_with("}\n"));
}

#[test]
fn a_failed_object_takes_its_flush_with_it() {
    let mut consumer = Consumer::new(7);
    for i in 1..1000u64 {
        assert_eq!(feed(&mut consumer, event(i, 7)).1, 0);
    }
    consumer.step(Input::Received(event(1000, 7)));
    assert!(matches!(
        consumer.step(Input::Completed(false)),
        Action::Wait
    ));
    assert_eq!(feed(&mut consumer, event(1001, 7)).1, 0);
}

#[test]
fn a_failed_line_end_ends_the_capture() {
    let mut consumer = Consumer::new(7);
    consumer.step(Input::Received(event(1, 7)));
    match consumer.step(Input::Completed(true)) {
        Action::Write(text) => assert_eq!(text, "\n"),
        _ => panic!("a line end is due"),
    }
    assert!(matches!(
        consumer.step(Input::Completed(false)),
        Action::Flush
    ));
    assert!(matches!(
        consumer.step(Input::Completed(true)),
        Action::Finish(StopReason::NewlineFailed)
    ));
    assert_eq!(consumer.phase, Phase::Finished(StopReason::NewlineFailed));
}

#[test]
fn a_failed_flush_ends_the_capture() {
    let mut consumer = Consumer::new(7);
    for i in 1..1000u64 {
        feed(&mut consumer, event(i, 7));
    }
    consumer.step(Input::Received(event(1000, 7)));
    consumer.step(Input::Completed(true));
    assert!(matches!(
        consumer.step(Input::Completed(true)),
        Action::Flush
    ));
    assert_eq!(consumer.phase, Phase::Flush);
    assert!(matches!(
        consumer.step(Input::Completed(false)),
        Action::Flush
    ));
    assert!(matches!(
        consumer.step(Input::Completed(false)),
        Action::Finish(StopReason::FlushFailed)
    ));
}

#[test]
fn every_end_goes_through_a_last_flush() {
    for (input, reason) in [
        (Input::Interrupted, StopReason::Interrupted),
        (Input::DeadlineElapsed, StopReason::DeadlineElapsed),
        (Input::ChannelClosed, StopReason::ChannelClosed),
    ] {
        for flushed in [true, false] {
            let mut consumer = Consumer::new(7);
            assert!(matches!(consumer.step(input), Action::Flush));
            assert_eq!(consumer.phase, Phase::LastFlush(reason));
            match consumer.step(Input::Completed(flushed)) {
                Action::Finish(given) => assert_eq!(given, reason),
                _ => panic!("the capture is over"),
            }
        }
    }
}

#[test]
fn filtering_keeps_the_calls_of_a_thread_whole() {
    let mut consumer = Consumer::new(7);
    let mut output = String::new();
    for event in [
        SyscallEvent::new_enter(1, 7, 71, 0),
        SyscallEvent::new_enter(2, 8, 71, 0),
        SyscallEvent::new_enter(3, 7, 72, 0),
        SyscallEvent::new_exit(4, 8, 71, 0, 5),
        SyscallEvent::new_exit(6, 7, 71, 0, 512),
    ] {
        output.push_str(&feed(&mut consumer, event).0);
    }
    let thread: Vec<(u64, u64)> = output
        .lines()
        .map(|line| serde_json::from_str::<serde_json::Value>(line).unwrap())
        .filter(|value| value["tid"].as_u64() == Some(71))
        .map(|value| {
            (
                value["timestamp_ns"].as_u64().unwrap(),
                value["kind"].as_u64().unwrap(),
            )
        })
        .collect();
    assert_eq!(thread, vec![(1, 0), (6, 1)]);
}

#[test]
fn a_failed_object_between_flushes_costs_no_flush() {
    let mut consumer = Consumer::new(7);
    let mut finished = 0;
    for i in 1..=1000u64 {
        if i == 500 {
            consumer.step(Input::Received(event(i, 7)));
            consumer.step(Input::Completed(false));
            continue;
        }
        finished += 1;
        assert_eq!(feed(&mut consumer, event(i, 7)).1, usize::from(i == 1000));
    }
    assert_eq!(finished, 999);
    assert_eq!(consumer.consumed, 1000);
}
