//! The consumer: keeps the events of one process and writes them as JSON Lines.
//!
//! `Consumer` decides, the caller acts: it waits, writes or flushes as it is told
//! and hands back what happened.
use crate::event::SyscallEvent;
use crate::json::object_text;
use vstd::prelude::*;

verus! {

/// The output is flushed at each multiple of this number of consumed events.
pub const FLUSH_EVERY: u64 = 1000;

/// Why a capture ends.
#[derive(Clone, Copy, Debug, PartialEq, Eq, Structural)]
pub enum StopReason {
    /// The user interrupted it.
    Interrupted,
    /// Its time is over.
    DeadlineElapsed,
    /// The drainer is gone.
    ChannelClosed,
    /// A line end could not be written.
    NewlineFailed,
    /// The output could not be flushed.
    FlushFailed,
}

/// What the consumer is waiting for.
#[derive(Clone, Copy, Debug, PartialEq, Eq, Structural)]
pub enum Phase {
    /// An event, or the end of the capture.
    Waiting,
    /// The outcome of writing an object.
    Object,
    /// The outcome of writing the line end behind an object.
    Newline,
    /// The outcome of a flush while the capture goes on.
    Flush,
    /// The outcome of the last flush.
    LastFlush(StopReason),
    /// Nothing: the capture is over.
    Finished(StopReason),
}

/// What happened.
#[derive(Clone, Copy, Debug)]
pub enum Input {
    /// The user interrupted the capture.
    Interrupted,
    /// The time of the capture is over.
    DeadlineElapsed,
    /// An event came over the channel.
    Received(SyscallEvent),
    /// The channel was closed.
    ChannelClosed,
    /// What the last action asked for succeeded, or failed.
    Completed(bool),
}

/// What to do next.
#[derive(Debug)]
pub enum Action {
    /// Wait for an event or for the end of the capture.
    Wait,
    /// Write this text to the output.
    Write(String),
    /// Flush the output.
    Flush,
    /// End the capture.
    Finish(StopReason),
}

/// An action, its text taken as a sequence of characters.
pub ghost enum Step {
    Wait,
    Write(Seq<char>),
    Flush,
    Finish(StopReason),
}

impl View for Action {
    type V = Step;

    open spec fn view(&self) -> Step {
        match *self {
            Action::Wait => Step::Wait,
            Action::Write(text) => Step::Write(text@),
            Action::Flush => Step::Flush,
            Action::Finish(reason) => Step::Finish(reason),
        }
    }
}

/// Whether `input` can happen in `phase`: waiting ends with an event or with the end
/// of the capture, and an action ends with its outcome.
pub open spec fn can_happen(phase: Phase, input: Input) -> bool {
    match phase {
        Phase::Waiting => !(input is Completed),
        Phase::Finished(_) => false,
        _ => input is Completed,
    }
}

/// The state of a consumer.
#[derive(Clone, Copy, Debug, PartialEq, Eq, Structural)]
pub struct Consumer {
    /// The process whose events are kept.
    pub pid: u32,
    /// The number of events of that process so far.
    pub consumed: u64,
    /// What the consumer is waiting for.
    pub phase: Phase,
}

/// The end of a line of output.
pub open spec fn line_end() -> Seq<char> {
    "\n"@
}

impl Consumer {
    /// What is done when `input` happens.
    pub open spec fn step_for(self, input: Input) -> Step {
        match (self.phase, input) {
            (Phase::Waiting, Input::Received(event)) => if event.pid == self.pid {
                Step::Write(object_text(event))
            } else {
                Step::Wait
            },
            (Phase::Waiting, _) => Step::Flush,
            (Phase::Object, Input::Completed(true)) => Step::Write(line_end()),
            (Phase::Newline, Input::Completed(true)) => if self.consumed % FLUSH_EVERY == 0 {
                Step::Flush
            } else {
                Step::Wait
            },
            (Phase::Newline, Input::Completed(false)) => Step::Flush,
            (Phase::Flush, Input::Completed(false)) => Step::Flush,
            (Phase::LastFlush(reason), _) => Step::Finish(reason),
            _ => Step::Wait,
        }
    }

    /// What the consumer waits for once `input` has happened.
    pub open spec fn phase_after(self, input: Input) -> Phase {
        match (self.phase, input) {
            (Phase::Waiting, Input::Interrupted) => Phase::LastFlush(StopReason::Interrupted),
            (Phase::Waiting, Input::DeadlineElapsed) => Phase::LastFlush(
                StopReason::DeadlineElapsed,
            ),
            (Phase::Waiting, Input::ChannelClosed) => Phase::LastFlush(StopReason::ChannelClosed),
            (Phase::Waiting, Input::Received(event)) => if event.pid == self.pid {
                Phase::Object
            } else {
                Phase::Waiting
            },
            (Phase::Object, Input::Completed(true)) => Phase::Newline,
            (Phase::Newline, Input::Completed(true)) => if self.consumed % FLUSH_EVERY == 0 {
                Phase::Flush
            } else {
                Phase::Waiting
            },
            (Phase::Newline, Input::Completed(false)) => Phase::LastFlush(
                StopReason::NewlineFailed,
            ),
            (Phase::Flush, Input::Completed(false)) => Phase::LastFlush(StopReason::FlushFailed),
            (Phase::LastFlush(reason), _) => Phase::Finished(reason),
            _ => Phase::Waiting,
        }
    }

    /// Whether `input` is an event of the process whose events are kept.
    pub open spec fn keeps(self, input: Input) -> bool {
        input matches Input::Received(event) && event.pid == self.pid
    }

    /// The consumer once `input` has happened.
    pub open spec fn after(self, input: Input) -> Consumer {
        Consumer {
            pid: self.pid,
            consumed: if self.keeps(input) {
                (self.consumed + 1) as u64
            } else {
                self.consumed
            },
            phase: self.phase_after(input),
        }
    }

    /// A consumer of the events of the process `pid`, with nothing consumed yet.
    pub fn new(pid: u32) -> (consumer: Self)
        ensures
            consumer == (Consumer { pid, consumed: 0, phase: Phase::Waiting }),
    {
        Consumer { pid, consumed: 0, phase: Phase::Waiting }
    }

    /// Ends the capture: what is left is the last flush.
    fn stop(&mut self, reason: StopReason) -> (action: Action)
        ensures
            *final(self) == (Consumer { phase: Phase::LastFlush(reason), ..*old(self) }),
            action@ == Step::Flush,
    {
        self.phase = Phase::LastFlush(reason);
        Action::Flush
    }

    /// Waits for the next event.
    fn wait(&mut self) -> (action: Action)
        ensures
            *final(self) == (Consumer { phase: Phase::Waiting, ..*old(self) }),
            action@ == Step::Wait,
    {
        self.phase = Phase::Waiting;
        Action::Wait
    }

    /// Takes an event: counts it and asks for its object to be written if it is of
    /// the right process, passes it over otherwise.
    fn receive(&mut self, event: SyscallEvent) -> (action: Action)
        requires
            old(self).phase == Phase::Waiting,
            event.pid == old(self).pid ==> old(self).consumed < u64::MAX,
        ensures
            *final(self) == old(self).after(Input::Received(event)),
            action@ == old(self).step_for(Input::Received(event)),
    {
        if event.pid != self.pid {
            return Action::Wait;
        }
        self.consumed = self.consumed + 1;
        self.phase = Phase::Object;
        Action::Write(event.to_json())
    }

    /// Goes on after the outcome of an action.
    fn complete(&mut self, ok: bool) -> (action: Action)
        requires
            can_happen(old(self).phase, Input::Completed(ok)),
        ensures
            *final(self) == old(self).after(Input::Completed(ok)),
            action@ == old(self).step_for(Input::Completed(ok)),
    {
        match self.phase {
            Phase::Object => if ok {
                self.phase = Phase::Newline;
                Action::Write(String::from_str("\n"))
            } else {
                self.wait()
            },
            Phase::Newline => if !ok {
                self.stop(StopReason::NewlineFailed)
            } else if self.consumed.is_multiple_of(FLUSH_EVERY) {
                self.phase = Phase::Flush;
                Action::Flush
            } else {
                self.wait()
            },
            Phase::Flush => if ok {
                self.wait()
            } else {
                self.stop(StopReason::FlushFailed)
            },
            Phase::LastFlush(reason) => {
                self.phase = Phase::Finished(reason);
                Action::Finish(reason)
            },
            _ => Action::Wait,
        }
    }

    /// Takes note of what happened and says what to do next.
    pub fn step(&mut self, input: Input) -> (action: Action)
        requires
            can_happen(old(self).phase, input),
            old(self).keeps(input) ==> old(self).consumed < u64::MAX,
        ensures
            *final(self) == old(self).after(input),
            action@ == old(self).step_for(input),
    {
        match input {
            Input::Interrupted => self.stop(StopReason::Interrupted),
            Input::DeadlineElapsed => self.stop(StopReason::DeadlineElapsed),
            Input::ChannelClosed => self.stop(StopReason::ChannelClosed),
            Input::Received(event) => self.receive(event),
            Input::Completed(ok) => self.complete(ok),
        }
    }
}

/// The last flush is the last thing that is done: whatever comes of it, the capture is
/// over, for the reason for which it was ended, and nothing can happen any more.
pub proof fn the_last_flush_ends_the_capture(
    consumer: Consumer,
    reason: StopReason,
    ok: bool,
    next: Input,
)
    requires
        consumer.phase == Phase::LastFlush(reason),
    ensures
        can_happen(consumer.phase, Input::Completed(ok)),
        consumer.step_for(Input::Completed(ok)) == Step::Finish(reason),
        consumer.after(Input::Completed(ok)).phase == Phase::Finished(reason),
        consumer.after(Input::Completed(ok)).pid == consumer.pid,
        consumer.after(Input::Completed(ok)).consumed == consumer.consumed,
        !can_happen(consumer.after(Input::Completed(ok)).phase, next),
{
}

/// A waiting consumer that is interrupted, whose time is over, or whose channel is
/// closed, asks for a flush, and ends the capture for that very reason whatever comes
/// of it.
pub proof fn captures_end_when_told(consumer: Consumer, input: Input, ok: bool)
    requires
        consumer.phase == Phase::Waiting,
        input == Input::Interrupted || input == Input::DeadlineElapsed || input
            == Input::ChannelClosed,
    ensures
        can_happen(consumer.phase, input),
        consumer.step_for(input) == Step::Flush,
        consumer.after(input).pid == consumer.pid,
        consumer.after(input).consumed == consumer.consumed,
        ({
            let closing = consumer.after(input);
            let closed = closing.after(Input::Completed(ok));
            &&& can_happen(closing.phase, Input::Completed(ok))
            &&& input == Input::Interrupted ==> closing.step_for(Input::Completed(ok))
                == Step::Finish(StopReason::Interrupted) && closed.phase == Phase::Finished(
                StopReason::Interrupted,
            )
            &&& input == Input::DeadlineElapsed ==> closing.step_for(Input::Completed(ok))
                == Step::Finish(StopReason::DeadlineElapsed) && closed.phase == Phase::Finished(
                StopReason::DeadlineElapsed,
            )
            &&& input == Input::ChannelClosed ==> closing.step_for(Input::Completed(ok))
                == Step::Finish(StopReason::ChannelClosed) && closed.phase == Phase::Finished(
                StopReason::ChannelClosed,
            )
        }),
{
}

/// An event of another process is passed over: the consumer stays as it is and goes on
/// waiting.
pub proof fn events_of_others_are_passed_over(consumer: Consumer, event: SyscallEvent)
    requires
        consumer.phase == Phase::Waiting,
        event.pid != consumer.pid,
    ensures
        can_happen(consumer.phase, Input::Received(event)),
        consumer.after(Input::Received(event)) == consumer,
        consumer.step_for(Input::Received(event)) == Step::Wait,
{
}

/// The course of an event of the process: it is counted and its object is written; if
/// that succeeds, so is a line end; if that succeeds and the count is a multiple of a
/// thousand, the output is flushed. Then the consumer waits again. A failed object is
/// given up; a failed line end or flush ends the capture.
pub proof fn kept_events_take_their_course(consumer: Consumer, event: SyscallEvent)
    requires
        consumer.phase == Phase::Waiting,
        event.pid == consumer.pid,
        consumer.consumed < u64::MAX,
    ensures
        ({
            let done = Input::Completed(true);
            let failed = Input::Completed(false);
            let object = consumer.after(Input::Received(event));
            let newline = object.after(done);
            let counted = (consumer.consumed + 1) as u64;
            let waiting = Consumer {
                pid: consumer.pid,
                consumed: counted,
                phase: Phase::Waiting,
            };
            &&& can_happen(consumer.phase, Input::Received(event))
            &&& consumer.step_for(Input::Received(event)) == Step::Write(object_text(event))
            &&& can_happen(object.phase, done) && can_happen(object.phase, failed)
            &&& object.step_for(failed) == Step::Wait
            &&& object.after(failed) == waiting
            &&& object.step_for(done) == Step::Write(seq!['\n'])
            &&& can_happen(newline.phase, done) && can_happen(newline.phase, failed)
            &&& newline.step_for(failed) == Step::Flush
            &&& newline.after(failed) == (Consumer {
                phase: Phase::LastFlush(StopReason::NewlineFailed),
                ..waiting
            })
            &&& counted % 1000 != 0 ==> newline.step_for(done) == Step::Wait && newline.after(done)
                == waiting
            &&& counted % 1000 == 0 ==> {
                let flush = newline.after(done);
                &&& newline.step_for(done) == Step::Flush
                &&& can_happen(flush.phase, done) && can_happen(flush.phase, failed)
                &&& flush.step_for(done) == Step::Wait
                &&& flush.after(done) == waiting
                &&& flush.step_for(failed) == Step::Flush
                &&& flush.after(failed) == (Consumer {
                    phase: Phase::LastFlush(StopReason::FlushFailed),
                    ..waiting
                })
            }
        }),
{
    reveal_strlit("\n");
    assert(line_end() =~= seq!['\n']);
}

/// An action is of the kind that its view says, with the same text or reason.
pub proof fn actions_are_what_they_say(action: Action, text: Seq<char>, reason: StopReason)
    ensures
        action@ == Step::Wait <==> action is Wait,
        action@ == Step::Flush <==> action is Flush,
        action@ == Step::Write(text) <==> (action matches Action::Write(part) && part@ == text),
        action@ == Step::Finish(reason) <==> (action matches Action::Finish(given) && given
            == reason),
{
}

} // verus!
