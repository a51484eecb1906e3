//! What a capture writes, over everything that can happen during it.
use crate::consumer::{
    can_happen, captures_end_when_told, line_end, Consumer, Input, Phase, Step, StopReason, FLUSH_EVERY,
};
use crate::emit::pairing_key;
use crate::event::SyscallEvent;
use crate::json::{object_text, object_text_is_one_line};
use vstd::prelude::*;

verus! {

/// The events that came over the channel, in order.
pub open spec fn received(inputs: Seq<Input>) -> Seq<SyscallEvent>
    decreases inputs.len(),
{
    if inputs.len() == 0 {
        Seq::empty()
    } else {
        let earlier = received(inputs.drop_last());
        match inputs.last() {
            Input::Received(event) => earlier.push(event),
            _ => earlier,
        }
    }
}

/// The events that came over the channel and are of the process `pid`, in order.
pub open spec fn kept(pid: u32, inputs: Seq<Input>) -> Seq<SyscallEvent> {
    received(inputs).filter(|event: SyscallEvent| event.pid == pid)
}

/// One line for each event: its JSON object and a line end.
pub open spec fn lines(events: Seq<SyscallEvent>) -> Seq<char>
    decreases events.len(),
{
    if events.len() == 0 {
        Seq::empty()
    } else {
        lines(events.drop_last()) + object_text(events.last()) + line_end()
    }
}

impl Consumer {
    /// The consumer after all of `inputs` have happened.
    pub open spec fn after_all(self, inputs: Seq<Input>) -> Consumer
        decreases inputs.len(),
    {
        if inputs.len() == 0 {
            self
        } else {
            self.after_all(inputs.drop_last()).after(inputs.last())
        }
    }

    /// Whether `inputs` can happen one after the other.
    pub open spec fn can_all_happen(self, inputs: Seq<Input>) -> bool
        decreases inputs.len(),
    {
        inputs.len() > 0 ==> {
            &&& self.can_all_happen(inputs.drop_last())
            &&& can_happen(self.after_all(inputs.drop_last()).phase, inputs.last())
        }
    }

    /// What the consumer last asked for.
    pub open spec fn last_step(self, inputs: Seq<Input>) -> Step {
        if inputs.len() == 0 {
            Step::Wait
        } else {
            self.after_all(inputs.drop_last()).step_for(inputs.last())
        }
    }

    /// The text of the writes that completed. A write that failed adds nothing here,
    /// though part of its text may have reached the output.
    pub open spec fn written(self, inputs: Seq<Input>) -> Seq<char>
        decreases inputs.len(),
    {
        if inputs.len() == 0 {
            Seq::empty()
        } else {
            let earlier = self.written(inputs.drop_last());
            match (self.last_step(inputs.drop_last()), inputs.last()) {
                (Step::Write(text), Input::Completed(true)) => earlier + text,
                _ => earlier,
            }
        }
    }

    /// Whether every write succeeded.
    pub open spec fn all_written(self, inputs: Seq<Input>) -> bool
        decreases inputs.len(),
    {
        inputs.len() > 0 ==> {
            &&& self.all_written(inputs.drop_last())
            &&& !(self.last_step(inputs.drop_last()) is Write && inputs.last() == Input::Completed(
                false,
            ))
        }
    }

    /// Whether the object of every event with which a flush is due was written: every
    /// event whose number is a multiple of `FLUSH_EVERY`.
    pub open spec fn due_objects_written(self, inputs: Seq<Input>) -> bool
        decreases inputs.len(),
    {
        inputs.len() > 0 ==> {
            let now = self.after_all(inputs.drop_last());
            &&& self.due_objects_written(inputs.drop_last())
            &&& !(now.phase == Phase::Object && now.consumed % FLUSH_EVERY == 0 && inputs.last()
                == Input::Completed(false))
        }
    }

    /// The kept events whose objects were written in full, in order.
    pub open spec fn stored(self, inputs: Seq<Input>) -> Seq<SyscallEvent>
        decreases inputs.len(),
    {
        if inputs.len() == 0 {
            Seq::empty()
        } else {
            let earlier = self.stored(inputs.drop_last());
            match (self.after_all(inputs.drop_last()).phase, inputs.last()) {
                (Phase::Object, Input::Completed(true)) => earlier.push(
                    kept(self.pid, inputs.drop_last()).last(),
                ),
                _ => earlier,
            }
        }
    }

    /// The number of lines that were finished since the last flush.
    pub open spec fn unflushed(self, inputs: Seq<Input>) -> nat
        decreases inputs.len(),
    {
        if inputs.len() == 0 || self.last_step(inputs) == Step::Flush {
            0
        } else {
            let earlier = self.unflushed(inputs.drop_last());
            if self.last_step(inputs.drop_last()) == Step::Write(line_end()) && inputs.last()
                == Input::Completed(true) {
                earlier + 1
            } else {
                earlier
            }
        }
    }
}

/// The begin of a capture of the process `pid`.
pub open spec fn begin(pid: u32) -> Consumer {
    Consumer { pid, consumed: 0, phase: Phase::Waiting }
}

/// The last input adds its event to the kept ones if it is of the process.
proof fn kept_grows(pid: u32, inputs: Seq<Input>)
    requires
        inputs.len() > 0,
    ensures
        kept(pid, inputs) == match inputs.last() {
            Input::Received(event) => if event.pid == pid {
                kept(pid, inputs.drop_last()).push(event)
            } else {
                kept(pid, inputs.drop_last())
            },
            _ => kept(pid, inputs.drop_last()),
        },
{
    reveal(Seq::filter);
    if let Input::Received(event) = inputs.last() {
        let earlier = received(inputs.drop_last());
        assert(received(inputs).drop_last() =~= earlier);
    }
}

/// A capture counts the events of its process, and no others.
pub proof fn consumed_counts_kept_events(pid: u32, inputs: Seq<Input>)
    requires
        kept(pid, inputs).len() <= u64::MAX,
    ensures
        begin(pid).after_all(inputs).pid == pid,
        begin(pid).after_all(inputs).consumed == kept(pid, inputs).len(),
    decreases inputs.len(),
{
    reveal(Seq::filter);
    if inputs.len() > 0 {
        kept_grows(pid, inputs);
        consumed_counts_kept_events(pid, inputs.drop_last());
    }
}

/// What is asked for, by the phase: in the phases `Object` and `Newline`, and in no
/// others, a write is under way, of the object of the last kept event or of the line
/// end behind it. So nothing of another process is ever written, whatever fails.
pub proof fn writes_are_of_the_last_kept_event(pid: u32, inputs: Seq<Input>)
    requires
        begin(pid).can_all_happen(inputs),
        kept(pid, inputs).len() <= u64::MAX,
    ensures
        ({
            let step = begin(pid).last_step(inputs);
            match begin(pid).after_all(inputs).phase {
                Phase::Object => {
                    &&& kept(pid, inputs).len() > 0
                    &&& kept(pid, inputs).last().pid == pid
                    &&& step == Step::Write(object_text(kept(pid, inputs).last()))
                },
                Phase::Newline => kept(pid, inputs).len() > 0 && step == Step::Write(line_end()),
                Phase::Waiting => step == Step::Wait,
                Phase::Flush => step == Step::Flush,
                Phase::LastFlush(_) => step == Step::Flush,
                Phase::Finished(reason) => step == Step::Finish(reason),
            }
        }),
    decreases inputs.len(),
{
    if inputs.len() > 0 {
        kept_grows(pid, inputs);
        writes_are_of_the_last_kept_event(pid, inputs.drop_last());
        consumed_counts_kept_events(pid, inputs.drop_last());
    }
}

/// Whatever fails, the writes that completed are those of lines: one for each event
/// whose object was written in full, each of them of the process, in the order in which
/// they came. Only the last line can lack its line end: while that is being written, or
/// where that failed, which ends the capture.
///
/// This says nothing of what a failed write leaves behind: part of its text may stand
/// in the output, in front of the line of the next event.
pub proof fn output_is_a_line_per_stored_event(pid: u32, inputs: Seq<Input>)
    requires
        begin(pid).can_all_happen(inputs),
        kept(pid, inputs).len() <= u64::MAX,
    ensures
        ({
            let output = begin(pid).written(inputs);
            let stored = begin(pid).stored(inputs);
            match begin(pid).after_all(inputs).phase {
                Phase::Newline
                | Phase::LastFlush(StopReason::NewlineFailed)
                | Phase::Finished(StopReason::NewlineFailed) => output + line_end() == lines(stored),
                _ => output == lines(stored),
            }
        }),
        forall|i: int|
            0 <= i < begin(pid).stored(inputs).len() ==> #[trigger] begin(pid).stored(inputs)[i].pid
                == pid,
    decreases inputs.len(),
{
    if inputs.len() > 0 {
        let earlier = inputs.drop_last();
        kept_grows(pid, inputs);
        output_is_a_line_per_stored_event(pid, earlier);
        writes_are_of_the_last_kept_event(pid, earlier);
        consumed_counts_kept_events(pid, earlier);
        let stored = begin(pid).stored(inputs);
        if stored.len() > begin(pid).stored(earlier).len() {
            assert(stored.drop_last() =~= begin(pid).stored(earlier));
        }
    }
}

/// While no write fails, the output is a line for each event of the process, in the
/// order in which they came: all of those lines, except that the last one still
/// lacks its object or its line end while that is being written.
pub proof fn output_is_a_line_per_kept_event(pid: u32, inputs: Seq<Input>)
    requires
        begin(pid).can_all_happen(inputs),
        begin(pid).all_written(inputs),
        kept(pid, inputs).len() <= u64::MAX,
    ensures
        ({
            let output = begin(pid).written(inputs);
            match begin(pid).after_all(inputs).phase {
                Phase::Object => output == lines(kept(pid, inputs).drop_last()),
                Phase::Newline => output + line_end() == lines(kept(pid, inputs)),
                _ => output == lines(kept(pid, inputs)),
            }
        }),
    decreases inputs.len(),
{
    if inputs.len() > 0 {
        let earlier = inputs.drop_last();
        kept_grows(pid, inputs);
        output_is_a_line_per_kept_event(pid, earlier);
        writes_are_of_the_last_kept_event(pid, earlier);
        consumed_counts_kept_events(pid, earlier);
        if begin(pid).keeps(inputs.last()) {
            assert(kept(pid, inputs).drop_last() =~= kept(pid, earlier));
        }
    }
}

proof fn objects_are_no_line_ends(event: SyscallEvent)
    ensures
        object_text(event) != line_end(),
{
    reveal_strlit("\n");
    object_text_is_one_line(event);
    assert(line_end()[0] == '\n');
}

/// The number of finished lines since the last flush, by the phase: what is left over
/// of the events that were consumed, without one whose line is not finished.
pub open spec fn left_over(phase: Phase, consumed: nat) -> nat {
    match phase {
        Phase::Waiting => consumed % (FLUSH_EVERY as nat),
        Phase::Object | Phase::Newline => ((consumed - 1) % (FLUSH_EVERY as int)) as nat,
        _ => 0,
    }
}

/// How the number of finished lines since the last flush changes.
proof fn unflushed_changes(pid: u32, inputs: Seq<Input>)
    requires
        inputs.len() > 0,
        begin(pid).can_all_happen(inputs),
        kept(pid, inputs).len() <= u64::MAX,
    ensures
        begin(pid).unflushed(inputs) == match (
            begin(pid).after_all(inputs.drop_last()).phase,
            inputs.last(),
        ) {
            (Phase::Newline, Input::Completed(true)) => if kept(pid, inputs).len() % (
            FLUSH_EVERY as nat) == 0 {
                0
            } else {
                begin(pid).unflushed(inputs.drop_last()) + 1
            },
            (Phase::Newline, Input::Completed(false)) => 0,
            (Phase::Flush, Input::Completed(false)) => 0,
            (Phase::Waiting, Input::Received(_)) => begin(pid).unflushed(inputs.drop_last()),
            (Phase::Waiting, _) => 0,
            _ => begin(pid).unflushed(inputs.drop_last()),
        },
{
    let earlier = inputs.drop_last();
    kept_grows(pid, inputs);
    writes_are_of_the_last_kept_event(pid, earlier);
    consumed_counts_kept_events(pid, earlier);
    if kept(pid, earlier).len() > 0 {
        objects_are_no_line_ends(kept(pid, earlier).last());
    }
}

/// A crash costs fewer than `FLUSH_EVERY` finished lines, whatever fails, except the
/// object of an event with which a flush is due: that flush is not made.
pub proof fn unflushed_lines_are_bounded(pid: u32, inputs: Seq<Input>)
    requires
        begin(pid).can_all_happen(inputs),
        begin(pid).due_objects_written(inputs),
        kept(pid, inputs).len() <= u64::MAX,
    ensures
        begin(pid).unflushed(inputs) < FLUSH_EVERY,
        begin(pid).unflushed(inputs) <= left_over(
            begin(pid).after_all(inputs).phase,
            kept(pid, inputs).len(),
        ),
{
    flushes_are_due(pid, inputs);
}

/// While no write fails, the finished lines since the last flush are exactly what is
/// left over of the events that were consumed.
pub proof fn unflushed_lines_are_left_over(pid: u32, inputs: Seq<Input>)
    requires
        begin(pid).can_all_happen(inputs),
        begin(pid).all_written(inputs),
        kept(pid, inputs).len() <= u64::MAX,
    ensures
        begin(pid).unflushed(inputs) == left_over(
            begin(pid).after_all(inputs).phase,
            kept(pid, inputs).len(),
        ),
    decreases inputs.len(),
{
    if inputs.len() > 0 {
        let earlier = inputs.drop_last();
        kept_grows(pid, inputs);
        unflushed_lines_are_left_over(pid, earlier);
        all_written_writes_due_objects(pid, earlier);
        flushes_are_due(pid, earlier);
        unflushed_changes(pid, inputs);
        consumed_counts_kept_events(pid, earlier);
        writes_are_of_the_last_kept_event(pid, earlier);
        left_over_changes(begin(pid).after_all(earlier), inputs.last());
    }
}

/// Where no write fails, none of the objects with which a flush is due does.
proof fn all_written_writes_due_objects(pid: u32, inputs: Seq<Input>)
    requires
        begin(pid).can_all_happen(inputs),
        begin(pid).all_written(inputs),
        kept(pid, inputs).len() <= u64::MAX,
    ensures
        begin(pid).due_objects_written(inputs),
    decreases inputs.len(),
{
    if inputs.len() > 0 {
        kept_grows(pid, inputs);
        all_written_writes_due_objects(pid, inputs.drop_last());
        writes_are_of_the_last_kept_event(pid, inputs.drop_last());
    }
}

/// How `left_over` changes with an input: it grows by one with a finished line, and
/// with an object that failed, unless a flush is due with it.
proof fn left_over_changes(consumer: Consumer, input: Input)
    requires
        can_happen(consumer.phase, input),
        consumer.keeps(input) ==> consumer.consumed < u64::MAX,
        consumer.phase == Phase::Object || consumer.phase == Phase::Newline ==> consumer.consumed
            > 0,
        consumer.phase == Phase::Flush ==> consumer.consumed % FLUSH_EVERY == 0,
    ensures
        ({
            let after = consumer.after(input);
            let before_left = left_over(consumer.phase, consumer.consumed as nat);
            let after_left = left_over(after.phase, after.consumed as nat);
            &&& before_left < FLUSH_EVERY && after_left < FLUSH_EVERY
            &&& match (consumer.phase, input) {
                (Phase::Newline, Input::Completed(true)) => after_left == if consumer.consumed
                    % FLUSH_EVERY == 0 {
                    0
                } else {
                    before_left + 1
                },
                (Phase::Newline, Input::Completed(false)) => after_left == 0,
                (Phase::Object, Input::Completed(true)) => after_left == before_left,
                (Phase::Object, Input::Completed(false)) => consumer.consumed % FLUSH_EVERY != 0
                    ==> after_left == before_left + 1,
                (Phase::Waiting, Input::Received(_)) => after_left == before_left,
                _ => after_left == 0,
            }
            &&& after.phase == Phase::Flush ==> after.consumed % FLUSH_EVERY == 0
        }),
{
}

/// The bound, with what the consumer knows of the count while it flushes.
proof fn flushes_are_due(pid: u32, inputs: Seq<Input>)
    requires
        begin(pid).can_all_happen(inputs),
        begin(pid).due_objects_written(inputs),
        kept(pid, inputs).len() <= u64::MAX,
    ensures
        begin(pid).unflushed(inputs) <= left_over(
            begin(pid).after_all(inputs).phase,
            kept(pid, inputs).len(),
        ) < FLUSH_EVERY,
        begin(pid).after_all(inputs).phase == Phase::Flush ==> kept(pid, inputs).len() % (
        FLUSH_EVERY as nat) == 0,
    decreases inputs.len(),
{
    if inputs.len() > 0 {
        let earlier = inputs.drop_last();
        kept_grows(pid, inputs);
        flushes_are_due(pid, earlier);
        unflushed_changes(pid, inputs);
        consumed_counts_kept_events(pid, earlier);
        consumed_counts_kept_events(pid, inputs);
        writes_are_of_the_last_kept_event(pid, earlier);
        left_over_changes(begin(pid).after_all(earlier), inputs.last());
    }
}

/// The events of `events` with the pairing key `key`, in order.
pub open spec fn with_key(events: Seq<SyscallEvent>, key: (u32, u32, u32)) -> Seq<SyscallEvent> {
    events.filter(|event: SyscallEvent| pairing_key(event) == key)
}

/// Filtering by process takes no call apart: for every thread of the process and every
/// probe, a capture keeps all enter and exit events that came over the channel, in
/// order, so they pair as they would in the whole stream. Of other processes it keeps
/// none.
pub proof fn captures_keep_calls_whole(pid: u32, inputs: Seq<Input>, key: (u32, u32, u32))
    ensures
        with_key(kept(pid, inputs), key) == if key.0 == pid {
            with_key(received(inputs), key)
        } else {
            Seq::empty()
        },
    decreases inputs.len(),
{
    reveal(Seq::filter);
    if inputs.len() > 0 {
        let earlier = inputs.drop_last();
        captures_keep_calls_whole(pid, earlier, key);
        kept_grows(pid, inputs);
        if let Input::Received(event) = inputs.last() {
            assert(received(inputs).drop_last() =~= received(earlier));
            if event.pid == pid {
                assert(kept(pid, inputs).drop_last() =~= kept(pid, earlier));
            }
        }
    }
}

/// Whatever has happened before, a capture that is waiting ends when it is told to: the
/// next thing that is done is a flush, nothing is written any more, and the completion
/// of the flush, successful or not, ends the capture for the reason that was given.
pub proof fn any_history_can_be_ended(
    pid: u32,
    inputs: Seq<Input>,
    stop: Input,
    reason: StopReason,
    ok: bool,
)
    requires
        begin(pid).can_all_happen(inputs),
        begin(pid).after_all(inputs).phase == Phase::Waiting,
        ({
            ||| stop == Input::Interrupted && reason == StopReason::Interrupted
            ||| stop == Input::DeadlineElapsed && reason == StopReason::DeadlineElapsed
            ||| stop == Input::ChannelClosed && reason == StopReason::ChannelClosed
        }),
    ensures
        ({
            let told = inputs.push(stop);
            let ended = told.push(Input::Completed(ok));
            &&& begin(pid).can_all_happen(ended)
            &&& begin(pid).last_step(told) == Step::Flush
            &&& begin(pid).last_step(ended) == Step::Finish(reason)
            &&& begin(pid).after_all(ended).phase == Phase::Finished(reason)
            &&& begin(pid).written(ended) == begin(pid).written(inputs)
        }),
{
    let told = inputs.push(stop);
    let ended = told.push(Input::Completed(ok));
    assert(told.drop_last() =~= inputs);
    assert(ended.drop_last() =~= told);
    captures_end_when_told(begin(pid).after_all(inputs), stop, ok);
    assert(begin(pid).after_all(told) == begin(pid).after_all(inputs).after(stop));
    assert(begin(pid).after_all(ended) == begin(pid).after_all(told).after(Input::Completed(ok)));
    assert(begin(pid).can_all_happen(told));
    assert(begin(pid).last_step(told) == Step::Flush);
    assert(begin(pid).written(told) == begin(pid).written(inputs));
}

/// However a capture ends, the output is flushed before, and nothing happens after.
pub proof fn captures_end_with_a_flush(pid: u32, inputs: Seq<Input>, reason: StopReason)
    requires
        begin(pid).can_all_happen(inputs),
        kept(pid, inputs).len() <= u64::MAX,
        begin(pid).after_all(inputs).phase == Phase::Finished(reason),
    ensures
        begin(pid).last_step(inputs) == Step::Finish(reason),
        inputs.len() > 1,
        begin(pid).last_step(inputs.drop_last()) == Step::Flush,
        forall|next: Input| !begin(pid).can_all_happen(#[trigger] inputs.push(next)),
{
    writes_are_of_the_last_kept_event(pid, inputs);
    let earlier = inputs.drop_last();
    kept_grows(pid, inputs);
    writes_are_of_the_last_kept_event(pid, earlier);
    assert forall|next: Input| !begin(pid).can_all_happen(#[trigger] inputs.push(next)) by {
        assert(inputs.push(next).drop_last() =~= inputs);
    }
}

} // verus!
