//! Forwarding of ring buffer records to the consumer.
//!
//! The drainer reads the ring buffer in passes, each until the buffer is empty,
//! and hands every event to a bounded channel without ever waiting for room.
use crate::event::{
    reading_gives_back_the_event, reads_as, SizeMismatch, SyscallEvent, EVENT_SIZE,
};
use tokio::sync::mpsc::error::TrySendError;
use tokio::sync::mpsc::Sender;
use vstd::prelude::*;

verus! {

/// While draining, a warning is due at each multiple of this number of dropped events.
/// Losses that stay below it are warned of when draining is over.
pub const WARN_EVERY: u64 = 1000;

/// The sending half of a bounded `tokio` channel.
#[verifier::external_type_specification]
#[verifier::external_body]
#[verifier::reject_recursive_types(T)]
pub struct ExSender<T>(Sender<T>);

/// The events that the channel has taken in through `tx`, in order.
pub uninterp spec fn accepted(tx: Sender<SyscallEvent>) -> Seq<SyscallEvent>;

/// What became of an event that was offered to the channel.
#[derive(Clone, Copy, Debug, PartialEq, Eq, Structural)]
pub enum SendOutcome {
    /// The channel took it in.
    Sent,
    /// The channel had no room.
    Full,
    /// The receiving half is closed.
    Closed,
}

/// `tokio::sync::mpsc::Sender::try_send`: it returns at once. The channel takes
/// the event in exactly when the call succeeds. Whether it does depends on the
/// receiving half, and is left open here.
#[verifier::external_body]
fn try_send(tx: &mut Sender<SyscallEvent>, event: SyscallEvent) -> (outcome: SendOutcome)
    ensures
        accepted(*final(tx)) == match outcome {
            SendOutcome::Sent => accepted(*old(tx)).push(event),
            _ => accepted(*old(tx)),
        },
{
    match tx.try_send(event) {
        Ok(()) => SendOutcome::Sent,
        Err(TrySendError::Full(_)) => SendOutcome::Full,
        Err(TrySendError::Closed(_)) => SendOutcome::Closed,
    }
}

/// Whether `event` was offered to the channel, by a call of `try_send` that took the
/// handle from `*tx` to `*final(tx)`, and `outcome` is what the channel answered.
///
/// There is no other way to come by this fact than to make the call.
pub closed spec fn offer_answered(
    tx: &mut Sender<SyscallEvent>,
    event: SyscallEvent,
    outcome: SendOutcome,
) -> bool {
    call_ensures(try_send, (tx, event), outcome)
}

/// Makes one call of `send`.
fn call_send<F: Fn(&mut Sender<SyscallEvent>, SyscallEvent) -> SendOutcome>(
    send: F,
    tx: &mut Sender<SyscallEvent>,
    event: SyscallEvent,
) -> (outcome: SendOutcome)
    requires
        forall|t: &mut Sender<SyscallEvent>| call_requires(send, (t, event)),
    ensures
        exists|t: &mut Sender<SyscallEvent>|
            {
                &&& *t == *old(tx)
                &&& *final(t) == *final(tx)
                &&& #[trigger] call_ensures(send, (t, event), outcome)
            },
{
    send(tx, event)
}

/// Offers `event` to the channel, once.
fn offer(tx: &mut Sender<SyscallEvent>, event: SyscallEvent) -> (outcome: SendOutcome)
    ensures
        exists|t: &mut Sender<SyscallEvent>|
            {
                &&& *t == *old(tx)
                &&& *final(t) == *final(tx)
                &&& #[trigger] offer_answered(t, event, outcome)
            },
        accepted(*final(tx)) == match outcome {
            SendOutcome::Sent => accepted(*old(tx)).push(event),
            _ => accepted(*old(tx)),
        },
{
    let outcome = call_send(try_send, tx, event);
    proof {
        let t = choose|t: &mut Sender<SyscallEvent>|
            {
                &&& *t == *old(tx)
                &&& *final(t) == *final(tx)
                &&& #[trigger] call_ensures(try_send, (t, event), outcome)
            };
        assert(offer_answered(t, event, outcome));
    }
    outcome
}

/// An offer that was answered by `Sent` put its event behind those that the channel
/// had taken in; one that was answered otherwise put nothing there.
pub proof fn answers_tell_what_was_taken_in(
    tx: &mut Sender<SyscallEvent>,
    event: SyscallEvent,
    outcome: SendOutcome,
)
    requires
        offer_answered(tx, event, outcome),
    ensures
        outcome == SendOutcome::Sent ==> accepted(*final(tx)) == accepted(*old(tx)).push(event),
        outcome != SendOutcome::Sent ==> accepted(*final(tx)) == accepted(*old(tx)),
{
}

/// The counters of a drainer.
pub ghost struct Counts {
    /// Events that the channel took in.
    pub drained: nat,
    /// Events that were lost because the channel was full.
    pub dropped: nat,
    /// Events that the channel took in since the pass began.
    pub this_pass: nat,
}

/// What became of a record of the ring buffer.
#[derive(Clone, Copy, Debug, PartialEq, Eq, Structural)]
pub enum Report {
    /// It is no event; it was skipped.
    Malformed(SizeMismatch),
    /// Its event is on the way to the consumer.
    Forwarded,
    /// Its event is lost; `warn` says whether to warn of the losses so far.
    Dropped { warn: bool },
    /// The consumer is gone: draining is over.
    ConsumerClosed,
}

/// How the drainer goes on after a pass over the ring buffer.
#[derive(Clone, Copy, Debug, PartialEq, Eq, Structural)]
pub enum PassEnd {
    /// The consumer is gone: draining is over.
    Stop,
    /// The pass forwarded nothing: pause before the next one.
    Pause,
    /// Begin the next pass at once.
    Continue,
}

/// How a pass ends that found the ring buffer empty, with the receiving half of the
/// channel closed or open by then.
pub open spec fn pass_end(counts: Counts, closed: bool) -> PassEnd {
    if closed {
        PassEnd::Stop
    } else if counts.this_pass == 0 {
        PassEnd::Pause
    } else {
        PassEnd::Continue
    }
}

/// The counters after a pass, at the begin of the next one.
pub open spec fn after_pass(counts: Counts) -> Counts {
    Counts { this_pass: 0, ..counts }
}

/// The counters after an event was offered to the channel.
pub open spec fn after_send(counts: Counts, outcome: SendOutcome) -> Counts {
    match outcome {
        SendOutcome::Sent => Counts {
            drained: counts.drained + 1,
            this_pass: counts.this_pass + 1,
            ..counts
        },
        SendOutcome::Full => Counts { dropped: counts.dropped + 1, ..counts },
        SendOutcome::Closed => counts,
    }
}

/// Whether a warning is due after an event was offered to the channel.
pub open spec fn warns(counts: Counts, outcome: SendOutcome) -> bool {
    outcome == SendOutcome::Full && after_send(counts, outcome).dropped % WARN_EVERY as nat == 0
}

/// Whether events were lost and no warning told of it: too few for the first one.
pub open spec fn lost_unwarned(counts: Counts) -> bool {
    0 < counts.dropped && counts.dropped < WARN_EVERY
}

/// How the drainer reports the outcome of a send.
pub open spec fn report_of(counts: Counts, outcome: SendOutcome) -> Report {
    match outcome {
        SendOutcome::Sent => Report::Forwarded,
        SendOutcome::Full => Report::Dropped { warn: warns(counts, outcome) },
        SendOutcome::Closed => Report::ConsumerClosed,
    }
}

/// What forwarding a record does, by its report, to the counters and to the events
/// that the channel has taken in.
pub open spec fn forwards(
    before: Counts,
    accepted_before: Seq<SyscallEvent>,
    record: Seq<u8>,
    report: Report,
    after: Counts,
    accepted_after: Seq<SyscallEvent>,
) -> bool {
    match report {
        Report::Malformed(mismatch) => {
            &&& reads_as(record, Err(mismatch))
            &&& after == before
            &&& accepted_after == accepted_before
        },
        Report::Forwarded => {
            &&& accepted_after.len() == accepted_before.len() + 1
            &&& accepted_after.drop_last() == accepted_before
            &&& reads_as(record, Ok(accepted_after.last()))
            &&& after == after_send(before, SendOutcome::Sent)
        },
        Report::Dropped { warn } => {
            &&& record.len() == EVENT_SIZE
            &&& accepted_after == accepted_before
            &&& after == after_send(before, SendOutcome::Full)
            &&& warn == warns(before, SendOutcome::Full)
        },
        Report::ConsumerClosed => {
            &&& record.len() == EVENT_SIZE
            &&& accepted_after == accepted_before
            &&& after == before
        },
    }
}

/// Forwards the records of the ring buffer and keeps count of them.
#[derive(Debug)]
pub struct Drainer {
    total_drained: u64,
    total_dropped: u64,
    drained_this_pass: u64,
}

impl View for Drainer {
    type V = Counts;

    closed spec fn view(&self) -> Counts {
        Counts {
            drained: self.total_drained as nat,
            dropped: self.total_dropped as nat,
            this_pass: self.drained_this_pass as nat,
        }
    }
}

impl Drainer {
    #[verifier::type_invariant]
    spec fn pass_is_part_of_total(self) -> bool {
        self.drained_this_pass <= self.total_drained
    }

    /// A drainer that has seen nothing, at the begin of a pass.
    pub fn new() -> (drainer: Self)
        ensures
            drainer@ == (Counts { drained: 0, dropped: 0, this_pass: 0 }),
    {
        Drainer { total_drained: 0, total_dropped: 0, drained_this_pass: 0 }
    }

    /// The number of events that the channel took in.
    pub fn total_drained(&self) -> (total: u64)
        ensures
            total == self@.drained,
    {
        self.total_drained
    }

    /// The number of events that were lost because the channel was full.
    pub fn total_dropped(&self) -> (total: u64)
        ensures
            total == self@.dropped,
    {
        self.total_dropped
    }

    /// Whether to warn of losses when draining is over: events were lost, and too few
    /// of them for a warning so far.
    pub fn losses_unwarned(&self) -> (warn: bool)
        ensures
            warn == lost_unwarned(self@),
            warn <==> 0 < self@.dropped && self@.dropped < WARN_EVERY,
    {
        0 < self.total_dropped && self.total_dropped < WARN_EVERY
    }

    /// Counts the outcome of a send and reports it.
    pub fn record(&mut self, outcome: SendOutcome) -> (report: Report)
        requires
            outcome == SendOutcome::Sent ==> old(self)@.drained < u64::MAX,
            outcome == SendOutcome::Full ==> old(self)@.dropped < u64::MAX,
        ensures
            final(self)@ == after_send(old(self)@, outcome),
            report == report_of(old(self)@, outcome),
            report == Report::Forwarded <==> outcome == SendOutcome::Sent,
            report is Dropped <==> outcome == SendOutcome::Full,
            report == Report::ConsumerClosed <==> outcome == SendOutcome::Closed,
            report matches Report::Dropped { warn } ==> (warn <==> final(self)@.dropped % (
            WARN_EVERY as nat) == 0),
    {
        proof {
            use_type_invariant(&*self);
        }
        match outcome {
            SendOutcome::Sent => {
                self.total_drained = self.total_drained + 1;
                self.drained_this_pass = self.drained_this_pass + 1;
                Report::Forwarded
            },
            SendOutcome::Full => {
                self.total_dropped = self.total_dropped + 1;
                Report::Dropped { warn: self.total_dropped.is_multiple_of(WARN_EVERY) }
            },
            SendOutcome::Closed => Report::ConsumerClosed,
        }
    }

    /// Takes a record of the ring buffer and offers its event to the channel, once. The
    /// report is the answer to that offer: an event is dropped, or met a closed
    /// channel, only if it was offered and that was the answer.
    pub fn forward(&mut self, record: &[u8], tx: &mut Sender<SyscallEvent>) -> (report: Report)
        requires
            old(self)@.drained < u64::MAX,
            old(self)@.dropped < u64::MAX,
        ensures
            forwards(
                old(self)@,
                accepted(*old(tx)),
                record@,
                report,
                final(self)@,
                accepted(*final(tx)),
            ),
            record@.len() != EVENT_SIZE ==> report is Malformed && *final(tx) == *old(tx),
            record@.len() == EVENT_SIZE ==> exists|
                t: &mut Sender<SyscallEvent>,
                event: SyscallEvent,
                outcome: SendOutcome,
            |
                {
                    &&& #[trigger] offer_answered(t, event, outcome)
                    &&& *t == *old(tx)
                    &&& *final(t) == *final(tx)
                    &&& event.wire() == record@
                    &&& report == Report::Forwarded <==> outcome == SendOutcome::Sent
                    &&& report is Dropped <==> outcome == SendOutcome::Full
                    &&& report == Report::ConsumerClosed <==> outcome == SendOutcome::Closed
                },
    {
        match SyscallEvent::from_bytes(record) {
            Err(mismatch) => Report::Malformed(mismatch),
            Ok(event) => {
                let outcome = offer(tx, event);
                assert(accepted(*old(tx)).push(event).drop_last() =~= accepted(*old(tx)));
                self.record(outcome)
            },
        }
    }

    /// Ends a pass over the ring buffer and begins the next one. The result says
    /// whether to pause in between: it does where the pass forwarded nothing.
    pub fn end_pass(&mut self) -> (pause: bool)
        ensures
            pause == (old(self)@.this_pass == 0),
            final(self)@ == after_pass(old(self)@),
    {
        let pause: bool = self.drained_this_pass == 0;
        self.drained_this_pass = 0;
        pause
    }

    /// Ends a pass over the ring buffer. `closed` says whether the receiving half of
    /// the channel is closed: draining is over then, though no record came that
    /// could have shown it.
    pub fn finish_pass(&mut self, closed: bool) -> (end: PassEnd)
        ensures
            end == pass_end(old(self)@, closed),
            end == PassEnd::Stop <==> closed,
            end == PassEnd::Pause <==> !closed && old(self)@.this_pass == 0,
            final(self)@ == after_pass(old(self)@),
            final(self)@.drained == old(self)@.drained,
            final(self)@.dropped == old(self)@.dropped,
            final(self)@.this_pass == 0,
    {
        let pause: bool = self.end_pass();
        if closed {
            PassEnd::Stop
        } else if pause {
            PassEnd::Pause
        } else {
            PassEnd::Continue
        }
    }
}

/// An event that the channel took in counts as drained, in total and in the pass; one
/// that it had no room for counts as dropped; one that met a closed channel does not
/// count. Nothing else changes.
pub proof fn sends_count_once(counts: Counts)
    ensures
        ({
            let sent = after_send(counts, SendOutcome::Sent);
            &&& sent.drained == counts.drained + 1
            &&& sent.this_pass == counts.this_pass + 1
            &&& sent.dropped == counts.dropped
        }),
        ({
            let full = after_send(counts, SendOutcome::Full);
            &&& full.dropped == counts.dropped + 1
            &&& full.drained == counts.drained
            &&& full.this_pass == counts.this_pass
        }),
        after_send(counts, SendOutcome::Closed) == counts,
        after_pass(counts).drained == counts.drained,
        after_pass(counts).dropped == counts.dropped,
        after_pass(counts).this_pass == 0,
{
}

/// The counters after a series of sends.
pub open spec fn after_sends(counts: Counts, outcomes: Seq<SendOutcome>) -> Counts
    decreases outcomes.len(),
{
    if outcomes.len() == 0 {
        counts
    } else {
        after_send(after_sends(counts, outcomes.drop_last()), outcomes.last())
    }
}

/// How often `outcome` occurs in a series.
pub open spec fn occurrences(outcomes: Seq<SendOutcome>, outcome: SendOutcome) -> nat
    decreases outcomes.len(),
{
    if outcomes.len() == 0 {
        0
    } else {
        occurrences(outcomes.drop_last(), outcome) + if outcomes.last() == outcome {
            1nat
        } else {
            0nat
        }
    }
}

/// How many warnings a series of sends brings.
pub open spec fn warnings(counts: Counts, outcomes: Seq<SendOutcome>) -> nat
    decreases outcomes.len(),
{
    if outcomes.len() == 0 {
        0
    } else {
        warnings(counts, outcomes.drop_last()) + if warns(
            after_sends(counts, outcomes.drop_last()),
            outcomes.last(),
        ) {
            1nat
        } else {
            0nat
        }
    }
}

/// Every event is accounted for: those that the channel took in are counted as
/// drained, those that it had no room for as dropped, and while the consumer is
/// there, there are no others.
pub proof fn every_event_is_counted(counts: Counts, outcomes: Seq<SendOutcome>)
    ensures
        ({
            let after = after_sends(counts, outcomes);
            &&& after.drained == counts.drained + occurrences(outcomes, SendOutcome::Sent)
            &&& after.dropped == counts.dropped + occurrences(outcomes, SendOutcome::Full)
            &&& after.drained + after.dropped + occurrences(outcomes, SendOutcome::Closed)
                == counts.drained + counts.dropped + outcomes.len()
        }),
    decreases outcomes.len(),
{
    if outcomes.len() > 0 {
        every_event_is_counted(counts, outcomes.drop_last());
    }
}

/// A drainer warns once for every `WARN_EVERY` events that it has dropped.
pub proof fn warnings_follow_losses(counts: Counts, outcomes: Seq<SendOutcome>)
    ensures
        warnings(counts, outcomes) == after_sends(counts, outcomes).dropped / (WARN_EVERY as nat)
            - counts.dropped / (WARN_EVERY as nat),
    decreases outcomes.len(),
{
    if outcomes.len() > 0 {
        warnings_follow_losses(counts, outcomes.drop_last());
    }
}

/// A pass that began with `this_pass` at 0 ends in a pause exactly when the channel
/// took in none of its events.
pub proof fn passes_without_events_pause(counts: Counts, outcomes: Seq<SendOutcome>)
    requires
        counts.this_pass == 0,
    ensures
        after_sends(counts, outcomes).this_pass == 0 <==> !outcomes.contains(SendOutcome::Sent),
        after_sends(counts, outcomes).this_pass == occurrences(outcomes, SendOutcome::Sent),
    decreases outcomes.len(),
{
    if outcomes.len() > 0 {
        let earlier = outcomes.drop_last();
        passes_without_events_pause(counts, earlier);
        assert(outcomes =~= earlier.push(outcomes.last()));
        if outcomes.contains(SendOutcome::Sent) && outcomes.last() != SendOutcome::Sent {
            let i = choose|i: int| 0 <= i < outcomes.len() && outcomes[i] == SendOutcome::Sent;
            assert(earlier[i] == SendOutcome::Sent);
        }
        if earlier.contains(SendOutcome::Sent) {
            let i = choose|i: int| 0 <= i < earlier.len() && earlier[i] == SendOutcome::Sent;
            assert(outcomes[i] == SendOutcome::Sent);
        }
    }
}

/// `drained` counts what the channel took in, a forwarded record adds its event and
/// no other to the channel, and no other record changes what the channel took in.
pub proof fn drained_counts_accepted(
    before: Counts,
    accepted_before: Seq<SyscallEvent>,
    event: SyscallEvent,
    report: Report,
    after: Counts,
    accepted_after: Seq<SyscallEvent>,
)
    requires
        forwards(before, accepted_before, event.wire(), report, after, accepted_after),
    ensures
        after.drained - before.drained == accepted_after.len() - accepted_before.len(),
        accepted_after == if report == Report::Forwarded {
            accepted_before.push(event)
        } else {
            accepted_before
        },
        !(report is Malformed),
{
    event.wire_fields();
    if report == Report::Forwarded {
        reading_gives_back_the_event(event, Ok(accepted_after.last()));
        assert(accepted_after =~= accepted_before.push(event));
    }
}

/// The report on the record of an event agrees with the answer of the channel to the
/// offer of that event: it is forwarded exactly when the answer was `Sent`, and then it
/// is the last one that the channel took in; otherwise the channel took in nothing.
pub proof fn reports_agree_with_answers(
    before: Counts,
    tx: &mut Sender<SyscallEvent>,
    event: SyscallEvent,
    outcome: SendOutcome,
    report: Report,
    after: Counts,
)
    requires
        forwards(
            before,
            accepted(*old(tx)),
            event.wire(),
            report,
            after,
            accepted(*final(tx)),
        ),
        offer_answered(tx, event, outcome),
    ensures
        report == Report::Forwarded <==> outcome == SendOutcome::Sent,
        after.drained == before.drained + 1 <==> outcome == SendOutcome::Sent,
        outcome == SendOutcome::Sent ==> accepted(*final(tx)).last() == event,
        outcome != SendOutcome::Sent ==> accepted(*final(tx)) == accepted(*old(tx)),
{
    event.wire_fields();
    assert(accepted(*old(tx)).push(event).len() == accepted(*old(tx)).len() + 1);
}

} // verus!
