//! What draining the ring buffer comes to, over any number of records and passes.
use crate::drain::{
    after_pass, forwards, lost_unwarned, pass_end, Counts, PassEnd, Report, WARN_EVERY,
};
use crate::event::SyscallEvent;
use vstd::prelude::*;

verus! {

/// What a drainer and its channel have come to.
pub ghost struct DrainState {
    /// The counters of the drainer.
    pub counts: Counts,
    /// The events that the channel has taken in.
    pub accepted: Seq<SyscallEvent>,
}

/// A step of draining the ring buffer.
pub ghost enum DrainStep {
    /// A record was forwarded, with this report.
    Record { record: Seq<u8>, report: Report },
    /// A pass ended.
    Pass { closed: bool, end: PassEnd },
}

/// Whether `step` leads from one state to the other.
pub open spec fn leads_to(before: DrainState, step: DrainStep, after: DrainState) -> bool {
    match step {
        DrainStep::Record { record, report } => forwards(
            before.counts,
            before.accepted,
            record,
            report,
            after.counts,
            after.accepted,
        ),
        DrainStep::Pass { closed, end } => {
            &&& end == pass_end(before.counts, closed)
            &&& after.counts == after_pass(before.counts)
            &&& after.accepted == before.accepted
        },
    }
}

/// Whether `steps` lead through `states`, from the first to the last.
pub open spec fn is_run(states: Seq<DrainState>, steps: Seq<DrainStep>) -> bool {
    &&& states.len() == steps.len() + 1
    &&& forall|i: int|
        0 <= i < steps.len() ==> leads_to(states[i], #[trigger] steps[i], states[i + 1])
}

/// Whether `step` ends the draining: the channel was closed when an event was offered
/// to it, or when a pass ended.
pub open spec fn ends_draining(step: DrainStep) -> bool {
    match step {
        DrainStep::Record { report, .. } => report == Report::ConsumerClosed,
        DrainStep::Pass { end, .. } => end == PassEnd::Stop,
    }
}

/// The number of steps with the property `pred`.
pub open spec fn steps_with(steps: Seq<DrainStep>, pred: spec_fn(DrainStep) -> bool) -> nat
    decreases steps.len(),
{
    if steps.len() == 0 {
        0
    } else {
        steps_with(steps.drop_last(), pred) + if pred(steps.last()) {
            1nat
        } else {
            0nat
        }
    }
}

/// The records among the steps whose events were forwarded, in ring order.
pub open spec fn forwarded_records(steps: Seq<DrainStep>) -> Seq<Seq<u8>>
    decreases steps.len(),
{
    if steps.len() == 0 {
        Seq::empty()
    } else {
        let earlier = forwarded_records(steps.drop_last());
        match steps.last() {
            DrainStep::Record { record, report: Report::Forwarded } => earlier.push(record),
            _ => earlier,
        }
    }
}

/// The number of records whose events were forwarded since the last pass ended.
pub open spec fn forwarded_this_pass(steps: Seq<DrainStep>) -> nat
    decreases steps.len(),
{
    if steps.len() == 0 {
        0
    } else {
        match steps.last() {
            DrainStep::Pass { .. } => 0,
            DrainStep::Record { report: Report::Forwarded, .. } => forwarded_this_pass(
                steps.drop_last(),
            ) + 1,
            _ => forwarded_this_pass(steps.drop_last()),
        }
    }
}

/// A record of the ring buffer.
pub open spec fn is_record(step: DrainStep) -> bool {
    step is Record
}

/// A record whose event the channel took in.
pub open spec fn is_forwarded(step: DrainStep) -> bool {
    step is Record && step->report == Report::Forwarded
}

/// A record whose event the channel had no room for.
pub open spec fn is_dropped(step: DrainStep) -> bool {
    step is Record && step->report is Dropped
}

/// A record that is no event.
pub open spec fn is_malformed(step: DrainStep) -> bool {
    step is Record && step->report is Malformed
}

/// A record whose event met a closed channel.
pub open spec fn is_refused(step: DrainStep) -> bool {
    step is Record && step->report == Report::ConsumerClosed
}

/// A record whose loss brought a warning.
pub open spec fn is_warning(step: DrainStep) -> bool {
    step is Record && step->report == (Report::Dropped { warn: true })
}

/// A run without its last step is a run.
proof fn run_without_last(states: Seq<DrainState>, steps: Seq<DrainStep>)
    requires
        is_run(states, steps),
        steps.len() > 0,
    ensures
        is_run(states.drop_last(), steps.drop_last()),
        leads_to(states.drop_last().last(), steps.last(), states.last()),
{
    assert(leads_to(states[steps.len() - 1], steps[steps.len() - 1], states[steps.len() as int]));
    assert forall|i: int| 0 <= i < steps.drop_last().len() implies leads_to(
        states.drop_last()[i],
        #[trigger] steps.drop_last()[i],
        states.drop_last()[i + 1],
    ) by {
        assert(steps.drop_last()[i] == steps[i]);
    }
}

/// Over any run of the drainer every record of the ring buffer is accounted for: it
/// was drained, dropped, malformed, or met a closed channel. The drainer counts those
/// that it drained and those that it dropped, in total and, of the former, since the
/// last pass ended, and it warns once for every `WARN_EVERY` that it dropped.
pub proof fn every_record_is_accounted_for(states: Seq<DrainState>, steps: Seq<DrainStep>)
    requires
        is_run(states, steps),
    ensures
        ({
            let begin = states.first().counts;
            let end = states.last().counts;
            &&& end.drained + end.dropped + steps_with(steps, |s| is_malformed(s)) + steps_with(
                steps,
                |s| is_refused(s),
            ) == begin.drained + begin.dropped + steps_with(steps, |s| is_record(s))
            &&& end.drained == begin.drained + steps_with(steps, |s| is_forwarded(s))
            &&& end.dropped == begin.dropped + steps_with(steps, |s| is_dropped(s))
            &&& begin.this_pass == 0 ==> end.this_pass == forwarded_this_pass(steps)
            &&& steps_with(steps, |s| is_warning(s)) == end.dropped / (WARN_EVERY as nat)
                - begin.dropped / (WARN_EVERY as nat)
        }),
    decreases steps.len(),
{
    if steps.len() > 0 {
        run_without_last(states, steps);
        every_record_is_accounted_for(states.drop_last(), steps.drop_last());
    }
}

/// No loss goes without a warning: at whatever point a run of the drainer ends, if it
/// began with nothing dropped and has dropped an event, either there was a warning
/// during the run, or the one at the end is due, and not both. Without a loss there is
/// neither.
pub proof fn losses_are_warned_of(states: Seq<DrainState>, steps: Seq<DrainStep>)
    requires
        is_run(states, steps),
        states.first().counts.dropped == 0,
    ensures
        ({
            let warned = steps_with(steps, |s| is_warning(s)) > 0;
            let due_at_the_end = lost_unwarned(states.last().counts);
            &&& steps_with(steps, |s| is_dropped(s)) > 0 <==> warned || due_at_the_end
            &&& !(warned && due_at_the_end)
        }),
{
    every_record_is_accounted_for(states, steps);
}

/// Over any run of the drainer the channel takes in, behind what it held, the events
/// of the forwarded records, in ring order, and no others.
pub proof fn forwarded_events_stay_in_order(states: Seq<DrainState>, steps: Seq<DrainStep>)
    requires
        is_run(states, steps),
    ensures
        ({
            let held = states.first().accepted;
            let holds = states.last().accepted;
            &&& held.is_prefix_of(holds)
            &&& holds.skip(held.len() as int).map_values(|event: SyscallEvent| event.wire())
                == forwarded_records(steps)
        }),
    decreases steps.len(),
{
    let held = states.first().accepted;
    let holds = states.last().accepted;
    let wire = |event: SyscallEvent| event.wire();
    if steps.len() == 0 {
        assert(holds.skip(held.len() as int).map_values(wire) =~= forwarded_records(steps));
    } else {
        let held_earlier = states.drop_last().last().accepted;
        run_without_last(states, steps);
        forwarded_events_stay_in_order(states.drop_last(), steps.drop_last());
        if is_forwarded(steps.last()) {
            assert(holds =~= held_earlier.push(holds.last()));
            assert(holds.skip(held.len() as int).map_values(wire) =~= held_earlier.skip(
                held.len() as int,
            ).map_values(wire).push(holds.last().wire()));
        }
    }
}

/// Draining does not wait for another record to end: an empty ring buffer ends it
/// exactly when the receiving half of the channel is closed by then. Whichever step
/// ends it, nothing is counted and the channel takes in nothing.
pub proof fn draining_ends_with_the_channel(before: DrainState, step: DrainStep, after: DrainState)
    requires
        leads_to(before, step, after),
    ensures
        step matches DrainStep::Pass { closed, .. } ==> (ends_draining(step) <==> closed),
        ends_draining(step) ==> {
            &&& after.accepted == before.accepted
            &&& after.counts.drained == before.counts.drained
            &&& after.counts.dropped == before.counts.dropped
        },
{
}

} // verus!
