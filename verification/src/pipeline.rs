//! The composed computation as a state machine, and the laws that hold of it.
//!
//! A handler's own computation is seen here through its events, one for each
//! time it is driven: pending, or ready with its value. The composed
//! computation answers each event with a step of its own. It has two stages
//! and no branch: it awaits, then it has resolved.

use crate::response::IntoResponse;
use crate::response::ResponseView;
use vstd::prelude::*;

verus! {

/// What one step of an asynchronous computation yields.
#[derive(Debug, PartialEq, Eq)]
pub enum Progress<T> {
    /// Not resolved yet: the computation is to be driven again.
    Pending,
    /// Resolved, with the value.
    Ready(T),
}

impl<T: View> View for Progress<T> {
    type V = Progress<T::V>;

    open spec fn view(&self) -> Progress<T::V> {
        match *self {
            Progress::Pending => Progress::Pending,
            Progress::Ready(value) => Progress::Ready(value@),
        }
    }
}

/// Where a composed computation stands.
#[derive(Clone, Copy, Debug, PartialEq, Eq, Structural)]
pub enum Stage {
    /// It waits for the handler's own computation.
    Awaiting,
    /// It has handed out its response.
    Resolved,
}

/// The second stage alone: a pending step stays pending, a value becomes the
/// response that it converts to.
pub open spec fn converted_step<T: IntoResponse>(event: Progress<T>) -> Progress<ResponseView> {
    match event {
        Progress::Pending => Progress::Pending,
        Progress::Ready(value) => Progress::Ready(value.converted()),
    }
}

/// One step of the composed computation: from its stage and the event of the
/// handler's computation to its next stage and what it hands to its driver.
///
/// While it awaits, it passes the event on, converted. Once resolved it hands
/// out nothing more, whatever the event.
pub open spec fn transition<T: IntoResponse>(stage: Stage, event: Progress<T>) -> (
    Stage,
    Progress<ResponseView>,
) {
    match stage {
        Stage::Awaiting => (
            if event is Ready {
                Stage::Resolved
            } else {
                Stage::Awaiting
            },
            converted_step(event),
        ),
        Stage::Resolved => (Stage::Resolved, Progress::Pending),
    }
}

/// A composed computation driven once for each of `events`, in order: the
/// stage it ends in, and what it handed out at each step.
pub open spec fn run<T: IntoResponse>(stage: Stage, events: Seq<Progress<T>>) -> (
    Stage,
    Seq<Progress<ResponseView>>,
)
    decreases events.len(),
{
    if events.len() == 0 {
        (stage, Seq::empty())
    } else {
        let (next, out) = transition(stage, events.first());
        let (last, outs) = run(next, events.drop_first());
        (last, seq![out] + outs)
    }
}

/// What awaiting a computation yields, given its steps: the value of the
/// first step that is ready, and nothing where no step is.
pub open spec fn awaited<A>(steps: Seq<Progress<A>>) -> Option<A>
    decreases steps.len(),
{
    if steps.len() == 0 {
        None
    } else {
        match steps.first() {
            Progress::Ready(value) => Some(value),
            Progress::Pending => awaited(steps.drop_first()),
        }
    }
}

/// Whether `steps` resolve at the step `at`: it is ready, and none before it is.
pub open spec fn resolves_at<A>(steps: Seq<Progress<A>>, at: int) -> bool {
    &&& 0 <= at < steps.len()
    &&& steps[at] is Ready
    &&& forall|before: int| 0 <= before < at ==> steps[before] is Pending
}

/// A resolved computation stays resolved and hands out nothing more.
pub proof fn lemma_resolved_is_final<T: IntoResponse>(events: Seq<Progress<T>>)
    ensures
        run(Stage::Resolved, events).0 == Stage::Resolved,
        run(Stage::Resolved, events).1.len() == events.len(),
        forall|at: int|
            0 <= at < events.len() ==> #[trigger] run(Stage::Resolved, events).1[at] is Pending,
        awaited(run(Stage::Resolved, events).1) is None,
    decreases events.len(),
{
    if events.len() > 0 {
        lemma_resolved_is_final(events.drop_first());
        let outs = run(Stage::Resolved, events).1;
        let rest = run(Stage::Resolved, events.drop_first()).1;
        assert(outs.drop_first() == rest);
        assert forall|at: int| 0 <= at < events.len() implies #[trigger] outs[at] is Pending by {
            if at > 0 {
                assert(outs[at] == rest[at - 1]);
            }
        }
    }
}

/// Awaiting a composed computation yields the response that the handler's
/// value converts to, the value being the one that awaiting the handler's
/// computation yields. Where the handler's computation never resolves, neither
/// does the composed one.
pub proof fn lemma_awaited_is_converted<T: IntoResponse>(events: Seq<Progress<T>>)
    ensures
        awaited(run(Stage::Awaiting, events).1) == match awaited(events) {
            Some(value) => Some(value.converted()),
            None => None,
        },
    decreases events.len(),
{
    if events.len() > 0 {
        let (next, out) = transition(Stage::Awaiting, events.first());
        let rest = run(next, events.drop_first()).1;
        let outs = run(Stage::Awaiting, events).1;
        assert(outs.first() == out);
        assert(outs.drop_first() == rest);
        if events.first() is Pending {
            lemma_awaited_is_converted(events.drop_first());
        }
    }
}

/// Behind a pending first step, the steps resolve where the rest of them
/// resolves, one step later.
proof fn lemma_resolves_behind_pending<A>(steps: Seq<Progress<A>>, at: int)
    requires
        steps.len() > 0,
        steps.first() is Pending,
    ensures
        resolves_at(steps, at) <==> at >= 1 && resolves_at(steps.drop_first(), at - 1),
{
    let rest = steps.drop_first();
    if at >= 1 && resolves_at(rest, at - 1) {
        assert(steps[at] == rest[at - 1]);
        assert forall|before: int| 0 <= before < at implies steps[before] is Pending by {
            if before > 0 {
                assert(steps[before] == rest[before - 1]);
            }
        }
    }
    if resolves_at(steps, at) {
        assert(rest[at - 1] == steps[at]);
        assert forall|before: int| 0 <= before < at - 1 implies rest[before] is Pending by {
            assert(rest[before] == steps[before + 1]);
        }
    }
}

/// One response, at one step: a composed computation hands out a response at
/// the step at which the handler's computation resolves, the conversion of its
/// value, and is pending at every other step, before and after. It ends
/// resolved where the handler's computation resolved, and awaiting otherwise.
pub proof fn lemma_single_response<T: IntoResponse>(events: Seq<Progress<T>>)
    ensures
        run(Stage::Awaiting, events).1.len() == events.len(),
        forall|at: int|
            0 <= at < events.len() ==> #[trigger] run(Stage::Awaiting, events).1[at] == (
            if resolves_at(events, at) {
                converted_step(events[at])
            } else {
                Progress::Pending
            }),
        run(Stage::Awaiting, events).0 == (if awaited(events) is Some {
            Stage::Resolved
        } else {
            Stage::Awaiting
        }),
    decreases events.len(),
{
    if events.len() > 0 {
        let tail = events.drop_first();
        let outs = run(Stage::Awaiting, events).1;
        if events.first() is Ready {
            // The response goes out at once; the rest runs resolved.
            lemma_resolved_is_final(tail);
            let rest = run(Stage::Resolved, tail).1;
            assert forall|at: int| 0 <= at < events.len() implies #[trigger] outs[at] == (
            if resolves_at(events, at) {
                converted_step(events[at])
            } else {
                Progress::Pending
            }) by {
                if at > 0 {
                    assert(outs[at] == rest[at - 1]);
                    assert(events[0] is Ready);
                }
            }
        } else {
            // Nothing goes out yet; the rest runs as a computation that awaits.
            lemma_single_response(tail);
            let rest = run(Stage::Awaiting, tail).1;
            assert forall|at: int| 0 <= at < events.len() implies #[trigger] outs[at] == (
            if resolves_at(events, at) {
                converted_step(events[at])
            } else {
                Progress::Pending
            }) by {
                lemma_resolves_behind_pending(events, at);
                if at > 0 {
                    assert(outs[at] == rest[at - 1]);
                    assert(events[at] == tail[at - 1]);
                }
            }
        }
    }
}

/// At most one step of a composed computation hands out a response.
pub proof fn lemma_at_most_one_response<T: IntoResponse>(
    events: Seq<Progress<T>>,
    one: int,
    other: int,
)
    requires
        0 <= one < events.len(),
        0 <= other < events.len(),
        run(Stage::Awaiting, events).1[one] is Ready,
        run(Stage::Awaiting, events).1[other] is Ready,
    ensures
        one == other,
{
    lemma_single_response(events);
    assert(resolves_at(events, one) && resolves_at(events, other));
}

/// One turn of a schedule that drives two computations side by side: an event
/// of the first handler's computation, or one of the second's.
pub ghost enum Turn<A, B> {
    First(Progress<A>),
    Second(Progress<B>),
}

/// The events that a schedule brings to the first computation, in order.
pub open spec fn events_of_first<A, B>(schedule: Seq<Turn<A, B>>) -> Seq<Progress<A>>
    decreases schedule.len(),
{
    if schedule.len() == 0 {
        Seq::empty()
    } else {
        match schedule.first() {
            Turn::First(event) => seq![event] + events_of_first(schedule.drop_first()),
            Turn::Second(_) => events_of_first(schedule.drop_first()),
        }
    }
}

/// The events that a schedule brings to the second computation, in order.
pub open spec fn events_of_second<A, B>(schedule: Seq<Turn<A, B>>) -> Seq<Progress<B>>
    decreases schedule.len(),
{
    if schedule.len() == 0 {
        Seq::empty()
    } else {
        match schedule.first() {
            Turn::First(_) => events_of_second(schedule.drop_first()),
            Turn::Second(event) => seq![event] + events_of_second(schedule.drop_first()),
        }
    }
}

/// Two composed computations driven side by side, each turn of the schedule
/// stepping the one that it names: for each, the stage it ends in and what it
/// handed out at its steps.
pub open spec fn run_both<A: IntoResponse, B: IntoResponse>(
    first: Stage,
    second: Stage,
    schedule: Seq<Turn<A, B>>,
) -> ((Stage, Seq<Progress<ResponseView>>), (Stage, Seq<Progress<ResponseView>>))
    decreases schedule.len(),
{
    if schedule.len() == 0 {
        ((first, Seq::empty()), (second, Seq::empty()))
    } else {
        match schedule.first() {
            Turn::First(event) => {
                let (next, out) = transition(first, event);
                let (one, other) = run_both(next, second, schedule.drop_first());
                ((one.0, seq![out] + one.1), other)
            },
            Turn::Second(event) => {
                let (next, out) = transition(second, event);
                let (one, other) = run_both(first, next, schedule.drop_first());
                (one, (other.0, seq![out] + other.1))
            },
        }
    }
}

/// Of two computations driven side by side, each ends in the stage and hands
/// out the responses that it would if it were driven alone with its own
/// events, however the turns of the two are interleaved.
pub proof fn lemma_side_by_side_is_apart<A: IntoResponse, B: IntoResponse>(
    first: Stage,
    second: Stage,
    schedule: Seq<Turn<A, B>>,
)
    ensures
        run_both(first, second, schedule).0 == run(first, events_of_first(schedule)),
        run_both(first, second, schedule).1 == run(second, events_of_second(schedule)),
    decreases schedule.len(),
{
    if schedule.len() > 0 {
        let rest = schedule.drop_first();
        match schedule.first() {
            Turn::First(event) => {
                let next = transition(first, event).0;
                lemma_side_by_side_is_apart(next, second, rest);
                assert(events_of_first(schedule).drop_first() == events_of_first(rest));
            },
            Turn::Second(event) => {
                let next = transition(second, event).0;
                lemma_side_by_side_is_apart(first, next, rest);
                assert(events_of_second(schedule).drop_first() == events_of_second(rest));
            },
        }
    }
}

} // verus!
