//! The computation that an adapted handler returns.

use crate::pipeline::converted_step;
use crate::pipeline::transition;
use crate::pipeline::Progress;
use crate::pipeline::Stage;
use crate::response::IntoResponse;
use crate::response::Response;
use async_std::future::Future;
use std::pin::Pin;
use std::task::Context;
use std::task::Poll;
use vstd::prelude::*;

verus! {

/// `std::pin::Pin`, a pointer whose target stays in place. It is carried
/// through; nothing is stated of what it points to.
#[verifier::external_type_specification]
#[verifier::external_body]
#[verifier::reject_recursive_types(Ptr)]
pub struct ExPin<Ptr>(Pin<Ptr>);

/// `std::task::Context`, what a driver hands to the computation it polls. It is
/// carried through to the handler's computation.
#[verifier::external_type_specification]
#[verifier::external_body]
pub struct ExContext<'a>(Context<'a>);

/// `std::task::Poll`, the result of polling. Its two variants are public and
/// are read from std as they stand, so that `poll` can say what it returns.
#[verifier::external_type_specification]
#[verifier::reject_recursive_types(T)]
pub struct ExPoll<T>(Poll<T>);

/// `Box::pin`: moves the computation to the heap and pins it there. Nothing is
/// claimed of the result.
#[verifier::external_body]
fn pin_boxed<Fut>(native: Fut) -> (pinned: Pin<Box<Fut>>) {
    Box::pin(native)
}

/// `Future::poll` on the pinned computation, its result told apart into
/// `Progress`. What comes back depends on the computation and on the world it
/// waits for, so nothing is claimed of it. A computation is not to be polled
/// again once it has resolved: `drive`, the one caller, polls only a
/// computation that is still awaited and drops it at the step at which it
/// resolves.
#[verifier::external_body]
fn poll_pinned<Fut: Future>(
    native: &mut Pin<Box<Fut>>,
    cx: &mut Context<'_>,
) -> (event: Progress<Fut::Output>) {
    match native.as_mut().poll(cx) {
        Poll::Ready(value) => Progress::Ready(value),
        Poll::Pending => Progress::Pending,
    }
}

/// `Pin::get_mut`: the composed computation behind the pin, which is `Unpin`.
/// Nothing is claimed of the result.
#[verifier::external_body]
fn unpinned<'a, Fut>(
    composed: Pin<&'a mut ResponseFuture<Fut>>,
) -> (plain: &'a mut ResponseFuture<Fut>) {
    composed.get_mut()
}

/// The step that a result of polling stands for.
pub open spec fn step_of<T>(poll: Poll<T>) -> Progress<T> {
    match poll {
        Poll::Ready(value) => Progress::Ready(value),
        Poll::Pending => Progress::Pending,
    }
}

/// The computation that an adapted handler returns: it awaits the handler's
/// own computation, then converts the value to a response.
///
/// It owns the handler's computation and drives it from nowhere but its own
/// steps, so a driver that drops it drops the handler's computation with it.
/// At the step at which the handler's computation resolves, that computation
/// is dropped and the response is handed out; from then on every step is
/// pending.
#[verifier::reject_recursive_types(Fut)]
pub struct ResponseFuture<Fut> {
    /// The handler's computation, pinned on the heap, while it is awaited.
    native: Option<Pin<Box<Fut>>>,
    /// The computation that this one was composed from.
    origin: Ghost<Fut>,
}

/// The handler's computation is pinned on the heap by itself, so the composed
/// computation around it may be moved.
impl<Fut> Unpin for ResponseFuture<Fut> {
}

impl<Fut: Future> ResponseFuture<Fut> where Fut::Output: IntoResponse {
    /// The stage that the computation is in.
    pub closed spec fn stage(&self) -> Stage {
        if self.native is Some {
            Stage::Awaiting
        } else {
            Stage::Resolved
        }
    }

    /// The handler's computation that this one was composed from.
    pub closed spec fn native(&self) -> Fut {
        self.origin@
    }

    /// Composes the computation that awaits `native` and converts its value.
    pub fn new(native: Fut) -> (composed: Self)
        ensures
            composed.stage() == Stage::Awaiting,
            composed.native() == native,
    {
        let origin = Ghost(native);
        ResponseFuture { native: Some(pin_boxed(native)), origin }
    }

    /// Whether the response has been handed out.
    pub fn is_resolved(&self) -> (resolved: bool)
        ensures
            resolved == (self.stage() == Stage::Resolved),
    {
        self.native.is_none()
    }

    /// Takes one event of the handler's computation and makes the step that
    /// answers it.
    pub fn settle(&mut self, event: Progress<Fut::Output>) -> (out: Progress<Response>)
        ensures
            (final(self).stage(), out@) == transition(old(self).stage(), event),
            final(self).native() == old(self).native(),
    {
        if self.native.is_none() {
            return Progress::Pending;
        }
        match event {
            Progress::Pending => Progress::Pending,
            Progress::Ready(value) => {
                self.native = None;
                Progress::Ready(value.into_response())
            },
        }
    }

    /// Drives the computation once: while it awaits, polls the handler's
    /// computation and answers the event that comes back; once resolved, is
    /// pending without polling anything.
    ///
    /// The event is the handler's to decide. Whatever it is, the step is the
    /// one that `transition` gives for it. A fault inside the handler's
    /// computation is not caught here: it reaches the driver.
    pub fn drive(&mut self, cx: &mut Context<'_>) -> (out: Progress<Response>)
        ensures
            exists|event: Progress<Fut::Output>|
                (final(self).stage(), out@) == #[trigger] transition(old(self).stage(), event),
            final(self).native() == old(self).native(),
    {
        let event = match &mut self.native {
            Some(native) => poll_pinned(native, cx),
            None => Progress::Pending,
        };
        self.settle(event)
    }
}

impl<Fut: Future> Future for ResponseFuture<Fut> where Fut::Output: IntoResponse {
    type Output = Response;

    /// One step for a driver of futures: `drive`, behind the pin and in the
    /// driver's own terms.
    ///
    /// Whatever the handler's computation does, the step is the conversion of
    /// a step of the handler's: it is pending, or it hands out the response
    /// that a value of the handler's converts to.
    fn poll(self: Pin<&mut Self>, cx: &mut Context<'_>) -> (out: Poll<Response>)
        ensures
            exists|event: Progress<Fut::Output>| step_of(out)@ == #[trigger] converted_step(event),
    {
        let composed = unpinned(self);
        let ghost before = composed.stage();
        let step = composed.drive(cx);
        proof {
            if before == Stage::Resolved {
                // A resolved computation is pending, as a pending event converted is.
                assert(step@ == converted_step(Progress::<Fut::Output>::Pending));
            }
        }
        match step {
            Progress::Ready(response) => Poll::Ready(response),
            Progress::Pending => Poll::Pending,
        }
    }
}

} // verus!
