//! The handler capability, and the adapter that gives it to plain functions.

use crate::computation::ResponseFuture;
use crate::pipeline::awaited;
use crate::pipeline::events_of_first;
use crate::pipeline::events_of_second;
use crate::pipeline::lemma_awaited_is_converted;
use crate::pipeline::lemma_side_by_side_is_apart;
use crate::pipeline::run;
use crate::pipeline::run_both;
use crate::pipeline::Progress;
use crate::pipeline::Stage;
use crate::pipeline::Turn;
use crate::request::Request;
use crate::response::IntoResponse;
use crate::response::Response;
use async_std::future::Future;
use vstd::prelude::*;

verus! {

/// An HTTP request handler.
///
/// A router holds handlers of many shapes behind this one capability and
/// invokes each through `call` alone. One handler serves every request of its
/// route, so it is shared between invocations that run side by side.
///
/// Every function that takes a `Request<State>` and returns a future whose
/// value implements `IntoResponse` is an endpoint, so the trait is rarely
/// implemented by hand.
pub trait Endpoint<State>: Send + Sync + 'static {
    /// The asynchronous computation that an invocation returns.
    type Fut: Future<Output = Response> + Send + 'static;

    /// Whether the endpoint may be invoked with `cx`. An endpoint that does
    /// not say otherwise takes every request.
    open spec fn accepts(&self, cx: Request<State>) -> bool {
        true
    }

    /// Invokes the endpoint with the given request, which it takes over.
    fn call(&self, cx: Request<State>) -> (fut: Self::Fut)
        requires
            self.accepts(cx),
    ;
}

/// Whether `composed` is a computation that invoking `handler` with `cx` may
/// return: one that awaits a computation that `handler` returns for `cx`.
pub open spec fn invoked<State, F, Fut>(
    handler: F,
    cx: Request<State>,
    composed: ResponseFuture<Fut>,
) -> bool where F: Fn(Request<State>) -> Fut, Fut: Future, Fut::Output: IntoResponse {
    &&& composed.stage() == Stage::Awaiting
    &&& call_ensures(handler, (cx,), composed.native())
}

/// Invokes a function as an endpoint: calls it once, with `cx`, and composes
/// the computation that awaits what the function returned and converts its
/// value. This is all that the adapter does; `call` on a function is this.
pub fn invoke<State, F, Fut>(handler: &F, cx: Request<State>) -> (composed: ResponseFuture<
    Fut,
>) where F: Fn(Request<State>) -> Fut, Fut: Future, Fut::Output: IntoResponse
    requires
        call_requires(*handler, (cx,)),
    ensures
        invoked(*handler, cx, composed),
{
    let native = handler(cx);
    ResponseFuture::new(native)
}

// `Fn` has an unstable method that is named `call` too.
#[allow(unstable_name_collisions)]
impl<State, F: Send + Sync + 'static, Fut> Endpoint<State> for F where
    F: Fn(Request<State>) -> Fut,
    Fut: Future + Send + 'static,
    Fut::Output: IntoResponse,
 {
    type Fut = ResponseFuture<Fut>;

    /// A function takes the requests that its own precondition admits.
    open spec fn accepts(&self, cx: Request<State>) -> bool {
        call_requires(*self, (cx,))
    }

    fn call(&self, cx: Request<State>) -> (composed: ResponseFuture<Fut>)
        ensures
            invoked(*self, cx, composed),
    {
        invoke(self, cx)
    }
}

/// The adapter asks nothing of its own: as an endpoint, a function takes
/// exactly the requests that it takes as a function. A caller that holds one
/// function learns it of that function here.
pub proof fn lemma_function_accepts<State, F, Fut>(handler: F, cx: Request<State>) where
    F: Fn(Request<State>) -> Fut + Send + Sync + 'static,
    Fut: Future + Send + 'static,
    Fut::Output: IntoResponse,

    ensures
        handler.accepts(cx) <==> call_requires(handler, (cx,)),
{
}

/// Conversion equivalence: whatever the events of the handler's computation,
/// awaiting the computation that an invocation returned yields the response
/// that the handler's value converts to, the value being the one that
/// awaiting the handler's computation yields. Where the handler's computation
/// never resolves, neither does the invocation.
pub proof fn lemma_conversion_equivalence<State, F, Fut>(
    handler: F,
    cx: Request<State>,
    composed: ResponseFuture<Fut>,
    events: Seq<Progress<Fut::Output>>,
) where F: Fn(Request<State>) -> Fut, Fut: Future, Fut::Output: IntoResponse
    requires
        invoked(handler, cx, composed),
    ensures
        awaited(run(composed.stage(), events).1) == match awaited(events) {
            Some(value) => Some(value.converted()),
            None => None,
        },
{
    lemma_awaited_is_converted(events);
}

/// Isolation: of two invocations of one handler that are driven side by side,
/// each ends in the stage and hands out the responses that it would if it
/// were driven alone with the events of its own handler computation, however
/// the turns of the two are interleaved.
pub proof fn lemma_isolation<State, F, Fut>(
    handler: F,
    one: Request<State>,
    other: Request<State>,
    first: ResponseFuture<Fut>,
    second: ResponseFuture<Fut>,
    schedule: Seq<Turn<Fut::Output, Fut::Output>>,
) where F: Fn(Request<State>) -> Fut, Fut: Future, Fut::Output: IntoResponse
    requires
        invoked(handler, one, first),
        invoked(handler, other, second),
    ensures
        run_both(first.stage(), second.stage(), schedule).0 == run(
            first.stage(),
            events_of_first(schedule),
        ),
        run_both(first.stage(), second.stage(), schedule).1 == run(
            second.stage(),
            events_of_second(schedule),
        ),
{
    lemma_side_by_side_is_apart(first.stage(), second.stage(), schedule);
}

/// Adapting a function over again yields the same handler: two computations
/// that come from invoking one function with one request start out in the same
/// stage and, driven by the same events, hand out the same responses step by
/// step. Where the function returns but one computation for the request, they
/// are composed from the same one.
pub proof fn lemma_adaptation_repeatable<State, F, Fut>(
    handler: F,
    cx: Request<State>,
    first: ResponseFuture<Fut>,
    second: ResponseFuture<Fut>,
    events: Seq<Progress<Fut::Output>>,
) where F: Fn(Request<State>) -> Fut, Fut: Future, Fut::Output: IntoResponse
    requires
        invoked(handler, cx, first),
        invoked(handler, cx, second),
    ensures
        first.stage() == second.stage(),
        run(first.stage(), events) == run(second.stage(), events),
        (forall|one: Fut, other: Fut|
            #[trigger] call_ensures(handler, (cx,), one) && #[trigger] call_ensures(
                handler,
                (cx,),
                other,
            ) ==> one == other) ==> first.native() == second.native(),
{
}

} // verus!
