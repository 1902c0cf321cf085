//! The context that a handler is invoked with.

use std::sync::Arc;
use vstd::prelude::*;

verus! {

/// What a handler receives for one invocation: access to the state that the
/// server's handlers share, and the body that the client sent.
///
/// A request is handed over by value: once invoked, the handler alone owns it.
pub struct Request<State> {
    state: Arc<State>,
    body: Vec<u8>,
}

/// A request as a mathematical value.
pub ghost struct RequestView<State> {
    pub state: State,
    pub body: Seq<u8>,
}

impl<State> View for Request<State> {
    type V = RequestView<State>;

    closed spec fn view(&self) -> RequestView<State> {
        RequestView { state: *self.state, body: self.body@ }
    }
}

impl<State> Request<State> {
    /// A request that carries `body` and gives access to `state`.
    pub fn new(state: Arc<State>, body: Vec<u8>) -> (request: Request<State>)
        ensures
            request@ == (RequestView { state: *state, body: body@ }),
    {
        Request { state, body }
    }

    /// The state shared by the server's handlers.
    pub fn state(&self) -> (state: &State)
        ensures
            *state == self@.state,
    {
        &*self.state
    }

    /// The body that came with the request.
    pub fn body(&self) -> (body: &Vec<u8>)
        ensures
            body@ == self@.body,
    {
        &self.body
    }
}

} // verus!
