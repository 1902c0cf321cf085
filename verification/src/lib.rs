//! The handler layer of an HTTP server: one capability, `Endpoint`, through
//! which a router invokes handlers of any shape, and the adapter that lets
//! every function from a request to an awaitable, response-convertible value
//! stand as such a handler.
//!
//! An adapted handler answers each invocation with a `ResponseFuture`: it
//! awaits the handler's own computation, then converts the value to the one
//! canonical `Response`. The module `pipeline` holds that two-stage machine
//! as mathematics, with the laws that are proved of it.

pub mod computation;
pub mod endpoint;
pub mod pipeline;
pub mod request;
pub mod response;

pub use crate::computation::ResponseFuture;
pub use crate::endpoint::invoke;
pub use crate::endpoint::Endpoint;
pub use crate::pipeline::Progress;
pub use crate::pipeline::Stage;
pub use crate::request::Request;
pub use crate::request::RequestView;
pub use crate::response::IntoResponse;
pub use crate::response::Response;
pub use crate::response::ResponseView;
