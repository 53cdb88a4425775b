//! Request-dispatch core of an HTTP server toolkit.
//!
//! An inbound request runs through an ordered middleware chain, is routed by
//! path prefix to a controller, matched against the controller's dispatch
//! table by method and path pattern, validated by guards, and finally handed
//! to a handler; the resulting response is assembled by a builder.  Every
//! step of that pipeline lives here with a contract describing exactly which
//! entry wins, which status code is produced, and how the request and the
//! response builder change.

pub mod message;
pub mod middleware;
pub mod controller;
pub mod pattern;
pub mod router;
pub mod server;

pub use crate::controller::BasicController;
pub use crate::controller::BodyGuard;
pub use crate::controller::Controller;
pub use crate::controller::ControllerDispatch;
pub use crate::controller::RequestGuard;
pub use crate::controller::RequestGuardCollection;
pub use crate::message::BinaryRequest;
pub use crate::message::Method;
pub use crate::message::Request;
pub use crate::message::RequestContinuation;
pub use crate::message::Response;
pub use crate::message::ResponseBuilder;
pub use crate::middleware::Middleware;
pub use crate::middleware::MiddlewareStack;
pub use crate::router::Router;
pub use crate::server::ServerError;
