//! A small request dispatch engine: routes, typed parameter extraction,
//! shared state and uniform conversion of results into responses.
//!
//! A request goes through these stages, and the first that fails ends it:
//!
//! 1. the [`Router`] finds the first registered route that accepts the
//!    method and the path of the request;
//! 2. the path parameters that the route declares are parsed from the
//!    segments its placeholders captured;
//! 3. where the route declares a body, the body is decoded;
//! 4. the shared state that the route declares is looked up in the
//!    [`Container`];
//! 5. the [`Handler`] is called with the assembled inputs;
//! 6. what it returned, or the failure of an earlier stage, becomes the
//!    [`Response`].
//!
//! Every function of this crate is verified with Verus. The proofs rest
//! on a few unverified bodies, each marked `external_body` and described
//! where it stands: the type-erased handles of [`state`], the quoting of
//! texts in [`responder`] and the calls into `serde_json` in [`json`].

pub mod data;
pub mod dispatch;
pub mod errors;
pub mod foreign;
pub mod handler;
pub mod json;
pub mod parse;
pub mod pattern;
pub mod request;
pub mod responder;
pub mod response;
pub mod route;
pub mod router;
pub mod server;
pub mod state;
pub mod text;

pub use data::{from_data_req, FromData};
pub use errors::{Error, ErrorKind};
pub use handler::{Arguments, Handler};
pub use json::Json;
pub use parse::{ParamType, ParamValue, ParseFailure};
pub use pattern::{Params, PathPattern, PatternError, Segment};
pub use request::{Method, Request};
pub use responder::{LiftError, Responder};
pub use response::Response;
pub use route::{ParamSource, ParamSpec, RouteDescriptor, RouteError};
pub use router::{Resolved, Route, Router};
pub use server::Server;
pub use state::{Container, Handle, State, TypeKey};
