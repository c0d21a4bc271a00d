//! What a server holds between requests, and how it answers one.

use vstd::prelude::*;
use crate::dispatch::{conclude, concludes, ends_with};
use crate::errors::Error;
use crate::handler::Handler;
use crate::request::Request;
use crate::response::Response;
use crate::router::Router;
use crate::state::{Container, TypeKey};

verus! {

/// The routes and the shared state of an application. Both are set up
/// before the first request and only read afterwards.
pub struct Server<H> {
    router: Router<H>,
    state: Container,
}

impl<H> Server<H> {
    /// The routes of the server.
    pub closed spec fn router_view(&self) -> Router<H> {
        self.router
    }

    /// The shared state of the server.
    pub closed spec fn state_view(&self) -> Container {
        self.state
    }

    /// A server for the routes of `router`, with no shared state yet.
    pub fn new(router: Router<H>) -> (s: Server<H>)
        ensures
            s.router_view() == router,
            s.state_view().keys() == Seq::<TypeKey>::empty(),
    {
        Server { router, state: Container::new() }
    }

    /// Registers `state` as the shared value of its type. Each type is
    /// registered once: a second value of a type is a mistake of the
    /// program that sets the server up.
    pub fn manage_state<T: 'static>(self, state: T) -> (s: Server<H>)
        requires
            !self.state_view().has::<T>(),
        ensures
            s.router_view() == self.router_view(),
            s.state_view().has::<T>(),
            s.state_view().value::<T>() == state,
            s.state_view().keys() == self.state_view().keys().push(crate::state::key_of::<T>()),
            forall|k: TypeKey|
                self.state_view().has_key(k) ==> s.state_view().has_key(k) && s.state_view().handle_of(
                    k,
                ) == self.state_view().handle_of(k),
    {
        let mut container = self.state;
        container.set(state);
        Server { router: self.router, state: container }
    }

    /// Registers `state` as the shared value of its type, unless a value
    /// of that type is registered already: then the server is handed back
    /// as it was.
    pub fn try_manage_state<T: 'static>(self, state: T) -> (r: Result<Server<H>, Server<H>>)
        ensures
            r is Ok <==> !self.state_view().has::<T>(),
            r matches Err(s) ==> s == self,
            r matches Ok(s) ==> {
                &&& s.router_view() == self.router_view()
                &&& s.state_view().has::<T>()
                &&& s.state_view().value::<T>() == state
                &&& s.state_view().keys() == self.state_view().keys().push(
                    crate::state::key_of::<T>(),
                )
                &&& forall|k: TypeKey|
                    self.state_view().has_key(k) ==> s.state_view().has_key(k)
                        && s.state_view().handle_of(k) == self.state_view().handle_of(k)
            },
    {
        if self.state.contains::<T>() {
            Err(self)
        } else {
            Ok(self.manage_state(state))
        }
    }

    /// The routes of the server.
    pub fn router(&self) -> (r: &Router<H>)
        ensures
            *r == self.router_view(),
    {
        &self.router
    }

    /// The shared state of the server.
    pub fn state(&self) -> (c: &Container)
        ensures
            *c == self.state_view(),
    {
        &self.state
    }
}

impl<H: Handler> Server<H> {
    /// Answers one request. Every request gets exactly one response: the
    /// handler's, or the response to the failure that ended the request.
    pub fn serve(&self, req: Request) -> (r: Response)
        ensures
            exists|outcome: Result<Response, Error>|
                ends_with(self.router_view()@, self.state_view(), req@, outcome) && concludes(
                    outcome,
                    r,
                ),
    {
        let outcome = self.router.run(req, &self.state);
        conclude(outcome)
    }
}

} // verus!
