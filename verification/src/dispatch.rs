//! The extraction plan of a route and the pipeline that runs it: path
//! parameters first, then the body, then shared state, then the handler.
//! The first stage that fails ends the request with its failure.

use vstd::prelude::*;
use vstd::string::StringExecFns;
use crate::data::{body_failure, body_stage, decoded_body, FromData};
use crate::errors::{Error, ErrorKind, ErrorView};
use crate::handler::{Arguments, ArgumentsView, Handler};
use crate::parse::{message_of, param_outcome, parse_param, ParamValue, ParamValueView};
use crate::pattern::{
    captures, lemma_capture_of_placeholder, lookup, pattern_matches, split_path, Params,
    SegmentView,
};
use crate::request::{Method, MethodView, Request, RequestView};
use crate::responder::{error_response, Responder};
use crate::response::Response;
use crate::route::{declares_body, ParamSpec, ParamSpecView};
use crate::router::{resolution, Route, RouteView, Router};
use crate::state::{Container, Handle};

verus! {

/// The text of the failure for a state dependency that is not
/// registered: the declared name, a colon and the label of the type.
pub open spec fn missing_state(name: Seq<char>, label: Seq<char>) -> Seq<char> {
    name + ": "@ + label
}

/// What the path stage gives for one spec, after the specs before it gave
/// `before`: a path parameter is looked up among the captured segments by
/// its name and parsed into its target type, other specs add nothing.
pub open spec fn path_step(
    before: Seq<ParamValueView>,
    spec: ParamSpecView,
    captured: Seq<(Seq<char>, Seq<char>)>,
) -> Result<Seq<ParamValueView>, ErrorView> {
    match spec {
        ParamSpecView::PathSegment { name, target } => match lookup(captured, name) {
            None => Err(ErrorView { kind: ErrorKind::ParamNotFound, text: name }),
            Some(raw) => match param_outcome(target, raw) {
                Ok(value) => Ok(before.push(value)),
                Err(failure) => Err(
                    ErrorView { kind: ErrorKind::ParamParseError, text: message_of(failure) },
                ),
            },
        },
        _ => Ok(before),
    }
}

/// What the path stage gives for the first `n` specs: the parsed values in
/// the order declared, or the failure of the first spec that fails.
pub open spec fn path_stage(
    specs: Seq<ParamSpecView>,
    captured: Seq<(Seq<char>, Seq<char>)>,
    n: nat,
) -> Result<Seq<ParamValueView>, ErrorView>
    decreases n,
{
    if n == 0 {
        Ok(Seq::empty())
    } else {
        match path_stage(specs, captured, (n - 1) as nat) {
            Ok(before) => path_step(before, specs[n - 1], captured),
            Err(e) => Err(e),
        }
    }
}

/// What the state stage gives for one spec, after the specs before it
/// gave `before`: a state dependency is looked up in the container by the
/// key of its type, other specs add nothing.
pub open spec fn state_step(before: Seq<Handle>, spec: ParamSpecView, container: Container) -> Result<
    Seq<Handle>,
    ErrorView,
> {
    match spec {
        ParamSpecView::State { name, key, label } => if container.has_key(key) {
            Ok(before.push(container.handle_of(key)))
        } else {
            Err(ErrorView { kind: ErrorKind::StateNotFound, text: missing_state(name, label) })
        },
        _ => Ok(before),
    }
}

/// What the state stage gives for the first `n` specs: the handles in the
/// order declared, or the failure of the first dependency that is missing.
pub open spec fn state_stage(specs: Seq<ParamSpecView>, container: Container, n: nat) -> Result<
    Seq<Handle>,
    ErrorView,
>
    decreases n,
{
    if n == 0 {
        Ok(Seq::empty())
    } else {
        match state_stage(specs, container, (n - 1) as nat) {
            Ok(before) => state_step(before, specs[n - 1], container),
            Err(e) => Err(e),
        }
    }
}

/// Once the path stage has failed, the specs that follow change nothing.
pub proof fn lemma_path_failure_stays(
    specs: Seq<ParamSpecView>,
    captured: Seq<(Seq<char>, Seq<char>)>,
    m: nat,
    n: nat,
)
    requires
        m <= n,
        path_stage(specs, captured, m) is Err,
    ensures
        path_stage(specs, captured, n) == path_stage(specs, captured, m),
    decreases n - m,
{
    if m < n {
        lemma_path_failure_stays(specs, captured, m, (n - 1) as nat);
    }
}

/// Once the state stage has failed, the specs that follow change nothing.
pub proof fn lemma_state_failure_stays(
    specs: Seq<ParamSpecView>,
    container: Container,
    m: nat,
    n: nat,
)
    requires
        m <= n,
        state_stage(specs, container, m) is Err,
    ensures
        state_stage(specs, container, n) == state_stage(specs, container, m),
    decreases n - m,
{
    if m < n {
        lemma_state_failure_stays(specs, container, m, (n - 1) as nat);
    }
}

/// A path parameter whose captured text does not parse, after specs that
/// were all met, fails the path stage with `ParamParseError` and the
/// parser's message, which is answered with status 400.
pub proof fn lemma_unparsable_parameter(
    specs: Seq<ParamSpecView>,
    captured: Seq<(Seq<char>, Seq<char>)>,
    i: nat,
)
    requires
        i < specs.len(),
        path_stage(specs, captured, i) is Ok,
        specs[i as int] is PathSegment,
        lookup(captured, specs[i as int].name()) is Some,
        param_outcome(
            specs[i as int]->PathSegment_target,
            lookup(captured, specs[i as int].name())->0,
        ) is Err,
    ensures
        path_stage(specs, captured, specs.len()) == Err::<Seq<ParamValueView>, ErrorView>(
            ErrorView {
                kind: ErrorKind::ParamParseError,
                text: message_of(
                    param_outcome(
                        specs[i as int]->PathSegment_target,
                        lookup(captured, specs[i as int].name())->0,
                    )->Err_0,
                ),
            },
        ),
        crate::errors::status_of(ErrorKind::ParamParseError) == 400,
{
    lemma_path_failure_stays(specs, captured, i + 1, specs.len());
}

/// A path parameter for which nothing was captured, after specs that were
/// all met, fails the path stage with `ParamNotFound` and its name, which
/// is answered with status 400.
pub proof fn lemma_missing_parameter(
    specs: Seq<ParamSpecView>,
    captured: Seq<(Seq<char>, Seq<char>)>,
    i: nat,
)
    requires
        i < specs.len(),
        path_stage(specs, captured, i) is Ok,
        specs[i as int] is PathSegment,
        lookup(captured, specs[i as int].name()) is None,
    ensures
        path_stage(specs, captured, specs.len()) == Err::<Seq<ParamValueView>, ErrorView>(
            ErrorView { kind: ErrorKind::ParamNotFound, text: specs[i as int].name() },
        ),
        crate::errors::status_of(ErrorKind::ParamNotFound) == 400,
{
    lemma_path_failure_stays(specs, captured, i + 1, specs.len());
}

/// On a route that was registered, a request that the route accepts never
/// fails with `ParamNotFound`: every declared path parameter names a
/// placeholder, and every placeholder captured its segment.
pub proof fn lemma_declared_parameters_are_captured<H>(
    route: RouteView<H>,
    segs: Seq<Seq<char>>,
    n: nat,
)
    requires
        route.well_formed(),
        pattern_matches(route.pattern, segs),
        n <= route.params.len(),
    ensures
        path_stage(route.params, captures(route.pattern, segs), n) matches Err(e) ==> e.kind
            == ErrorKind::ParamParseError,
    decreases n,
{
    if n > 0 {
        lemma_declared_parameters_are_captured(route, segs, (n - 1) as nat);
        let spec = route.params[n - 1];
        if spec is PathSegment {
            let name = spec.name();
            assert(crate::route::has_placeholder(route.pattern, name));
            let j = choose|j: int|
                0 <= j < route.pattern.len() && #[trigger] route.pattern[j]
                    == SegmentView::Placeholder(name);
            lemma_capture_of_placeholder(route.pattern, segs, route.pattern.len(), j);
        }
    }
}

/// A state dependency that is not registered, after dependencies that
/// all are, fails the state stage with `StateNotFound`, which is answered
/// with status 500.
pub proof fn lemma_missing_state(specs: Seq<ParamSpecView>, container: Container, i: nat)
    requires
        i < specs.len(),
        state_stage(specs, container, i) is Ok,
        specs[i as int] is State,
        !container.has_key(specs[i as int]->State_key),
    ensures
        state_stage(specs, container, specs.len()) == Err::<Seq<Handle>, ErrorView>(
            ErrorView {
                kind: ErrorKind::StateNotFound,
                text: missing_state(specs[i as int].name(), specs[i as int]->State_label),
            },
        ),
        crate::errors::status_of(ErrorKind::StateNotFound) == 500,
{
    lemma_state_failure_stays(specs, container, i + 1, specs.len());
}

/// Where any declared state dependency is not registered, the state stage
/// fails, and it fails with `StateNotFound`.
pub proof fn lemma_unregistered_state_fails(specs: Seq<ParamSpecView>, container: Container, n: nat)
    requires
        n <= specs.len(),
    ensures
        state_stage(specs, container, n) matches Err(e) ==> e.kind == ErrorKind::StateNotFound,
        (exists|i: int|
            0 <= i < n && (#[trigger] specs[i]) is State && !container.has_key(specs[i]->State_key))
            ==> state_stage(specs, container, n) is Err,
    decreases n,
{
    if n > 0 {
        lemma_unregistered_state_fails(specs, container, (n - 1) as nat);
        if exists|i: int|
            0 <= i < n && (#[trigger] specs[i]) is State && !container.has_key(specs[i]->State_key) {
            let i = choose|i: int|
                0 <= i < n && (#[trigger] specs[i]) is State && !container.has_key(
                    specs[i]->State_key,
                );
            if i < n - 1 {
                assert(state_stage(specs, container, (n - 1) as nat) is Err);
            }
        }
    }
}

/// The path stage of the extraction plan: parses, for each path parameter
/// that `specs` declares, the segment captured under its name. A
/// parameter that was not captured fails with `ParamNotFound` and its
/// name, one that does not parse with `ParamParseError` and the parser's
/// message; the first parameter that fails decides.
pub fn parse_path_args(specs: &Vec<ParamSpec>, captured: &Params) -> (r: Result<
    Vec<ParamValue>,
    Error,
>)
    ensures
        match path_stage(specs.deep_view(), captured@, specs.len() as nat) {
            Ok(values) => r matches Ok(v) && v.deep_view() == values,
            Err(e) => r matches Err(f) && f@ == e,
        },
{
    let mut values: Vec<ParamValue> = Vec::new();
    let mut i: usize = 0;
    assert(values.deep_view() =~= Seq::empty());
    while i < specs.len()
        invariant
            i <= specs.len(),
            path_stage(specs.deep_view(), captured@, i as nat) == Ok::<
                Seq<ParamValueView>,
                ErrorView,
            >(values.deep_view()),
        decreases specs.len() - i,
    {
        let ghost before = values.deep_view();
        if let ParamSpec::PathSegment { name, target } = &specs[i] {
            match captured.find(name.as_str()) {
                None => {
                    proof {
                        lemma_path_failure_stays(
                            specs.deep_view(),
                            captured@,
                            (i + 1) as nat,
                            specs.len() as nat,
                        );
                    }
                    return Err(Error::ParamNotFound(name.clone()));
                },
                Some(raw) => match parse_param(*target, raw) {
                    Ok(value) => {
                        values.push(value);
                        assert(values.deep_view() =~= before.push(value@));
                    },
                    Err(failure) => {
                        proof {
                            lemma_path_failure_stays(
                                specs.deep_view(),
                                captured@,
                                (i + 1) as nat,
                                specs.len() as nat,
                            );
                        }
                        return Err(failure.to_error());
                    },
                },
            }
        }
        i += 1;
    }
    Ok(values)
}

/// The state stage of the extraction plan: looks up, for each state
/// dependency that `specs` declares, the value registered for its type.
/// The first dependency that is not registered fails the request with
/// `StateNotFound`, its name and the label of its type.
pub fn resolve_states(specs: &Vec<ParamSpec>, container: &Container) -> (r: Result<
    Vec<Handle>,
    Error,
>)
    ensures
        match state_stage(specs.deep_view(), *container, specs.len() as nat) {
            Ok(handles) => r matches Ok(h) && h@ == handles,
            Err(e) => r matches Err(f) && f@ == e,
        },
{
    let mut handles: Vec<Handle> = Vec::new();
    let mut i: usize = 0;
    while i < specs.len()
        invariant
            i <= specs.len(),
            state_stage(specs.deep_view(), *container, i as nat) == Ok::<Seq<Handle>, ErrorView>(
                handles@,
            ),
        decreases specs.len() - i,
    {
        if let ParamSpec::State { name, key, label } = &specs[i] {
            match container.lookup(key) {
                Some(handle) => {
                    handles.push(handle);
                },
                None => {
                    proof {
                        lemma_state_failure_stays(
                            specs.deep_view(),
                            *container,
                            (i + 1) as nat,
                            specs.len() as nat,
                        );
                    }
                    let mut text = name.clone();
                    text.append(": ");
                    text.append(label.as_str());
                    return Err(Error::StateNotFound(text));
                },
            }
        }
        i += 1;
    }
    Ok(handles)
}

/// Whether `specs` declares a body.
pub fn needs_body(specs: &Vec<ParamSpec>) -> (r: bool)
    ensures
        r == declares_body(specs.deep_view()),
{
    let mut i: usize = 0;
    while i < specs.len()
        invariant
            i <= specs.len(),
            forall|k: int| 0 <= k < i ==> !((#[trigger] specs.deep_view()[k]) is Body),
        decreases specs.len() - i,
    {
        if let ParamSpec::Body { .. } = &specs[i] {
            assert(specs.deep_view()[i as int] is Body);
            return true;
        }
        i += 1;
    }
    false
}

/// Whether `r` is the response that ends a request with `outcome`: the
/// handler's own, or the response to the failure.
pub open spec fn concludes(outcome: Result<Response, Error>, r: Response) -> bool {
    match outcome {
        Ok(response) => r == response,
        Err(e) => r@ == error_response(e@),
    }
}

/// The response that ends a request: what the handler answered, or the
/// response to the failure that ended the request before. Every outcome
/// has one.
pub fn conclude(outcome: Result<Response, Error>) -> (r: Response)
    ensures
        concludes(outcome, r),
{
    match outcome {
        Ok(response) => response,
        Err(e) => e.respond(),
    }
}

/// Whether `r` may be what a request to `route` ends with once its path
/// parameters gave `values` and its body stage gave `body`: the failure
/// of the state stage, or else whatever the handler returns for the
/// assembled inputs.
pub open spec fn ends_after_body<H: Handler>(
    route: RouteView<H>,
    container: Container,
    values: Seq<ParamValueView>,
    body: Option<H::Body>,
    r: Result<Response, Error>,
) -> bool {
    match state_stage(route.params, container, route.params.len()) {
        Err(e) => r matches Err(f) && f@ == e,
        Ok(handles) => exists|args: Arguments<H::Body>|
            args@ == (ArgumentsView { path: values, body, states: handles }) && call_ensures(
                H::handle,
                (&route.handler, args),
                r,
            ),
    }
}

/// Whether `r` may be what a request with the body `body` ends with on
/// `route`, whose placeholders captured `captured`: the failure of the
/// first stage that fails, in the order path, body, state, or else
/// whatever the handler returns. The body is decoded only where the route
/// declares one.
pub open spec fn ends_on_route<H: Handler>(
    route: RouteView<H>,
    container: Container,
    captured: Seq<(Seq<char>, Seq<char>)>,
    body: Seq<u8>,
    r: Result<Response, Error>,
) -> bool {
    match path_stage(route.params, captured, route.params.len()) {
        Err(e) => r matches Err(f) && f@ == e,
        Ok(values) => if declares_body(route.params) {
            exists|buf: &[u8], decoded: Result<H::Body, Error>, payload: Result<H::Body, Error>|
                {
                    &&& buf@ == body
                    &&& call_ensures(H::Body::from_data, (buf,), decoded)
                    &&& body_stage(decoded, payload)
                    &&& match payload {
                        Err(e) => r matches Err(f) && f@ == e@,
                        Ok(p) => ends_after_body(route, container, values, Some(p), r),
                    }
                }
        } else {
            ends_after_body(route, container, values, None, r)
        },
    }
}

/// Whether `r` may be what `request` ends with: `RouterError` where no
/// route accepts it, else what it ends with on the first route that does.
pub open spec fn ends_with<H: Handler>(
    routes: Seq<RouteView<H>>,
    container: Container,
    request: RequestView,
    r: Result<Response, Error>,
) -> bool {
    let segs = split_path(request.path);
    match resolution(routes, request.method, segs) {
        None => r == Err::<Response, Error>(Error::RouterError),
        Some(i) => ends_on_route(
            routes[i],
            container,
            captures(routes[i].pattern, segs),
            request.body,
            r,
        ),
    }
}

/// A request whose path parameters fail ends with that failure, whatever
/// its body holds and whatever state is registered: the path stage comes
/// first.
pub proof fn lemma_path_failure_decides<H: Handler>(
    route: RouteView<H>,
    captured: Seq<(Seq<char>, Seq<char>)>,
    container: Container,
    body: Seq<u8>,
    other_container: Container,
    other_body: Seq<u8>,
    r: Result<Response, Error>,
)
    requires
        path_stage(route.params, captured, route.params.len()) is Err,
        ends_on_route(route, container, captured, body, r),
    ensures
        r matches Err(e) && e@ == path_stage(route.params, captured, route.params.len())->Err_0,
        ends_on_route(route, other_container, captured, other_body, r),
{
}

/// On a route that declares a body, a request whose path parameters
/// parse and whose body the decoder refuses ends with `FromDataError`,
/// which is answered with status 422, whatever state is registered: the
/// body stage comes before the state stage.
pub proof fn lemma_body_failure_decides<H: Handler>(
    route: RouteView<H>,
    captured: Seq<(Seq<char>, Seq<char>)>,
    container: Container,
    body: Seq<u8>,
    other_container: Container,
    r: Result<Response, Error>,
)
    requires
        declares_body(route.params),
        path_stage(route.params, captured, route.params.len()) is Ok,
        forall|buf: &[u8], decoded: Result<H::Body, Error>|
            buf@ == body && call_ensures(H::Body::from_data, (buf,), decoded) ==> decoded is Err,
        ends_on_route(route, container, captured, body, r),
    ensures
        r matches Err(e) && e@.kind == ErrorKind::FromDataError,
        crate::errors::status_of(ErrorKind::FromDataError) == 422,
        ends_on_route(route, other_container, captured, body, r),
{
}

/// A route that declares no body answers the same whatever the body of
/// the request holds: the body is never decoded.
pub proof fn lemma_undeclared_body_is_not_read<H: Handler>(
    route: RouteView<H>,
    container: Container,
    captured: Seq<(Seq<char>, Seq<char>)>,
    body: Seq<u8>,
    other: Seq<u8>,
    r: Result<Response, Error>,
)
    requires
        !declares_body(route.params),
        ends_on_route(route, container, captured, body, r),
    ensures
        ends_on_route(route, container, captured, other, r),
{
}

/// A request that got past the path and body stages of a route with a
/// state dependency that is not registered fails with `StateNotFound`,
/// whatever else it holds.
pub proof fn lemma_unregistered_state_ends_request<H: Handler>(
    route: RouteView<H>,
    container: Container,
    values: Seq<ParamValueView>,
    body: Option<H::Body>,
    r: Result<Response, Error>,
    i: int,
)
    requires
        0 <= i < route.params.len(),
        route.params[i] is State,
        !container.has_key(route.params[i]->State_key),
        ends_after_body(route, container, values, body, r),
    ensures
        r matches Err(e) && e@.kind == ErrorKind::StateNotFound,
        crate::errors::status_of(ErrorKind::StateNotFound) == 500,
{
    lemma_unregistered_state_fails(route.params, container, route.params.len());
}

/// How far a request has got. A request goes through the stages in this
/// order; a stage that fails takes it to `Responded` at once.
#[derive(Clone, Copy, Debug, PartialEq, Eq, Structural)]
pub enum Stage {
    Received,
    Routed,
    PathParsed,
    BodyResolved,
    StateResolved,
    Invoked,
    Responded,
}

/// A request whose path parameters are parsed and whose route declares a
/// body: it waits for the transport to read the body and to decode it.
pub struct AwaitingBody<'a, H> {
    route: &'a Route<H>,
    values: Vec<ParamValue>,
}

/// A request whose inputs are assembled: it waits for its handler.
pub struct Invocation<'a, H: Handler> {
    pub route: &'a Route<H>,
    pub args: Arguments<H::Body>,
}

/// What a request waits for.
pub enum Step<'a, H: Handler> {
    NeedBody(AwaitingBody<'a, H>),
    Ready(Invocation<'a, H>),
}

/// Whether `ready` is the call of the handler of `route` with these
/// inputs.
pub open spec fn holds_inputs<'a, H: Handler>(
    ready: Invocation<'a, H>,
    route: RouteView<H>,
    values: Seq<ParamValueView>,
    body: Option<H::Body>,
    handles: Seq<Handle>,
) -> bool {
    ready.route@ == route && ready.args@ == (ArgumentsView { path: values, body, states: handles })
}

/// Whether `r` is what the state stage makes of a request to `route`
/// whose path parameters gave `values` and whose body stage gave `body`:
/// the failure of the state stage, or the handler's inputs assembled.
pub open spec fn assembles<'a, H: Handler>(
    route: RouteView<H>,
    container: Container,
    values: Seq<ParamValueView>,
    body: Option<H::Body>,
    r: Result<Invocation<'a, H>, Error>,
) -> bool {
    match state_stage(route.params, container, route.params.len()) {
        Err(e) => r matches Err(f) && f@ == e,
        Ok(handles) => r matches Ok(ready) && holds_inputs(ready, route, values, body, handles),
    }
}

/// Whether `r` is what the stages before the handler make of a request:
/// `RouterError` where no route accepts it; the failure of the path
/// stage; a wait for the body where the route declares one; else the
/// failure of the state stage, or the handler's inputs assembled without
/// a body.
pub open spec fn begins<'a, H: Handler>(
    routes: Seq<RouteView<H>>,
    container: Container,
    method: MethodView,
    path: Seq<char>,
    r: Result<Step<'a, H>, Error>,
) -> bool {
    let segs = split_path(path);
    match resolution(routes, method, segs) {
        None => r matches Err(e) && e == Error::RouterError,
        Some(i) => match path_stage(
            routes[i].params,
            captures(routes[i].pattern, segs),
            routes[i].params.len(),
        ) {
            Err(e) => r matches Err(f) && f@ == e,
            Ok(values) => if declares_body(routes[i].params) {
                r matches Ok(Step::NeedBody(waiting)) && waiting.route_view() == routes[i]
                    && waiting.values_view() == values
            } else {
                match state_stage(routes[i].params, container, routes[i].params.len()) {
                    Err(e) => r matches Err(f) && f@ == e,
                    Ok(handles) => r matches Ok(Step::Ready(ready)) && holds_inputs(
                        ready,
                        routes[i],
                        values,
                        None,
                        handles,
                    ),
                }
            },
        },
    }
}

impl<'a, H: Handler> Step<'a, H> {
    /// The stage that the request has reached.
    pub fn stage(&self) -> (s: Stage)
        ensures
            s == match *self {
                Step::NeedBody(_) => Stage::PathParsed,
                Step::Ready(_) => Stage::StateResolved,
            },
    {
        match self {
            Step::NeedBody(_) => Stage::PathParsed,
            Step::Ready(_) => Stage::StateResolved,
        }
    }
}

/// The state stage and the assembly of the handler's inputs.
fn assemble<'a, H: Handler>(
    route: &'a Route<H>,
    values: Vec<ParamValue>,
    body: Option<H::Body>,
    state: &Container,
) -> (r: Result<Invocation<'a, H>, Error>)
    ensures
        assembles(route@, *state, values.deep_view(), body, r),
{
    let states = match resolve_states(route.params(), state) {
        Ok(states) => states,
        Err(e) => {
            return Err(e);
        },
    };
    Ok(Invocation { route, args: Arguments { path: values, body, states } })
}

impl<'a, H: Handler> AwaitingBody<'a, H> {
    /// The route of the request.
    pub closed spec fn route_view(&self) -> RouteView<H> {
        self.route@
    }

    /// The parsed path parameters of the request.
    pub closed spec fn values_view(&self) -> Seq<ParamValueView> {
        self.values.deep_view()
    }

    /// The route of the request.
    pub fn route(&self) -> (r: &'a Route<H>)
        ensures
            r@ == self.route_view(),
    {
        self.route
    }

    /// Goes on with what the decoder made of the body: a body that was
    /// not decoded fails the request with `FromDataError` and the text of
    /// the decoder's failure; with a payload, the state stage follows.
    pub fn resume(self, body: Result<H::Body, Error>, state: &Container) -> (r: Result<
        Invocation<'a, H>,
        Error,
    >)
        ensures
            match body {
                Err(e) => r matches Err(f) && f@ == body_failure(e@.text),
                Ok(payload) => assembles(
                    self.route_view(),
                    *state,
                    self.values_view(),
                    Some(payload),
                    r,
                ),
            },
    {
        match decoded_body(body) {
            Ok(payload) => assemble(self.route, self.values, Some(payload), state),
            Err(e) => Err(e),
        }
    }
}

impl<'a, H: Handler> Invocation<'a, H> {
    /// Calls the handler with the assembled inputs.
    pub fn call(self) -> (r: Result<Response, Error>)
        ensures
            call_ensures(H::handle, (&self.route@.handler, self.args), r),
    {
        self.route.handler().handle(self.args)
    }
}

impl<H: Handler> Router<H> {
    /// Takes a request through the stages that come before its body:
    /// finds its route and parses its path parameters. Where the route
    /// declares a body, the request then waits for it; else the state
    /// stage follows and the request waits for its handler.
    pub fn begin(&self, method: &Method, path: &str, state: &Container) -> (r: Result<
        Step<'_, H>,
        Error,
    >)
        ensures
            begins(self@, *state, method@, path@, r),
    {
        let found = match self.resolve(method, path) {
            Ok(found) => found,
            Err(e) => {
                return Err(e);
            },
        };
        let specs = found.route.params();
        let values = match parse_path_args(specs, &found.params) {
            Ok(values) => values,
            Err(e) => {
                return Err(e);
            },
        };
        if needs_body(specs) {
            Ok(Step::NeedBody(AwaitingBody { route: found.route, values }))
        } else {
            match assemble(found.route, values, None, state) {
                Ok(ready) => Ok(Step::Ready(ready)),
                Err(e) => Err(e),
            }
        }
    }

    /// Handles one request whose body the transport has read: finds its
    /// route, runs the route's extraction plan and calls the handler. The
    /// stages run in the order path, body, state, and the first that
    /// fails ends the request; a request that no route accepts fails with
    /// `RouterError`. The body is decoded only where the route declares
    /// one.
    pub fn run(&self, req: Request, state: &Container) -> (r: Result<Response, Error>)
        ensures
            ends_with(self@, *state, req@, r),
    {
        let ghost request = req@;
        let step = match self.begin(req.method(), req.path(), state) {
            Ok(step) => step,
            Err(e) => {
                return Err(e);
            },
        };
        let ghost i = resolution(self@, request.method, split_path(request.path))->0;
        let ghost route = self@[i];
        let ghost captured = captures(route.pattern, split_path(request.path));
        let ghost values = path_stage(route.params, captured, route.params.len())->Ok_0;
        match step {
            Step::Ready(ready) => {
                let ghost args = ready.args;
                let r = ready.call();
                assert(ends_after_body(route, *state, values, None, r)) by {
                    assert(args@ == (ArgumentsView::<H::Body> {
                        path: values,
                        body: None,
                        states: args.states@,
                    }));
                }
                r
            },
            Step::NeedBody(waiting) => {
                let bytes = req.body();
                let buf = bytes.as_slice();
                let decoded = H::Body::from_data(buf);
                match waiting.resume(decoded, state) {
                    Ok(ready) => {
                        let ghost args = ready.args;
                        let r = ready.call();
                        assert(ends_on_route(route, *state, captured, request.body, r)) by {
                            assert(args@ == (ArgumentsView {
                                path: values,
                                body: Some(decoded->Ok_0),
                                states: args.states@,
                            }));
                            assert(ends_after_body(route, *state, values, Some(decoded->Ok_0), r));
                            assert(body_stage(decoded, decoded));
                        }
                        r
                    },
                    Err(e) => {
                        assert(ends_on_route(
                            route,
                            *state,
                            captured,
                            request.body,
                            Err::<Response, Error>(e),
                        )) by {
                            if decoded is Err {
                                assert(body_stage(decoded, Err::<H::Body, Error>(e)));
                            } else {
                                assert(body_stage(decoded, decoded));
                                assert(ends_after_body(
                                    route,
                                    *state,
                                    values,
                                    Some(decoded->Ok_0),
                                    Err::<Response, Error>(e),
                                ));
                            }
                        }
                        Err(e)
                    },
                }
            },
        }
    }
}

} // verus!
