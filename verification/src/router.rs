//! The router: the registered routes, in the order of registration, and
//! how a request finds its route.

use vstd::prelude::*;
use crate::errors::Error;
use crate::pattern::{
    captures, pattern_matches, pattern_of, split_path, split_segments, Params, PathPattern,
    PatternError, SegmentView,
};
use crate::request::{Method, MethodView};
use crate::route::{
    params_fit, refusal, registrable, validate_args, ParamSpec, ParamSpecView, RouteDescriptor,
    RouteError,
};
use crate::text::{join_text, same_text};

verus! {

/// A registered route.
pub struct Route<H> {
    method: Method,
    pattern: PathPattern,
    params: Vec<ParamSpec>,
    handler: H,
}

/// The model of a [`Route`].
pub struct RouteView<H> {
    pub method: MethodView,
    pub pattern: Seq<SegmentView>,
    pub params: Seq<ParamSpecView>,
    pub handler: H,
}

impl<H> View for Route<H> {
    type V = RouteView<H>;

    closed spec fn view(&self) -> RouteView<H> {
        RouteView {
            method: self.method@,
            pattern: self.pattern@,
            params: self.params.deep_view(),
            handler: self.handler,
        }
    }
}

impl<H> RouteView<H> {
    /// What holds of every registered route: its pattern is well formed
    /// and its declared inputs fit the pattern.
    pub open spec fn well_formed(self) -> bool {
        &&& self.pattern.len() >= 1
        &&& crate::pattern::distinct_placeholders(self.pattern)
        &&& params_fit(self.pattern, self.params)
    }

    /// Whether the route is registered for `method` and its pattern
    /// accepts the segments `segs`.
    pub open spec fn accepts(self, method: MethodView, segs: Seq<Seq<char>>) -> bool {
        self.method == method && pattern_matches(self.pattern, segs)
    }
}

impl<H> Route<H> {
    /// The method the route is registered for.
    pub fn method(&self) -> (m: &Method)
        ensures
            m@ == self@.method,
    {
        &self.method
    }

    /// The pattern of the route.
    pub fn pattern(&self) -> (p: &PathPattern)
        ensures
            p@ == self@.pattern,
    {
        &self.pattern
    }

    /// The declared inputs of the handler, in order.
    pub fn params(&self) -> (p: &Vec<ParamSpec>)
        ensures
            p.deep_view() == self@.params,
    {
        &self.params
    }

    /// The handler of the route.
    pub fn handler(&self) -> (h: &H)
        ensures
            *h == self@.handler,
    {
        &self.handler
    }
}

/// The text under which a route is registered: the prefix it is mounted
/// at, followed by its own pattern. The prefix `/` stands for none.
pub open spec fn mounted_path(prefix: Seq<char>, path: Seq<char>) -> Seq<char> {
    if prefix == "/"@ {
        path
    } else {
        prefix + path
    }
}

/// Whether `i` is the first of `routes` that accepts the request.
pub open spec fn first_match<H>(
    routes: Seq<RouteView<H>>,
    method: MethodView,
    segs: Seq<Seq<char>>,
    i: int,
) -> bool {
    &&& 0 <= i < routes.len()
    &&& routes[i].accepts(method, segs)
    &&& forall|k: int| 0 <= k < i ==> !(#[trigger] routes[k]).accepts(method, segs)
}

/// Whether none of `routes` accepts the request.
pub open spec fn no_match<H>(
    routes: Seq<RouteView<H>>,
    method: MethodView,
    segs: Seq<Seq<char>>,
) -> bool {
    forall|k: int| 0 <= k < routes.len() ==> !(#[trigger] routes[k]).accepts(method, segs)
}

/// The index of the route that a request resolves to: the first that
/// accepts it, if any does.
pub open spec fn resolution<H>(
    routes: Seq<RouteView<H>>,
    method: MethodView,
    segs: Seq<Seq<char>>,
) -> Option<int> {
    if no_match(routes, method, segs) {
        None
    } else {
        Some(choose|i: int| first_match(routes, method, segs, i))
    }
}

/// At most one route is the first to accept a request.
pub proof fn lemma_first_match_unique<H>(
    routes: Seq<RouteView<H>>,
    method: MethodView,
    segs: Seq<Seq<char>>,
    i: int,
    j: int,
)
    requires
        first_match(routes, method, segs, i),
        first_match(routes, method, segs, j),
    ensures
        i == j,
{
    if i < j {
        assert(!routes[i].accepts(method, segs));
    }
    if j < i {
        assert(!routes[j].accepts(method, segs));
    }
}

/// A request resolves to a route exactly where that route accepts it and
/// none registered before it does; then it resolves to no other.
pub proof fn lemma_resolution<H>(
    routes: Seq<RouteView<H>>,
    method: MethodView,
    segs: Seq<Seq<char>>,
    i: int,
)
    ensures
        resolution(routes, method, segs) == Some(i) <==> first_match(routes, method, segs, i),
        resolution(routes, method, segs) is None <==> no_match(routes, method, segs),
{
    if first_match(routes, method, segs, i) {
        assert(routes[i].accepts(method, segs));
        let k = choose|k: int| first_match(routes, method, segs, k);
        lemma_first_match_unique(routes, method, segs, i, k);
    }
    if !no_match(routes, method, segs) {
        lemma_some_first_match(routes, method, segs, routes.len() as int);
    }
}

/// Where one of the first `n` routes accepts a request, one of them is
/// the first to do so.
pub proof fn lemma_some_first_match<H>(
    routes: Seq<RouteView<H>>,
    method: MethodView,
    segs: Seq<Seq<char>>,
    n: int,
)
    requires
        0 <= n <= routes.len(),
        exists|k: int| 0 <= k < n && (#[trigger] routes[k]).accepts(method, segs),
    ensures
        exists|i: int| first_match(routes, method, segs, i) && i < n,
    decreases n,
{
    if exists|k: int| 0 <= k < n - 1 && (#[trigger] routes[k]).accepts(method, segs) {
        lemma_some_first_match(routes, method, segs, n - 1);
    } else {
        assert(routes[n - 1].accepts(method, segs));
        assert(first_match(routes, method, segs, n - 1));
    }
}

/// A pattern accepts no path that has more or fewer segments than it, so
/// such a request does not resolve to its route.
pub proof fn lemma_segment_count_must_agree<H>(
    routes: Seq<RouteView<H>>,
    method: MethodView,
    segs: Seq<Seq<char>>,
    i: int,
)
    requires
        0 <= i < routes.len(),
        routes[i].pattern.len() != segs.len(),
    ensures
        !routes[i].accepts(method, segs),
        resolution(routes, method, segs) != Some(i),
{
    lemma_resolution(routes, method, segs, i);
}

/// A route is found under the method it is registered for, and under no
/// other.
pub proof fn lemma_method_must_agree<H>(
    routes: Seq<RouteView<H>>,
    method: MethodView,
    segs: Seq<Seq<char>>,
    i: int,
)
    requires
        0 <= i < routes.len(),
        routes[i].method != method,
    ensures
        resolution(routes, method, segs) != Some(i),
{
    lemma_resolution(routes, method, segs, i);
}

/// Registering a route changes nothing for the requests that resolved
/// before: the routes registered first keep their precedence. A request
/// that no route accepted resolves to the new route exactly where the new
/// route accepts it.
pub proof fn lemma_registration_keeps_order<H>(
    routes: Seq<RouteView<H>>,
    added: RouteView<H>,
    method: MethodView,
    segs: Seq<Seq<char>>,
)
    ensures
        resolution(routes, method, segs) is Some ==> resolution(
            routes.push(added),
            method,
            segs,
        ) == resolution(routes, method, segs),
        resolution(routes, method, segs) is None && added.accepts(method, segs) ==> resolution(
            routes.push(added),
            method,
            segs,
        ) == Some(routes.len() as int),
        resolution(routes, method, segs) is None && !added.accepts(method, segs) ==> resolution(
            routes.push(added),
            method,
            segs,
        ) is None,
{
    let more = routes.push(added);
    assert forall|k: int| 0 <= k < routes.len() implies more[k] == routes[k] by {}
    match resolution(routes, method, segs) {
        Some(i) => {
            lemma_resolution(routes, method, segs, i);
            assert(first_match(more, method, segs, i)) by {
                assert forall|k: int| 0 <= k < i implies !(#[trigger] more[k]).accepts(
                    method,
                    segs,
                ) by {
                    assert(more[k] == routes[k]);
                }
            }
            lemma_resolution(more, method, segs, i);
        },
        None => {
            lemma_resolution(routes, method, segs, 0);
            let n = routes.len() as int;
            assert(more[n] == added);
            if added.accepts(method, segs) {
                assert(first_match(more, method, segs, n)) by {
                    assert forall|k: int| 0 <= k < n implies !(#[trigger] more[k]).accepts(
                        method,
                        segs,
                    ) by {
                        assert(more[k] == routes[k]);
                    }
                }
                lemma_resolution(more, method, segs, n);
            } else {
                assert(no_match(more, method, segs)) by {
                    assert forall|k: int| 0 <= k < more.len() implies !(#[trigger] more[k]).accepts(
                        method,
                        segs,
                    ) by {
                        if k < n {
                            assert(more[k] == routes[k]);
                        }
                    }
                }
            }
        },
    }
}

/// The route a request resolved to, with what its placeholders captured.
pub struct Resolved<'a, H> {
    pub route: &'a Route<H>,
    pub index: usize,
    pub params: Params,
}

/// Whether `r` is what resolving a request gives: the first route that
/// accepts it, with what the route's placeholders captured, or
/// `RouterError` where no route accepts it.
pub open spec fn resolves_to<'a, H>(
    routes: Seq<RouteView<H>>,
    method: MethodView,
    path: Seq<char>,
    r: Result<Resolved<'a, H>, Error>,
) -> bool {
    match resolution(routes, method, split_path(path)) {
        Some(i) => r matches Ok(found) && {
            &&& found.index == i
            &&& found.route@ == routes[i]
            &&& found.params@ == captures(routes[i].pattern, split_path(path))
        },
        None => r == Err::<Resolved<'a, H>, Error>(Error::RouterError),
    }
}

/// Resolving the same request twice on the same routes gives the same
/// route and the same parameters, or fails both times.
pub proof fn lemma_resolve_is_repeatable<'a, 'b, H>(
    routes: Seq<RouteView<H>>,
    method: MethodView,
    path: Seq<char>,
    first: Result<Resolved<'a, H>, Error>,
    second: Result<Resolved<'b, H>, Error>,
)
    requires
        resolves_to(routes, method, path, first),
        resolves_to(routes, method, path, second),
    ensures
        match (first, second) {
            (Ok(a), Ok(b)) => a.index == b.index && a.route@ == b.route@ && a.params@ == b.params@,
            (Err(e), Err(f)) => e == f,
            _ => false,
        },
{
}

/// The routes of an application.
pub struct Router<H> {
    routes: Vec<Route<H>>,
}

impl<H> View for Router<H> {
    type V = Seq<RouteView<H>>;

    closed spec fn view(&self) -> Seq<RouteView<H>> {
        Seq::new(self.routes@.len(), |i: int| self.routes@[i]@)
    }
}

impl<H> Router<H> {
    /// What holds of every router: each of its routes is well formed.
    pub open spec fn well_formed(&self) -> bool {
        forall|i: int| 0 <= i < self@.len() ==> (#[trigger] self@[i]).well_formed()
    }

    /// A router without routes.
    pub fn new() -> (r: Router<H>)
        ensures
            r@ == Seq::<RouteView<H>>::empty(),
            r.well_formed(),
    {
        let r = Router { routes: Vec::new() };
        assert(r@ =~= Seq::empty());
        r
    }

    /// How many routes are registered.
    pub fn len(&self) -> (n: usize)
        ensures
            n == self@.len(),
    {
        self.routes.len()
    }

    /// The route registered as the `index`th, if there are that many.
    pub fn route(&self, index: usize) -> (r: Option<&Route<H>>)
        ensures
            r is Some <==> index < self@.len(),
            r matches Some(route) ==> route@ == self@[index as int],
    {
        if index < self.routes.len() {
            Some(&self.routes[index])
        } else {
            None
        }
    }

    /// Registers a route for `method` under the pattern `text`.
    fn register(&mut self, method: Method, text: &str, params: Vec<ParamSpec>, handler: H) -> (r:
        Result<(), RouteError>)
        ensures
            r is Ok <==> registrable(text@, params.deep_view()),
            r is Ok ==> final(self)@ == old(self)@.push(
                RouteView {
                    method: method@,
                    pattern: pattern_of(text@),
                    params: params.deep_view(),
                    handler,
                },
            ),
            r matches Err(e) ==> final(self)@ == old(self)@ && refusal(
                text@,
                params.deep_view(),
                e,
            ),
            old(self).well_formed() ==> final(self).well_formed(),
    {
        let pattern = match PathPattern::parse(text) {
            Ok(pattern) => pattern,
            Err(PatternError::Empty) => {
                return Err(RouteError::EmptyPattern);
            },
            Err(PatternError::DuplicatePlaceholder(name)) => {
                return Err(RouteError::DuplicatePlaceholder(name));
            },
        };
        match validate_args(&pattern, &params) {
            Ok(()) => {},
            Err(e) => {
                return Err(e);
            },
        }
        let route = Route { method, pattern, params, handler };
        self.routes.push(route);
        assert(self@ =~= old(self)@.push(route@));
        Ok(())
    }

    /// Registers the route that `descriptor` declares, under the prefix
    /// followed by the descriptor's own pattern; the prefix `/` adds
    /// nothing. A route that breaks a rule of registration is refused and
    /// the router stays as it was.
    pub fn mount(&mut self, prefix: &str, descriptor: RouteDescriptor<H>) -> (r: Result<
        (),
        RouteError,
    >)
        ensures
            r is Ok <==> registrable(
                mounted_path(prefix@, descriptor@.path),
                descriptor@.params,
            ),
            r is Ok ==> final(self)@ == old(self)@.push(
                RouteView {
                    method: descriptor@.method,
                    pattern: pattern_of(mounted_path(prefix@, descriptor@.path)),
                    params: descriptor@.params,
                    handler: descriptor@.handler,
                },
            ),
            r matches Err(e) ==> final(self)@ == old(self)@ && refusal(
                mounted_path(prefix@, descriptor@.path),
                descriptor@.params,
                e,
            ),
            old(self).well_formed() ==> final(self).well_formed(),
    {
        let (method, path, params, handler) = descriptor.into_parts();
        if same_text(prefix, "/") {
            self.register(method, path.as_str(), params, handler)
        } else {
            let full = join_text(prefix, path.as_str());
            self.register(method, full.as_str(), params, handler)
        }
    }

    /// Registers the route that `descriptor` declares for `GET` requests
    /// under the pattern `route`, whatever method and pattern the
    /// descriptor itself names.
    pub fn get(&mut self, route: &str, descriptor: RouteDescriptor<H>) -> (r: Result<
        (),
        RouteError,
    >)
        ensures
            r is Ok <==> registrable(route@, descriptor@.params),
            r is Ok ==> final(self)@ == old(self)@.push(
                RouteView {
                    method: MethodView::Get,
                    pattern: pattern_of(route@),
                    params: descriptor@.params,
                    handler: descriptor@.handler,
                },
            ),
            r matches Err(e) ==> final(self)@ == old(self)@ && refusal(
                route@,
                descriptor@.params,
                e,
            ),
            old(self).well_formed() ==> final(self).well_formed(),
    {
        let (_, _, params, handler) = descriptor.into_parts();
        self.register(Method::Get, route, params, handler)
    }

    /// Finds the route of a request: the first registered for `method`
    /// whose pattern accepts the segments of `path`. Where there is none,
    /// the request fails with `RouterError`.
    pub fn resolve(&self, method: &Method, path: &str) -> (r: Result<Resolved<'_, H>, Error>)
        ensures
            resolves_to(self@, method@, path@, r),
    {
        let segs = split_segments(path);
        let mut i: usize = 0;
        while i < self.routes.len()
            invariant
                i <= self.routes.len(),
                segs.deep_view() == split_path(path@),
                forall|k: int|
                    0 <= k < i ==> !(#[trigger] self@[k]).accepts(method@, split_path(path@)),
            decreases self.routes.len() - i,
        {
            let route = &self.routes[i];
            assert(route@ == self@[i as int]);
            if route.method.same(method) {
                match route.pattern.match_segments(&segs) {
                    Some(params) => {
                        proof {
                            assert(first_match(self@, method@, split_path(path@), i as int));
                            lemma_resolution(self@, method@, split_path(path@), i as int);
                        }
                        return Ok(Resolved { route, index: i, params });
                    },
                    None => {},
                }
            }
            i += 1;
        }
        proof {
            lemma_resolution(self@, method@, split_path(path@), 0);
        }
        Err(Error::RouterError)
    }
}

} // verus!
