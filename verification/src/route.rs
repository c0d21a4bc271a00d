//! Route descriptors: the method and pattern of a route, the inputs its
//! handler declares, and the rules a descriptor must meet to be registered.

use vstd::prelude::*;
use vstd::string::StringExecFns;
use crate::parse::ParamType;
use crate::pattern::{
    distinct_placeholders, first_repeat, pattern_of, PathPattern, Segment, SegmentView,
};
use crate::request::{Method, MethodView};
use crate::state::{key_of, TypeKey};
use crate::text::same_text;

verus! {

/// Where a declared input of a handler comes from.
#[derive(Clone, Copy, Debug, PartialEq, Eq, Structural)]
pub enum ParamSource {
    PathSegment,
    Body,
    State,
}

/// One declared input of a handler.
#[derive(Clone, Debug, PartialEq, Eq)]
pub enum ParamSpec {
    /// The segment that the placeholder `name` captures, parsed into `target`.
    PathSegment { name: String, target: ParamType },
    /// The decoded body of the request.
    Body { name: String },
    /// The shared value of the type that `key` identifies.
    State { name: String, key: TypeKey, label: String },
}

/// The model of a [`ParamSpec`].
pub enum ParamSpecView {
    PathSegment { name: Seq<char>, target: ParamType },
    Body { name: Seq<char> },
    State { name: Seq<char>, key: TypeKey, label: Seq<char> },
}

impl DeepView for ParamSpec {
    type V = ParamSpecView;

    open spec fn deep_view(&self) -> ParamSpecView {
        match *self {
            ParamSpec::PathSegment { name, target } => ParamSpecView::PathSegment {
                name: name@,
                target,
            },
            ParamSpec::Body { name } => ParamSpecView::Body { name: name@ },
            ParamSpec::State { name, key, label } => ParamSpecView::State {
                name: name@,
                key,
                label: label@,
            },
        }
    }
}

impl ParamSpecView {
    /// The name under which the input is declared.
    pub open spec fn name(self) -> Seq<char> {
        match self {
            ParamSpecView::PathSegment { name, .. } => name,
            ParamSpecView::Body { name } => name,
            ParamSpecView::State { name, .. } => name,
        }
    }

    /// Where the input comes from.
    pub open spec fn source(self) -> ParamSource {
        match self {
            ParamSpecView::PathSegment { .. } => ParamSource::PathSegment,
            ParamSpecView::Body { .. } => ParamSource::Body,
            ParamSpecView::State { .. } => ParamSource::State,
        }
    }
}

impl ParamSpec {
    /// The name under which the input is declared.
    pub fn name(&self) -> (n: &str)
        ensures
            n@ == self.deep_view().name(),
    {
        match self {
            ParamSpec::PathSegment { name, .. } => name.as_str(),
            ParamSpec::Body { name } => name.as_str(),
            ParamSpec::State { name, .. } => name.as_str(),
        }
    }

    /// Where the input comes from.
    pub fn source(&self) -> (s: ParamSource)
        ensures
            s == self.deep_view().source(),
    {
        match self {
            ParamSpec::PathSegment { .. } => ParamSource::PathSegment,
            ParamSpec::Body { .. } => ParamSource::Body,
            ParamSpec::State { .. } => ParamSource::State,
        }
    }
}

/// Whether `specs` declares a path parameter named `name`.
pub open spec fn declares_path(specs: Seq<ParamSpecView>, name: Seq<char>) -> bool {
    exists|i: int|
        0 <= i < specs.len() && (#[trigger] specs[i]) is PathSegment && specs[i].name() == name
}

/// Whether `pattern` has a placeholder named `name`.
pub open spec fn has_placeholder(pattern: Seq<SegmentView>, name: Seq<char>) -> bool {
    exists|j: int|
        0 <= j < pattern.len() && #[trigger] pattern[j] == SegmentView::Placeholder(name)
}

/// Every placeholder among the first `n` segments has a path parameter
/// declared for it.
pub open spec fn placeholders_declared(
    pattern: Seq<SegmentView>,
    specs: Seq<ParamSpecView>,
    n: int,
) -> bool {
    forall|j: int|
        0 <= j < n && j < pattern.len() && (#[trigger] pattern[j]) is Placeholder
            ==> declares_path(specs, pattern[j]->Placeholder_0)
}

/// Every path parameter among the first `n` specs names a placeholder.
pub open spec fn paths_captured(
    pattern: Seq<SegmentView>,
    specs: Seq<ParamSpecView>,
    n: int,
) -> bool {
    forall|i: int|
        0 <= i < n && i < specs.len() && (#[trigger] specs[i]) is PathSegment ==> has_placeholder(
            pattern,
            specs[i].name(),
        )
}

/// At most one of the specs is a body.
pub open spec fn single_body(specs: Seq<ParamSpecView>) -> bool {
    forall|i: int, j: int|
        0 <= i < j < specs.len() ==> !((#[trigger] specs[i]) is Body && (#[trigger] specs[j]) is Body)
}

/// Whether `specs` declares a body.
pub open spec fn declares_body(specs: Seq<ParamSpecView>) -> bool {
    exists|i: int| 0 <= i < specs.len() && (#[trigger] specs[i]) is Body
}

/// The rules that the declared inputs of a route meet: each placeholder
/// of the pattern has a path parameter, each path parameter a placeholder,
/// and there is at most one body.
pub open spec fn params_fit(pattern: Seq<SegmentView>, specs: Seq<ParamSpecView>) -> bool {
    &&& placeholders_declared(pattern, specs, pattern.len() as int)
    &&& paths_captured(pattern, specs, specs.len() as int)
    &&& single_body(specs)
}

/// Why a route is refused at registration.
#[derive(Clone, Debug, PartialEq, Eq)]
pub enum RouteError {
    /// The pattern is empty.
    EmptyPattern,
    /// Two placeholders of the pattern carry this name.
    DuplicatePlaceholder(String),
    /// The pattern has this placeholder, and no path parameter is declared for it.
    MissingParam(String),
    /// A path parameter of this name is declared, and the pattern has no
    /// such placeholder.
    UnknownParam(String),
    /// More than one body is declared.
    DuplicateBody,
}

/// Whether `error` is the one that holding `specs` against `pattern`
/// fails with: the first rule of [`params_fit`] that is broken, with the
/// first name that breaks it.
pub open spec fn misfit(pattern: Seq<SegmentView>, specs: Seq<ParamSpecView>, error: RouteError) -> bool {
    match error {
        RouteError::MissingParam(name) => exists|j: int|
            0 <= j < pattern.len() && #[trigger] pattern[j] == SegmentView::Placeholder(name@)
                && !declares_path(specs, name@) && placeholders_declared(pattern, specs, j),
        RouteError::UnknownParam(name) => {
            &&& placeholders_declared(pattern, specs, pattern.len() as int)
            &&& exists|i: int|
                0 <= i < specs.len() && (#[trigger] specs[i]) is PathSegment && specs[i].name()
                    == name@ && !has_placeholder(pattern, name@) && paths_captured(
                    pattern,
                    specs,
                    i,
                )
        },
        RouteError::DuplicateBody => {
            &&& placeholders_declared(pattern, specs, pattern.len() as int)
            &&& paths_captured(pattern, specs, specs.len() as int)
            &&& !single_body(specs)
        },
        _ => false,
    }
}

/// Whether `error` is the one that registering `specs` under the pattern
/// `text` fails with. The rules are tried in the order of [`RouteError`],
/// and within a rule the first offender is named.
pub open spec fn refusal(text: Seq<char>, specs: Seq<ParamSpecView>, error: RouteError) -> bool {
    let p = pattern_of(text);
    match error {
        RouteError::EmptyPattern => text.len() == 0,
        RouteError::DuplicatePlaceholder(name) => text.len() > 0 && exists|j: int|
            first_repeat(p, j) && p[j] == SegmentView::Placeholder(name@),
        _ => text.len() > 0 && distinct_placeholders(p) && misfit(p, specs, error),
    }
}

/// Whether registering `specs` under the pattern `text` succeeds.
pub open spec fn registrable(text: Seq<char>, specs: Seq<ParamSpecView>) -> bool {
    &&& text.len() > 0
    &&& distinct_placeholders(pattern_of(text))
    &&& params_fit(pattern_of(text), specs)
}

/// Whether two refusals are the same: the same rule, broken by the same name.
pub open spec fn same_refusal(a: RouteError, b: RouteError) -> bool {
    match (a, b) {
        (RouteError::EmptyPattern, RouteError::EmptyPattern) => true,
        (RouteError::DuplicatePlaceholder(x), RouteError::DuplicatePlaceholder(y)) => x@ == y@,
        (RouteError::MissingParam(x), RouteError::MissingParam(y)) => x@ == y@,
        (RouteError::UnknownParam(x), RouteError::UnknownParam(y)) => x@ == y@,
        (RouteError::DuplicateBody, RouteError::DuplicateBody) => true,
        _ => false,
    }
}

/// A route that is refused is not registrable, and it is refused for one
/// reason only: the rules decide the error.
pub proof fn lemma_refusal_is_decided(
    text: Seq<char>,
    specs: Seq<ParamSpecView>,
    a: RouteError,
    b: RouteError,
)
    requires
        refusal(text, specs, a),
        refusal(text, specs, b),
    ensures
        !registrable(text, specs),
        same_refusal(a, b),
{
    let p = pattern_of(text);
    lemma_repeat_breaks_distinctness(p);
    match (a, b) {
        (RouteError::DuplicatePlaceholder(x), RouteError::DuplicatePlaceholder(y)) => {
            let j = choose|j: int| first_repeat(p, j) && p[j] == SegmentView::Placeholder(x@);
            let k = choose|k: int| first_repeat(p, k) && p[k] == SegmentView::Placeholder(y@);
            lemma_first_repeat_unique(p, j, k);
        },
        _ => {},
    }
}

/// A pattern in which a placeholder repeats an earlier one does not have
/// distinct placeholders.
pub proof fn lemma_repeat_breaks_distinctness(p: Seq<SegmentView>)
    ensures
        (exists|j: int| first_repeat(p, j)) ==> !distinct_placeholders(p),
{
    if exists|j: int| first_repeat(p, j) {
        let j = choose|j: int| first_repeat(p, j);
        let i = choose|i: int| 0 <= i < j && p[i] == p[j];
        assert(p[i] is Placeholder && p[i]->Placeholder_0 == p[j]->Placeholder_0);
    }
}

/// Only one placeholder is the first to repeat an earlier one.
pub proof fn lemma_first_repeat_unique(p: Seq<SegmentView>, j: int, k: int)
    requires
        first_repeat(p, j),
        first_repeat(p, k),
    ensures
        j == k,
{
    if j < k {
        let i = choose|i: int| 0 <= i < j && p[i] == p[j];
        let q = p.take(k);
        assert(q[i] == p[i] && q[j] == p[j]);
        assert(q[i] is Placeholder && q[j] is Placeholder);
    }
    if k < j {
        let i = choose|i: int| 0 <= i < k && p[i] == p[k];
        let q = p.take(j);
        assert(q[i] == p[i] && q[k] == p[k]);
        assert(q[i] is Placeholder && q[k] is Placeholder);
    }
}

/// A route as the application declares it: method, pattern, the inputs of
/// the handler in the order declared, and the handler itself.
pub struct RouteDescriptor<H> {
    method: Method,
    path: String,
    params: Vec<ParamSpec>,
    handler: H,
}

/// The model of a [`RouteDescriptor`].
pub struct RouteDescriptorView<H> {
    pub method: MethodView,
    pub path: Seq<char>,
    pub params: Seq<ParamSpecView>,
    pub handler: H,
}

impl<H> View for RouteDescriptor<H> {
    type V = RouteDescriptorView<H>;

    closed spec fn view(&self) -> RouteDescriptorView<H> {
        RouteDescriptorView {
            method: self.method@,
            path: self.path@,
            params: self.params.deep_view(),
            handler: self.handler,
        }
    }
}

impl RouteDescriptor<()> {
    /// A descriptor for `method` and `path` that declares no input and
    /// has no handler yet.
    pub fn new(method: Method, path: &str) -> (d: RouteDescriptor<()>)
        ensures
            d@ == (RouteDescriptorView {
                method: method@,
                path: path@,
                params: Seq::empty(),
                handler: (),
            }),
    {
        let d = RouteDescriptor {
            method,
            path: String::from_str(path),
            params: Vec::new(),
            handler: (),
        };
        assert(d.params.deep_view() =~= Seq::empty());
        d
    }
}

impl<H> RouteDescriptor<H> {
    /// Adds `spec` after the inputs already declared.
    fn declare(self, spec: ParamSpec) -> (d: RouteDescriptor<H>)
        ensures
            d@ == (RouteDescriptorView { params: self@.params.push(spec.deep_view()), ..self@ }),
    {
        let mut params = self.params;
        params.push(spec);
        assert(params.deep_view() =~= self@.params.push(spec.deep_view()));
        RouteDescriptor { method: self.method, path: self.path, params, handler: self.handler }
    }

    /// Declares that the handler takes the segment captured by the
    /// placeholder `name`, parsed into `target`.
    pub fn path_param(self, name: &str, target: ParamType) -> (d: RouteDescriptor<H>)
        ensures
            d@ == (RouteDescriptorView {
                params: self@.params.push(ParamSpecView::PathSegment { name: name@, target }),
                ..self@
            }),
    {
        self.declare(ParamSpec::PathSegment { name: String::from_str(name), target })
    }

    /// Declares that the handler takes the decoded body of the request.
    pub fn body(self, name: &str) -> (d: RouteDescriptor<H>)
        ensures
            d@ == (RouteDescriptorView {
                params: self@.params.push(ParamSpecView::Body { name: name@ }),
                ..self@
            }),
    {
        self.declare(ParamSpec::Body { name: String::from_str(name) })
    }

    /// Declares that the handler takes the shared value of type `T`;
    /// `label` describes the type where the value is missing.
    pub fn state<T: 'static>(self, name: &str, label: &str) -> (d: RouteDescriptor<H>)
        ensures
            d@ == (RouteDescriptorView {
                params: self@.params.push(
                    ParamSpecView::State { name: name@, key: key_of::<T>(), label: label@ },
                ),
                ..self@
            }),
    {
        self.declare(
            ParamSpec::State {
                name: String::from_str(name),
                key: TypeKey::of::<T>(),
                label: String::from_str(label),
            },
        )
    }

    /// Sets the handler of the route.
    pub fn handler<G>(self, handler: G) -> (d: RouteDescriptor<G>)
        ensures
            d@ == (RouteDescriptorView {
                method: self@.method,
                path: self@.path,
                params: self@.params,
                handler,
            }),
    {
        RouteDescriptor { method: self.method, path: self.path, params: self.params, handler }
    }

    /// The method of the route.
    pub fn method(&self) -> (m: &Method)
        ensures
            m@ == self@.method,
    {
        &self.method
    }

    /// The pattern of the route, as text.
    pub fn path(&self) -> (p: &str)
        ensures
            p@ == self@.path,
    {
        self.path.as_str()
    }

    /// The declared inputs, in order.
    pub fn params(&self) -> (p: &Vec<ParamSpec>)
        ensures
            p.deep_view() == self@.params,
    {
        &self.params
    }

    /// Takes the descriptor apart.
    pub fn into_parts(self) -> (parts: (Method, String, Vec<ParamSpec>, H))
        ensures
            parts.0@ == self@.method,
            parts.1@ == self@.path,
            parts.2.deep_view() == self@.params,
            parts.3 == self@.handler,
    {
        (self.method, self.path, self.params, self.handler)
    }
}

/// Whether `specs` declares a path parameter named `name`.
fn find_path_spec(specs: &Vec<ParamSpec>, name: &str) -> (found: bool)
    ensures
        found == declares_path(specs.deep_view(), name@),
{
    let mut i: usize = 0;
    while i < specs.len()
        invariant
            i <= specs.len(),
            forall|k: int|
                0 <= k < i ==> !((#[trigger] specs.deep_view()[k]) is PathSegment
                    && specs.deep_view()[k].name() == name@),
        decreases specs.len() - i,
    {
        if let ParamSpec::PathSegment { name: own, .. } = &specs[i] {
            if same_text(own.as_str(), name) {
                assert(specs.deep_view()[i as int] is PathSegment);
                return true;
            }
        }
        i += 1;
    }
    false
}

/// Holds the declared inputs of a route against its pattern; see
/// [`params_fit`]. Of the rules broken, the first decides the error, and
/// it names the first offender.
pub fn validate_args(pattern: &PathPattern, specs: &Vec<ParamSpec>) -> (r: Result<(), RouteError>)
    ensures
        r is Ok <==> params_fit(pattern@, specs.deep_view()),
        r matches Err(e) ==> misfit(pattern@, specs.deep_view(), e),
{
    let ghost p = pattern@;
    let ghost s = specs.deep_view();
    let segments = pattern.segments();
    let mut j: usize = 0;
    while j < segments.len()
        invariant
            j <= segments.len(),
            p == pattern@,
            s == specs.deep_view(),
            segments.deep_view() == p,
            placeholders_declared(p, s, j as int),
        decreases segments.len() - j,
    {
        if let Segment::Placeholder(name) = &segments[j] {
            if !find_path_spec(specs, name.as_str()) {
                assert(p[j as int] == SegmentView::Placeholder(name@));
                return Err(RouteError::MissingParam(name.clone()));
            }
        }
        j += 1;
    }
    let mut i: usize = 0;
    while i < specs.len()
        invariant
            i <= specs.len(),
            p == pattern@,
            s == specs.deep_view(),
            segments.deep_view() == p,
            placeholders_declared(p, s, p.len() as int),
            paths_captured(p, s, i as int),
        decreases specs.len() - i,
    {
        if let ParamSpec::PathSegment { name, .. } = &specs[i] {
            if !find_placeholder(segments, name.as_str()) {
                assert(s[i as int] is PathSegment);
                return Err(RouteError::UnknownParam(name.clone()));
            }
        }
        i += 1;
    }
    if count_bodies(specs) > 1 {
        return Err(RouteError::DuplicateBody);
    }
    Ok(())
}

/// Whether `segments` has a placeholder named `name`.
fn find_placeholder(segments: &Vec<Segment>, name: &str) -> (found: bool)
    ensures
        found == has_placeholder(segments.deep_view(), name@),
{
    let mut j: usize = 0;
    while j < segments.len()
        invariant
            j <= segments.len(),
            forall|k: int|
                0 <= k < j ==> #[trigger] segments.deep_view()[k] != SegmentView::Placeholder(
                    name@,
                ),
        decreases segments.len() - j,
    {
        if let Segment::Placeholder(own) = &segments[j] {
            if same_text(own.as_str(), name) {
                assert(segments.deep_view()[j as int] == SegmentView::Placeholder(name@));
                return true;
            }
        }
        j += 1;
    }
    false
}

/// How many bodies `specs` declares, counted up to two.
fn count_bodies(specs: &Vec<ParamSpec>) -> (n: usize)
    ensures
        n <= 2,
        n == 0 <==> !declares_body(specs.deep_view()),
        n <= 1 <==> single_body(specs.deep_view()),
{
    let ghost s = specs.deep_view();
    let mut n: usize = 0;
    let mut i: usize = 0;
    let ghost mut first: int = 0;
    let ghost mut second: int = 0;
    while i < specs.len()
        invariant
            i <= specs.len(),
            s == specs.deep_view(),
            n <= 2,
            n == 0 ==> forall|k: int| 0 <= k < i ==> !((#[trigger] s[k]) is Body),
            n == 1 ==> 0 <= first < i && s[first] is Body && forall|k: int|
                0 <= k < i && k != first ==> !((#[trigger] s[k]) is Body),
            n == 2 ==> 0 <= first < second < i && s[first] is Body && s[second] is Body,
        decreases specs.len() - i,
    {
        if let ParamSpec::Body { .. } = &specs[i] {
            assert(s[i as int] is Body);
            if n == 0 {
                proof {
                    first = i as int;
                }
                n = 1;
            } else if n == 1 {
                proof {
                    second = i as int;
                }
                n = 2;
            }
        }
        i += 1;
    }
    n
}

} // verus!
