//! Path patterns: slash-separated segments, each a literal or a named
//! placeholder (`:name`), and how a request path is matched against one.

use vstd::prelude::*;
use vstd::string::StrSliceExecFns;
use crate::text::{chars_of, same_text, slice_text};

verus! {

/// One segment of a pattern.
#[derive(Clone, Debug, PartialEq, Eq)]
pub enum Segment {
    /// Matches the segment that equals it.
    Literal(String),
    /// Matches any segment that is not empty, and captures it under this name.
    Placeholder(String),
}

/// The model of a [`Segment`].
pub enum SegmentView {
    Literal(Seq<char>),
    Placeholder(Seq<char>),
}

impl DeepView for Segment {
    type V = SegmentView;

    open spec fn deep_view(&self) -> SegmentView {
        match *self {
            Segment::Literal(t) => SegmentView::Literal(t@),
            Segment::Placeholder(n) => SegmentView::Placeholder(n@),
        }
    }
}

/// The index of the first `/` of `s`, or its length where it has none.
pub open spec fn first_slash(s: Seq<char>) -> nat
    decreases s.len(),
{
    if s.len() == 0 || s[0] == '/' {
        0
    } else {
        1 + first_slash(s.drop_first())
    }
}

/// The segments of a path: what stands between its slashes. A path of `n`
/// slashes has `n + 1` segments, some of them possibly empty.
pub open spec fn split_path(s: Seq<char>) -> Seq<Seq<char>>
    decreases s.len(),
{
    let i = first_slash(s);
    if i >= s.len() {
        seq![s]
    } else {
        seq![s.take(i as int)] + split_path(s.skip(i as int + 1))
    }
}

/// The path that has these segments: the segments with a slash between
/// each two.
pub open spec fn join_path(segs: Seq<Seq<char>>) -> Seq<char>
    decreases segs.len(),
{
    if segs.len() == 0 {
        Seq::empty()
    } else if segs.len() == 1 {
        segs[0]
    } else {
        segs[0] + seq!['/'] + join_path(segs.drop_first())
    }
}

/// Whether a segment holds no slash.
pub open spec fn slash_free(seg: Seq<char>) -> bool {
    forall|k: int| 0 <= k < seg.len() ==> seg[k] != '/'
}

/// The segment that a piece of pattern text denotes: a placeholder where
/// it starts with `:`, named by what follows, else a literal.
pub open spec fn segment_of(text: Seq<char>) -> SegmentView {
    if text.len() > 0 && text[0] == ':' {
        SegmentView::Placeholder(text.skip(1))
    } else {
        SegmentView::Literal(text)
    }
}

/// The segments that a pattern text denotes.
pub open spec fn pattern_of(text: Seq<char>) -> Seq<SegmentView> {
    split_path(text).map_values(|t: Seq<char>| segment_of(t))
}

/// No two placeholders of `p` have the same name.
pub open spec fn distinct_placeholders(p: Seq<SegmentView>) -> bool {
    forall|i: int, j: int|
        0 <= i < j < p.len() && p[i] is Placeholder && p[j] is Placeholder ==> p[i]->Placeholder_0
            != p[j]->Placeholder_0
}

/// The placeholder at `j` repeats the name of an earlier one, and is the
/// first to do so.
pub open spec fn first_repeat(p: Seq<SegmentView>, j: int) -> bool {
    &&& 0 <= j < p.len()
    &&& p[j] is Placeholder
    &&& exists|i: int| 0 <= i < j && p[i] == p[j]
    &&& distinct_placeholders(p.take(j))
}

/// Whether one segment of a pattern accepts one segment of a path.
pub open spec fn segment_matches(seg: SegmentView, text: Seq<char>) -> bool {
    match seg {
        SegmentView::Literal(l) => l == text,
        SegmentView::Placeholder(_) => text.len() > 0,
    }
}

/// Whether a pattern accepts the segments of a path: as many segments,
/// and each accepted by the one in its place.
pub open spec fn pattern_matches(p: Seq<SegmentView>, segs: Seq<Seq<char>>) -> bool {
    &&& p.len() == segs.len()
    &&& forall|i: int| 0 <= i < p.len() ==> segment_matches(#[trigger] p[i], segs[i])
}

/// What the placeholders among the first `n` segments of `p` capture from
/// `segs`: name and value, in the order of the pattern.
pub open spec fn captures_upto(p: Seq<SegmentView>, segs: Seq<Seq<char>>, n: nat) -> Seq<
    (Seq<char>, Seq<char>),
>
    decreases n,
{
    if n == 0 {
        Seq::empty()
    } else {
        let before = captures_upto(p, segs, (n - 1) as nat);
        match p[n - 1] {
            SegmentView::Placeholder(name) => before.push((name, segs[n - 1])),
            SegmentView::Literal(_) => before,
        }
    }
}

/// What a pattern captures from the segments of a path that it accepts.
pub open spec fn captures(p: Seq<SegmentView>, segs: Seq<Seq<char>>) -> Seq<
    (Seq<char>, Seq<char>),
> {
    captures_upto(p, segs, p.len())
}

/// The names of the placeholders among the first `n` segments of `p`.
pub open spec fn placeholder_names_upto(p: Seq<SegmentView>, n: nat) -> Seq<Seq<char>>
    decreases n,
{
    if n == 0 {
        Seq::empty()
    } else {
        let before = placeholder_names_upto(p, (n - 1) as nat);
        match p[n - 1] {
            SegmentView::Placeholder(name) => before.push(name),
            SegmentView::Literal(_) => before,
        }
    }
}

/// The names of the placeholders of `p`, in order.
pub open spec fn placeholder_names(p: Seq<SegmentView>) -> Seq<Seq<char>> {
    placeholder_names_upto(p, p.len())
}

/// The value stored under the first pair named `name`.
pub open spec fn lookup(pairs: Seq<(Seq<char>, Seq<char>)>, name: Seq<char>) -> Option<Seq<char>>
    decreases pairs.len(),
{
    if pairs.len() == 0 {
        None
    } else if pairs[0].0 == name {
        Some(pairs[0].1)
    } else {
        lookup(pairs.drop_first(), name)
    }
}

/// Where `s` has no slash before `k`, and one at `k` or its end there,
/// `k` is its first slash.
pub proof fn lemma_first_slash(s: Seq<char>, k: int)
    requires
        0 <= k <= s.len(),
        forall|i: int| 0 <= i < k ==> s[i] != '/',
        k == s.len() || s[k] == '/',
    ensures
        first_slash(s) == k,
    decreases k,
{
    if k > 0 {
        let rest = s.drop_first();
        assert forall|i: int| 0 <= i < k - 1 implies rest[i] != '/' by {
            assert(rest[i] == s[i + 1]);
        }
        if k < s.len() {
            assert(rest[k - 1] == s[k]);
        }
        lemma_first_slash(rest, k - 1);
    }
}

/// The first slash of `s` is a slash, unless `s` has none, and no slash
/// stands before it.
pub proof fn lemma_first_slash_is_first(s: Seq<char>)
    ensures
        first_slash(s) <= s.len(),
        forall|i: int| 0 <= i < first_slash(s) ==> s[i] != '/',
        first_slash(s) < s.len() ==> s[first_slash(s) as int] == '/',
    decreases s.len(),
{
    if s.len() > 0 && s[0] != '/' {
        let rest = s.drop_first();
        lemma_first_slash_is_first(rest);
        assert forall|i: int| 0 <= i < first_slash(s) implies s[i] != '/' by {
            if i > 0 {
                assert(s[i] == rest[i - 1]);
            }
        }
        if first_slash(s) < s.len() {
            assert(s[first_slash(s) as int] == rest[first_slash(rest) as int]);
        }
    }
}

/// The segments of a path hold no slash, and joined by slashes they give
/// the path again.
pub proof fn lemma_split_then_join(s: Seq<char>)
    ensures
        split_path(s).len() >= 1,
        forall|k: int| 0 <= k < split_path(s).len() ==> slash_free(#[trigger] split_path(s)[k]),
        join_path(split_path(s)) == s,
    decreases s.len(),
{
    lemma_first_slash_is_first(s);
    let i = first_slash(s) as int;
    if i < s.len() {
        let head = s.take(i);
        let tail = s.skip(i + 1);
        lemma_split_then_join(tail);
        let segs = seq![head] + split_path(tail);
        assert(segs.drop_first() =~= split_path(tail));
        assert(segs[0] == head);
        assert forall|k: int| 0 <= k < segs.len() implies slash_free(#[trigger] segs[k]) by {
            if k > 0 {
                assert(segs[k] == split_path(tail)[k - 1]);
            }
        }
        assert(head + seq!['/'] + tail =~= s);
    }
}

/// Segments that hold no slash are the segments of the path that joins
/// them: splitting undoes joining.
pub proof fn lemma_join_then_split(segs: Seq<Seq<char>>)
    requires
        segs.len() >= 1,
        forall|k: int| 0 <= k < segs.len() ==> slash_free(#[trigger] segs[k]),
    ensures
        split_path(join_path(segs)) == segs,
    decreases segs.len(),
{
    let s = join_path(segs);
    let head = segs[0];
    if segs.len() == 1 {
        lemma_first_slash(s, s.len() as int);
        assert(segs =~= seq![s]);
    } else {
        let rest = segs.drop_first();
        assert forall|k: int| 0 <= k < rest.len() implies slash_free(#[trigger] rest[k]) by {
            assert(rest[k] == segs[k + 1]);
        }
        lemma_join_then_split(rest);
        let n = head.len() as int;
        assert(s[n] == '/');
        assert forall|i: int| 0 <= i < n implies s[i] != '/' by {
            assert(s[i] == head[i]);
        }
        lemma_first_slash(s, n);
        assert(s.take(n) =~= head);
        assert(s.skip(n + 1) =~= join_path(rest));
        assert(seq![head] + rest =~= segs);
    }
}

/// Looking a name up after a pair was added at the end: what was found
/// before is still found, and the new pair only where nothing was.
pub proof fn lemma_lookup_push(
    pairs: Seq<(Seq<char>, Seq<char>)>,
    pair: (Seq<char>, Seq<char>),
    name: Seq<char>,
)
    ensures
        lookup(pairs.push(pair), name) == match lookup(pairs, name) {
            Some(v) => Some(v),
            None => if pair.0 == name {
                Some(pair.1)
            } else {
                None
            },
        },
    decreases pairs.len(),
{
    let more = pairs.push(pair);
    if pairs.len() == 0 {
        assert(more.drop_first() =~= Seq::empty());
        assert(more[0] == pair);
    } else {
        assert(more[0] == pairs[0]);
        assert(more.drop_first() =~= pairs.drop_first().push(pair));
        lemma_lookup_push(pairs.drop_first(), pair, name);
    }
}

/// What a pattern with distinct placeholders captures under the name of
/// its placeholder at `j` is the segment of the path at `j`.
pub proof fn lemma_capture_of_placeholder(
    p: Seq<SegmentView>,
    segs: Seq<Seq<char>>,
    n: nat,
    j: int,
)
    requires
        distinct_placeholders(p),
        n <= p.len(),
        0 <= j < n,
        p[j] is Placeholder,
    ensures
        lookup(captures_upto(p, segs, n), p[j]->Placeholder_0) == Some(segs[j]),
    decreases n,
{
    let name = p[j]->Placeholder_0;
    lemma_no_capture_before(p, segs, j as nat, name, j);
    if n - 1 == j {
        lemma_lookup_push(captures_upto(p, segs, j as nat), (name, segs[j]), name);
    } else {
        lemma_capture_of_placeholder(p, segs, (n - 1) as nat, j);
        match p[n - 1] {
            SegmentView::Placeholder(other) => {
                lemma_lookup_push(
                    captures_upto(p, segs, (n - 1) as nat),
                    (other, segs[n - 1]),
                    name,
                );
            },
            SegmentView::Literal(_) => {},
        }
    }
}

/// Nothing is captured under a name that no placeholder among the first
/// `n` segments has.
pub proof fn lemma_no_capture_before(
    p: Seq<SegmentView>,
    segs: Seq<Seq<char>>,
    n: nat,
    name: Seq<char>,
    j: int,
)
    requires
        distinct_placeholders(p),
        n <= j < p.len(),
        p[j] == SegmentView::Placeholder(name),
    ensures
        lookup(captures_upto(p, segs, n), name) is None,
    decreases n,
{
    if n > 0 {
        lemma_no_capture_before(p, segs, (n - 1) as nat, name, j);
        match p[n - 1] {
            SegmentView::Placeholder(other) => {
                assert(other != name);
                lemma_lookup_push(
                    captures_upto(p, segs, (n - 1) as nat),
                    (other, segs[n - 1]),
                    name,
                );
            },
            SegmentView::Literal(_) => {},
        }
    }
}

/// A pattern whose segments are all literals accepts the path that is
/// written like it.
pub proof fn lemma_literal_pattern_accepts_itself(text: Seq<char>)
    requires
        forall|i: int|
            0 <= i < pattern_of(text).len() ==> (#[trigger] pattern_of(text)[i]) is Literal,
    ensures
        pattern_matches(pattern_of(text), split_path(text)),
{
    let p = pattern_of(text);
    let segs = split_path(text);
    assert forall|i: int| 0 <= i < p.len() implies segment_matches(#[trigger] p[i], segs[i]) by {
        assert(p[i] == segment_of(segs[i]));
    }
}

/// A path has at least one segment.
pub proof fn lemma_split_nonempty(s: Seq<char>)
    ensures
        split_path(s).len() >= 1,
{
}

/// Why a pattern text is refused.
#[derive(Clone, Debug, PartialEq, Eq)]
pub enum PatternError {
    /// The text is empty.
    Empty,
    /// Two placeholders carry this name.
    DuplicatePlaceholder(String),
}

/// The parameters that a route captured from a path, by name.
#[derive(Clone, Debug, PartialEq, Eq)]
pub struct Params {
    pairs: Vec<(String, String)>,
}

impl View for Params {
    type V = Seq<(Seq<char>, Seq<char>)>;

    closed spec fn view(&self) -> Seq<(Seq<char>, Seq<char>)> {
        self.pairs.deep_view()
    }
}

impl Params {
    /// No parameters.
    pub fn new() -> (p: Params)
        ensures
            p@ == Seq::<(Seq<char>, Seq<char>)>::empty(),
    {
        let p = Params { pairs: Vec::new() };
        assert(p.pairs.deep_view() =~= Seq::empty());
        p
    }

    /// Adds a parameter after those already there.
    pub fn insert(&mut self, key: String, value: String)
        ensures
            final(self)@ == old(self)@.push((key@, value@)),
    {
        self.pairs.push((key, value));
        assert(self.pairs.deep_view() =~= old(self).pairs.deep_view().push((key@, value@)));
    }

    /// How many parameters there are.
    pub fn len(&self) -> (n: usize)
        ensures
            n == self@.len(),
    {
        self.pairs.len()
    }

    /// The value captured under `key`, if any. Where a name occurs more
    /// than once, the first counts.
    pub fn find(&self, key: &str) -> (r: Option<&str>)
        ensures
            match lookup(self@, key@) {
                Some(v) => r matches Some(found) && found@ == v,
                None => r is None,
            },
    {
        let mut i: usize = 0;
        assert(self@.skip(0) =~= self@);
        while i < self.pairs.len()
            invariant
                i <= self.pairs.len(),
                lookup(self@, key@) == lookup(self@.skip(i as int), key@),
            decreases self.pairs.len() - i,
        {
            let ghost rest = self@.skip(i as int);
            assert(rest[0] == self@[i as int]);
            assert(rest.drop_first() =~= self@.skip(i + 1));
            if same_text(self.pairs[i].0.as_str(), key) {
                return Some(self.pairs[i].1.as_str());
            }
            i += 1;
        }
        None
    }
}

/// A parsed path pattern. Its placeholders have distinct names, and it
/// has at least one segment.
#[derive(Clone, Debug, PartialEq, Eq)]
pub struct PathPattern {
    segments: Vec<Segment>,
}

impl View for PathPattern {
    type V = Seq<SegmentView>;

    closed spec fn view(&self) -> Seq<SegmentView> {
        self.segments.deep_view()
    }
}

/// The segment that `piece` denotes.
fn classify(piece: &str) -> (seg: Segment)
    ensures
        seg.deep_view() == segment_of(piece@),
{
    let n = piece.unicode_len();
    if n > 0 && piece.get_char(0) == ':' {
        assert(piece@.skip(1) =~= piece@.subrange(1, n as int));
        Segment::Placeholder(slice_text(piece, 1, n))
    } else {
        Segment::Literal(piece.to_owned())
    }
}

/// The segments that `text` denotes as a pattern.
fn read_segments(text: &str) -> (segments: Vec<Segment>)
    ensures
        segments.deep_view() == pattern_of(text@),
{
    let pieces = split_segments(text);
    let mut segments: Vec<Segment> = Vec::new();
    let mut i: usize = 0;
    while i < pieces.len()
        invariant
            i <= pieces.len(),
            pieces.deep_view() == split_path(text@),
            segments.len() == i,
            forall|k: int|
                0 <= k < i ==> (#[trigger] segments[k]).deep_view() == segment_of(
                    split_path(text@)[k],
                ),
        decreases pieces.len() - i,
    {
        assert(pieces[i as int]@ == pieces.deep_view()[i as int]);
        segments.push(classify(pieces[i].as_str()));
        i += 1;
    }
    assert(segments.deep_view() =~= pattern_of(text@));
    segments
}

/// The names of the placeholders among `segments`, in order.
fn names_of(segments: &Vec<Segment>) -> (names: Vec<String>)
    ensures
        names.deep_view() == placeholder_names(segments.deep_view()),
{
    let ghost p = segments.deep_view();
    let mut names: Vec<String> = Vec::new();
    let mut i: usize = 0;
    assert(names.deep_view() =~= placeholder_names_upto(p, 0));
    while i < segments.len()
        invariant
            i <= segments.len(),
            p == segments.deep_view(),
            names.deep_view() == placeholder_names_upto(p, i as nat),
        decreases segments.len() - i,
    {
        let ghost before = names.deep_view();
        if let Segment::Placeholder(name) = &segments[i] {
            names.push(name.clone());
            assert(names.deep_view() =~= before.push(name@));
        }
        i += 1;
    }
    names
}

impl PathPattern {
    /// What every pattern satisfies: it has a segment, and no two of its
    /// placeholders share a name.
    pub open spec fn well_formed(&self) -> bool {
        &&& self@.len() >= 1
        &&& distinct_placeholders(self@)
    }

    /// Reads a pattern. The text must not be empty, and no placeholder
    /// name may occur twice; the first name that repeats is reported.
    pub fn parse(text: &str) -> (r: Result<PathPattern, PatternError>)
        ensures
            match r {
                Ok(p) => text@.len() > 0 && p@ == pattern_of(text@) && p.well_formed(),
                Err(PatternError::Empty) => text@.len() == 0,
                Err(PatternError::DuplicatePlaceholder(name)) => text@.len() > 0 && exists|j: int|
                    first_repeat(pattern_of(text@), j) && pattern_of(text@)[j]
                        == SegmentView::Placeholder(name@),
            },
    {
        if text.is_empty() {
            return Err(PatternError::Empty);
        }
        let segments = read_segments(text);
        let ghost p = segments.deep_view();
        let mut j: usize = 0;
        while j < segments.len()
            invariant
                j <= segments.len(),
                text@.len() > 0,
                p == segments.deep_view(),
                p == pattern_of(text@),
                distinct_placeholders(p.take(j as int)),
            decreases segments.len() - j,
        {
            if let Segment::Placeholder(name) = &segments[j] {
                let mut i: usize = 0;
                while i < j
                    invariant
                        i <= j < segments.len(),
                        text@.len() > 0,
                        p == segments.deep_view(),
                        p == pattern_of(text@),
                        distinct_placeholders(p.take(j as int)),
                        segments[j as int] == Segment::Placeholder(*name),
                        forall|k: int| 0 <= k < i ==> p[k] != p[j as int],
                    decreases j - i,
                {
                    if let Segment::Placeholder(other) = &segments[i] {
                        if same_text(other.as_str(), name.as_str()) {
                            assert(p[i as int] == p[j as int]);
                            assert(first_repeat(p, j as int));
                            return Err(PatternError::DuplicatePlaceholder(name.clone()));
                        }
                    }
                    i += 1;
                }
            }
            assert(distinct_placeholders(p.take(j + 1))) by {
                let q = p.take(j + 1);
                assert forall|a: int, b: int|
                    0 <= a < b < q.len() && q[a] is Placeholder && q[b] is Placeholder implies q[a]->Placeholder_0
                    != q[b]->Placeholder_0 by {
                    if b < j {
                        assert(p.take(j as int)[a] == q[a]);
                        assert(p.take(j as int)[b] == q[b]);
                    }
                }
            }
            j += 1;
        }
        assert(p.take(segments.len() as int) =~= p);
        proof {
            lemma_split_nonempty(text@);
        }
        Ok(PathPattern { segments })
    }

    /// The segments of the pattern, in order.
    pub fn segments(&self) -> (segments: &Vec<Segment>)
        ensures
            segments.deep_view() == self@,
    {
        &self.segments
    }

    /// How many segments the pattern has.
    pub fn len(&self) -> (n: usize)
        ensures
            n == self@.len(),
    {
        self.segments.len()
    }

    /// The names of the placeholders, in order.
    pub fn placeholder_names(&self) -> (names: Vec<String>)
        ensures
            names.deep_view() == placeholder_names(self@),
    {
        names_of(&self.segments)
    }

    /// Matches the segments of a path against the pattern. The path is
    /// accepted where it has as many segments as the pattern, each literal
    /// meets an equal segment and each placeholder one that is not empty;
    /// the placeholders' segments are then returned under their names.
    pub fn match_segments(&self, segs: &Vec<String>) -> (r: Option<Params>)
        ensures
            r is Some <==> pattern_matches(self@, segs.deep_view()),
            r matches Some(ps) ==> ps@ == captures(self@, segs.deep_view()),
    {
        let ghost p = self@;
        let ghost s = segs.deep_view();
        if self.segments.len() != segs.len() {
            return None;
        }
        let mut params = Params::new();
        let mut i: usize = 0;
        while i < self.segments.len()
            invariant
                p == self@,
                s == segs.deep_view(),
                p.len() == s.len(),
                i <= self.segments.len(),
                forall|k: int| 0 <= k < i ==> segment_matches(#[trigger] p[k], s[k]),
                params@ == captures_upto(p, s, i as nat),
            decreases self.segments.len() - i,
        {
            let text = segs[i].as_str();
            match &self.segments[i] {
                Segment::Literal(lit) => {
                    if !same_text(lit.as_str(), text) {
                        assert(!segment_matches(p[i as int], s[i as int]));
                        return None;
                    }
                },
                Segment::Placeholder(name) => {
                    if text.is_empty() {
                        assert(!segment_matches(p[i as int], s[i as int]));
                        return None;
                    }
                    params.insert(name.clone(), segs[i].clone());
                },
            }
            i += 1;
        }
        Some(params)
    }

    /// Matches a path against the pattern; see [`PathPattern::match_segments`].
    pub fn match_path(&self, path: &str) -> (r: Option<Params>)
        ensures
            r is Some <==> pattern_matches(self@, split_path(path@)),
            r matches Some(ps) ==> ps@ == captures(self@, split_path(path@)),
    {
        let segs = split_segments(path);
        self.match_segments(&segs)
    }
}

/// The names of the placeholders of a pattern text, in order.
pub fn extract_named_path_segments(text: &str) -> (names: Vec<String>)
    ensures
        names.deep_view() == placeholder_names(pattern_of(text@)),
{
    let segments = read_segments(text);
    names_of(&segments)
}

/// The segments of `path`, owned.
pub fn split_segments(path: &str) -> (segs: Vec<String>)
    ensures
        segs.deep_view() == split_path(path@),
{
    let chars = chars_of(path);
    let n = chars.len();
    let mut segs: Vec<String> = Vec::new();
    let mut start: usize = 0;
    let mut i: usize = 0;
    assert(path@.skip(0) =~= path@);
    while i < n
        invariant
            chars@ == path@,
            n == chars.len(),
            start <= i <= n,
            forall|k: int| start <= k < i ==> chars@[k] != '/',
            split_path(path@) == segs.deep_view() + split_path(path@.skip(start as int)),
        decreases n - i,
    {
        if chars[i] == '/' {
            let piece = slice_text(path, start, i);
            proof {
                let rest = path@.skip(start as int);
                assert forall|k: int| 0 <= k < i - start implies rest[k] != '/' by {
                    assert(rest[k] == chars@[start + k]);
                }
                assert(rest[i - start] == chars@[i as int]);
                lemma_first_slash(rest, i - start);
                assert(rest.take(i - start) =~= path@.subrange(start as int, i as int));
                assert(rest.skip(i - start + 1) =~= path@.skip(i + 1));
                assert(segs.deep_view().push(piece@) + split_path(path@.skip(i + 1))
                    =~= segs.deep_view() + split_path(rest));
            }
            let ghost before = segs.deep_view();
            segs.push(piece);
            assert(segs.deep_view() =~= before.push(piece@));
            start = i + 1;
        }
        i += 1;
    }
    let piece = slice_text(path, start, n);
    proof {
        let rest = path@.skip(start as int);
        assert forall|k: int| 0 <= k < n - start implies rest[k] != '/' by {
            assert(rest[k] == chars@[start + k]);
        }
        lemma_first_slash(rest, n - start);
        assert(rest =~= path@.subrange(start as int, n as int));
        assert(segs.deep_view().push(piece@) =~= segs.deep_view() + split_path(rest));
    }
    let ghost before = segs.deep_view();
    segs.push(piece);
    assert(segs.deep_view() =~= before.push(piece@));
    segs
}

} // verus!
