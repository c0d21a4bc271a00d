//! The response handed back to the transport: status, headers and body.

use vstd::prelude::*;
use vstd::string::StringExecFns;
use crate::text::same_text;

verus! {

/// A response, built step by step and then handed over as a whole.
#[derive(Clone, Debug, PartialEq, Eq)]
pub struct Response {
    status: u16,
    headers: Vec<(String, String)>,
    body: Vec<u8>,
}

/// The model of a [`Response`].
pub struct ResponseView {
    pub status: u16,
    pub headers: Seq<(Seq<char>, Seq<char>)>,
    pub body: Seq<u8>,
}

impl View for Response {
    type V = ResponseView;

    closed spec fn view(&self) -> ResponseView {
        ResponseView {
            status: self.status,
            headers: self.headers.deep_view(),
            body: self.body@,
        }
    }
}

/// Whether a header of this name is among `headers`.
pub open spec fn has_header(headers: Seq<(Seq<char>, Seq<char>)>, name: Seq<char>) -> bool {
    exists|i: int| 0 <= i < headers.len() && (#[trigger] headers[i]).0 == name
}

/// Whether `i` is the place of the first header named `name`.
pub open spec fn first_header_at(headers: Seq<(Seq<char>, Seq<char>)>, name: Seq<char>, i: int) -> bool {
    &&& 0 <= i < headers.len()
    &&& headers[i].0 == name
    &&& forall|k: int| 0 <= k < i ==> (#[trigger] headers[k]).0 != name
}

/// The headers after `name` has been set to `value`: the first header of
/// that name gets the value, and where there is none the header is added
/// at the end.
pub open spec fn with_header_set(
    headers: Seq<(Seq<char>, Seq<char>)>,
    name: Seq<char>,
    value: Seq<char>,
) -> Seq<(Seq<char>, Seq<char>)> {
    if has_header(headers, name) {
        headers.update(choose|i: int| first_header_at(headers, name, i), (name, value))
    } else {
        headers.push((name, value))
    }
}

/// The response that every builder starts from: status 200, no header,
/// no body.
pub open spec fn empty_response() -> ResponseView {
    ResponseView { status: 200, headers: Seq::empty(), body: Seq::empty() }
}

impl Response {
    /// A response with status 200, no header and an empty body.
    pub fn new() -> (r: Response)
        ensures
            r@ == empty_response(),
    {
        let r = Response { status: 200, headers: Vec::new(), body: Vec::new() };
        assert(r.headers.deep_view() =~= Seq::empty());
        r
    }

    /// The same response with another status.
    pub fn with_status(self, status: u16) -> (r: Response)
        ensures
            r@ == (ResponseView { status, ..self@ }),
    {
        Response { status, headers: self.headers, body: self.body }
    }

    /// The same response with the header `name` set to `value`.
    pub fn with_header(self, name: &str, value: &str) -> (r: Response)
        ensures
            r@ == (ResponseView {
                headers: with_header_set(self@.headers, name@, value@),
                ..self@
            }),
    {
        let ghost old_headers = self@.headers;
        let mut headers = self.headers;
        let entry = (String::from_str(name), String::from_str(value));
        let mut i: usize = 0;
        while i < headers.len()
            invariant
                i <= headers.len(),
                headers.deep_view() == old_headers,
                old_headers == self@.headers,
                entry.0@ == name@,
                entry.1@ == value@,
                forall|k: int| 0 <= k < i ==> (#[trigger] old_headers[k]).0 != name@,
            decreases headers.len() - i,
        {
            if same_text(headers[i].0.as_str(), name) {
                assert(first_header_at(old_headers, name@, i as int));
                assert(has_header(old_headers, name@));
                let ghost at = choose|j: int| first_header_at(old_headers, name@, j);
                assert(at == i) by {
                    if at < i {
                        assert(old_headers[at].0 != name@);
                    }
                    if i < at {
                        assert(old_headers[i as int].0 != name@);
                    }
                }
                headers.set(i, entry);
                assert(headers.deep_view() =~= old_headers.update(i as int, (name@, value@)));
                return Response { status: self.status, headers, body: self.body };
            }
            i += 1;
        }
        assert(!has_header(old_headers, name@));
        headers.push(entry);
        assert(headers.deep_view() =~= old_headers.push((name@, value@)));
        Response { status: self.status, headers, body: self.body }
    }

    /// The same response with another body.
    pub fn with_body(self, body: Vec<u8>) -> (r: Response)
        ensures
            r@ == (ResponseView { body: body@, ..self@ }),
    {
        Response { status: self.status, headers: self.headers, body }
    }

    /// The status of the response.
    pub fn status(&self) -> (s: u16)
        ensures
            s == self@.status,
    {
        self.status
    }

    /// The headers of the response, in order.
    pub fn headers(&self) -> (h: &Vec<(String, String)>)
        ensures
            h.deep_view() == self@.headers,
    {
        &self.headers
    }

    /// The body of the response.
    pub fn body(&self) -> (b: &Vec<u8>)
        ensures
            b@ == self@.body,
    {
        &self.body
    }

    /// The value of the first header named `name`, if there is one.
    pub fn header(&self, name: &str) -> (r: Option<&str>)
        ensures
            r is Some <==> has_header(self@.headers, name@),
            r matches Some(v) ==> exists|i: int|
                first_header_at(self@.headers, name@, i) && self@.headers[i].1 == v@,
    {
        let mut i: usize = 0;
        while i < self.headers.len()
            invariant
                i <= self.headers.len(),
                forall|k: int| 0 <= k < i ==> (#[trigger] self@.headers[k]).0 != name@,
            decreases self.headers.len() - i,
        {
            if same_text(self.headers[i].0.as_str(), name) {
                assert(first_header_at(self@.headers, name@, i as int));
                return Some(self.headers[i].1.as_str());
            }
            i += 1;
        }
        None
    }

    /// How many headers the response has.
    pub fn header_count(&self) -> (n: usize)
        ensures
            n == self@.headers.len(),
    {
        self.headers.len()
    }
}

} // verus!
