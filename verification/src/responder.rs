//! Turning what a handler gives back, or the failure of a request, into a
//! response. The conversion never fails.

use vstd::prelude::*;
use vstd::string::{StrSliceExecFns, StringExecFns};
use vstd::utf8::encode_utf8;
use crate::errors::{name_of, status_of, Error, ErrorKind, ErrorView};
use crate::response::{empty_response, Response, ResponseView};

verus! {

/// A value that can be turned into a response.
pub trait Responder: Sized {
    /// The response that stands for this value.
    fn respond(self) -> Response;
}

/// The text `text` as Rust writes it in debug output: between double
/// quotes, with the characters escaped that need it.
pub uninterp spec fn quoted(text: Seq<char>) -> Seq<char>;

/// `text` between double quotes, escaped as in debug output.
///
/// Formats `text` with `{:?}`, that is with `str`'s `Debug`; what comes
/// out depends on the characters of `text` alone.
#[verifier::external_body]
fn quote_text(text: &str) -> (r: String)
    ensures
        r@ == quoted(text@),
{
    format!("{:?}", text)
}

/// The name of the header that tells the kind of a body.
pub open spec fn content_type() -> Seq<char> {
    "Content-Type"@
}

/// The response for a text: status 200, the text as UTF-8, declared as
/// plain text.
pub open spec fn text_response(text: Seq<char>) -> ResponseView {
    ResponseView {
        status: 200,
        headers: seq![(content_type(), "text/plain; charset=utf-8"@)],
        body: encode_utf8(text),
    }
}

/// The response for an encoded payload: status 200, the bytes, declared
/// as JSON.
pub open spec fn json_response(bytes: Seq<u8>) -> ResponseView {
    ResponseView {
        status: 200,
        headers: seq![(content_type(), "application/json"@)],
        body: bytes,
    }
}

/// How a failure of `kind` is written whose text, quoted, is `quoted`:
/// the name of the kind, followed for all kinds but `RouterError` by the
/// quoted text in round brackets.
pub open spec fn rendered_with(kind: ErrorKind, quoted: Seq<char>) -> Seq<char> {
    if kind == ErrorKind::RouterError {
        name_of(kind)
    } else {
        name_of(kind) + "("@ + quoted + ")"@
    }
}

/// How a failure is written in the body of its response.
pub open spec fn rendered(e: ErrorView) -> Seq<char> {
    rendered_with(e.kind, quoted(e.text))
}

/// The body of the response to a failure that is written as `rendered`.
pub open spec fn failure_body(rendered: Seq<char>) -> Seq<char> {
    "{'status': 'error', 'msg': '"@ + rendered + "' }"@
}

/// The body of the response to a failure.
pub open spec fn error_body(e: ErrorView) -> Seq<char> {
    failure_body(rendered(e))
}

/// The response to a failure of `kind` that is written as `rendered`: the
/// status of the kind, and a body that holds what is written, declared as
/// JSON.
pub open spec fn failure_response(kind: ErrorKind, rendered: Seq<char>) -> ResponseView {
    ResponseView {
        status: status_of(kind),
        headers: seq![(content_type(), "application/json"@)],
        body: encode_utf8(failure_body(rendered)),
    }
}

/// The response to a failure.
pub open spec fn error_response(e: ErrorView) -> ResponseView {
    failure_response(e.kind, rendered(e))
}

/// Every failure has a response. Its status is fixed by its kind: 404
/// for a request without a route, 422 for a body that cannot be decoded,
/// 500 for what the server lacks or admits, 400 for everything else.
pub proof fn lemma_every_failure_is_answered(e: ErrorView)
    ensures
        error_response(e).status == status_of(e.kind),
        status_of(e.kind) == 400 || status_of(e.kind) == 404 || status_of(e.kind) == 422
            || status_of(e.kind) == 500,
        status_of(e.kind) == 404 <==> e.kind == ErrorKind::RouterError,
        status_of(e.kind) == 422 <==> e.kind == ErrorKind::FromDataError,
        status_of(e.kind) == 500 <==> e.kind == ErrorKind::StateNotFound || e.kind
            == ErrorKind::OtherServersFault,
        error_response(e).headers == seq![(content_type(), "application/json"@)],
        error_response(e).body == encode_utf8(error_body(e)),
        e.kind == ErrorKind::RouterError ==> error_body(e)
            == "{'status': 'error', 'msg': '"@ + "RouterError"@ + "' }"@,
{
}

/// The response with status 200 and one header that holds `body`.
fn ok_with(kind: &str, body: Vec<u8>) -> (r: Response)
    ensures
        r@ == (ResponseView {
            status: 200,
            headers: seq![(content_type(), kind@)],
            body: body@,
        }),
{
    let r = Response::new().with_header("Content-Type", kind).with_body(body);
    assert(r@.headers =~= seq![(content_type(), kind@)]);
    r
}

/// The response for an encoded JSON payload.
pub fn respond_json(bytes: Vec<u8>) -> (r: Response)
    ensures
        r@ == json_response(bytes@),
{
    ok_with("application/json", bytes)
}

impl Responder for String {
    /// The text as a plain-text response.
    fn respond(self) -> (r: Response)
        ensures
            r@ == text_response(self@),
    {
        ok_with("text/plain; charset=utf-8", self.as_str().as_bytes_vec())
    }
}

impl Responder for &'static str {
    /// The text as a plain-text response.
    fn respond(self) -> (r: Response)
        ensures
            r@ == text_response(self@),
    {
        ok_with("text/plain; charset=utf-8", self.as_bytes_vec())
    }
}

impl Responder for () {
    /// The empty response.
    fn respond(self) -> (r: Response)
        ensures
            r@ == empty_response(),
    {
        Response::new()
    }
}

impl Responder for Response {
    /// The response itself.
    fn respond(self) -> (r: Response)
        ensures
            r == self,
    {
        self
    }
}

impl<T: Responder, E: Responder> Responder for Result<T, E> {
    /// The response of whichever of the two is there.
    fn respond(self) -> (r: Response)
        ensures
            match self {
                Ok(ok) => call_ensures(T::respond, (ok,), r),
                Err(err) => call_ensures(E::respond, (err,), r),
            },
    {
        match self {
            Ok(ok) => ok.respond(),
            Err(err) => err.respond(),
        }
    }
}

/// Writes a failure of `kind` whose text, quoted, is `quoted`.
pub fn render_with(kind: ErrorKind, quoted: &str) -> (s: String)
    ensures
        s@ == rendered_with(kind, quoted@),
{
    let mut s = String::from_str(kind.name());
    if kind != ErrorKind::RouterError {
        s.append("(");
        s.append(quoted);
        s.append(")");
    }
    s
}

/// The response to a failure of `kind` that is written as `rendered`.
pub fn respond_failure(kind: ErrorKind, rendered: &str) -> (r: Response)
    ensures
        r@ == failure_response(kind, rendered@),
{
    let mut body = String::from_str("{'status': 'error', 'msg': '");
    body.append(rendered);
    body.append("' }");
    let r = Response::new().with_status(kind.status_code()).with_header(
        "Content-Type",
        "application/json",
    ).with_body(body.as_str().as_bytes_vec());
    assert(r@.headers =~= seq![(content_type(), "application/json"@)]);
    r
}

impl Error {
    /// How the failure is written in the body of its response: the name
    /// of its kind and, in round brackets, its text in quotes.
    pub fn render(&self) -> (s: String)
        ensures
            s@ == rendered(self@),
    {
        let quoted = quote_text(self.text());
        render_with(self.kind(), quoted.as_str())
    }
}

impl Responder for Error {
    /// The response to the failure.
    fn respond(self) -> (r: Response)
        ensures
            r@ == error_response(self@),
    {
        let rendered = self.render();
        respond_failure(self.kind(), rendered.as_str())
    }
}

/// Outcomes whose success and failure can both be turned into a
/// response, and which therefore never fail a request.
pub trait LiftError {
    /// What the outcome becomes.
    type Future;

    /// The outcome with its failure turned into a response.
    fn lift_error(self) -> Self::Future;
}

impl<T: Responder, E: Responder> LiftError for Result<T, E> {
    type Future = Result<Response, Error>;

    /// Always a response: that of the success, or that of the failure.
    fn lift_error(self) -> (r: Result<Response, Error>)
        ensures
            r matches Ok(response) && match self {
                Ok(ok) => call_ensures(T::respond, (ok,), response),
                Err(err) => call_ensures(E::respond, (err,), response),
            },
    {
        Ok(self.respond())
    }
}

} // verus!
