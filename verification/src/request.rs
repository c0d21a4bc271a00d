//! What the transport hands over for one request: method, path and body.

use vstd::prelude::*;
use crate::text::same_text;

verus! {

/// The method of a request.
#[derive(Clone, Debug, PartialEq, Eq, Hash)]
pub enum Method {
    Options,
    Get,
    Post,
    Put,
    Delete,
    Head,
    Trace,
    Connect,
    Patch,
    /// A method that has no variant of its own, by its name.
    Extension(String),
}

/// The model of a [`Method`].
pub enum MethodView {
    Options,
    Get,
    Post,
    Put,
    Delete,
    Head,
    Trace,
    Connect,
    Patch,
    Extension(Seq<char>),
}

impl View for Method {
    type V = MethodView;

    open spec fn view(&self) -> MethodView {
        match *self {
            Method::Options => MethodView::Options,
            Method::Get => MethodView::Get,
            Method::Post => MethodView::Post,
            Method::Put => MethodView::Put,
            Method::Delete => MethodView::Delete,
            Method::Head => MethodView::Head,
            Method::Trace => MethodView::Trace,
            Method::Connect => MethodView::Connect,
            Method::Patch => MethodView::Patch,
            Method::Extension(name) => MethodView::Extension(name@),
        }
    }
}

/// The method that a route declaration names: `get`, `post`, `put` or
/// `delete`, in lower case.
pub open spec fn method_named(name: Seq<char>) -> Option<MethodView> {
    if name == "get"@ {
        Some(MethodView::Get)
    } else if name == "post"@ {
        Some(MethodView::Post)
    } else if name == "put"@ {
        Some(MethodView::Put)
    } else if name == "delete"@ {
        Some(MethodView::Delete)
    } else {
        None
    }
}

/// The name of each method, capitalised; an extension is named as it is.
pub open spec fn method_name(method: MethodView) -> Seq<char> {
    match method {
        MethodView::Options => "Options"@,
        MethodView::Get => "Get"@,
        MethodView::Post => "Post"@,
        MethodView::Put => "Put"@,
        MethodView::Delete => "Delete"@,
        MethodView::Head => "Head"@,
        MethodView::Trace => "Trace"@,
        MethodView::Connect => "Connect"@,
        MethodView::Patch => "Patch"@,
        MethodView::Extension(name) => name,
    }
}

impl Method {
    /// The name of the method, capitalised; an extension is named as it is.
    pub fn as_name_str(&self) -> (name: &str)
        ensures
            name@ == method_name(self@),
    {
        match self {
            Method::Options => "Options",
            Method::Get => "Get",
            Method::Post => "Post",
            Method::Put => "Put",
            Method::Delete => "Delete",
            Method::Head => "Head",
            Method::Trace => "Trace",
            Method::Connect => "Connect",
            Method::Patch => "Patch",
            Method::Extension(name) => name.as_str(),
        }
    }

    /// The method that a route declaration names, if it names one.
    pub fn parse(s: &str) -> (r: Option<Method>)
        ensures
            match method_named(s@) {
                Some(m) => r matches Some(found) && found@ == m,
                None => r is None,
            },
    {
        if same_text(s, "get") {
            Some(Method::Get)
        } else if same_text(s, "post") {
            Some(Method::Post)
        } else if same_text(s, "put") {
            Some(Method::Put)
        } else if same_text(s, "delete") {
            Some(Method::Delete)
        } else {
            None
        }
    }

    /// Whether two methods are the same.
    pub fn same(&self, other: &Method) -> (r: bool)
        ensures
            r == (self@ == other@),
    {
        match (self, other) {
            (Method::Options, Method::Options) => true,
            (Method::Get, Method::Get) => true,
            (Method::Post, Method::Post) => true,
            (Method::Put, Method::Put) => true,
            (Method::Delete, Method::Delete) => true,
            (Method::Head, Method::Head) => true,
            (Method::Trace, Method::Trace) => true,
            (Method::Connect, Method::Connect) => true,
            (Method::Patch, Method::Patch) => true,
            (Method::Extension(a), Method::Extension(b)) => same_text(a.as_str(), b.as_str()),
            _ => false,
        }
    }
}

/// One request, as the transport read it. The body is handed out once, by
/// value: whoever takes it has the request no more.
#[derive(Debug)]
pub struct Request {
    method: Method,
    path: String,
    body: Vec<u8>,
}

/// The model of a [`Request`].
pub struct RequestView {
    pub method: MethodView,
    pub path: Seq<char>,
    pub body: Seq<u8>,
}

impl View for Request {
    type V = RequestView;

    closed spec fn view(&self) -> RequestView {
        RequestView { method: self.method@, path: self.path@, body: self.body@ }
    }
}

impl Request {
    /// The request with this method, path and body.
    pub fn new(method: Method, path: String, body: Vec<u8>) -> (r: Request)
        ensures
            r@ == (RequestView { method: method@, path: path@, body: body@ }),
    {
        Request { method, path, body }
    }

    /// The method of the request.
    pub fn method(&self) -> (m: &Method)
        ensures
            m@ == self@.method,
    {
        &self.method
    }

    /// The path of the request.
    pub fn path(&self) -> (p: &str)
        ensures
            p@ == self@.path,
    {
        self.path.as_str()
    }

    /// The body of the request, which ends the request.
    pub fn body(self) -> (b: Vec<u8>)
        ensures
            b@ == self@.body,
    {
        self.body
    }
}

} // verus!
