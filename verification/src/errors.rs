//! The closed set of failures a request can meet, and the status each maps to.

use vstd::prelude::*;
use vstd::string::StringExecFns;

verus! {

/// Which of the eight failures an [`Error`] is, without its context.
#[derive(Clone, Copy, Debug, PartialEq, Eq, Structural)]
pub enum ErrorKind {
    RouterError,
    ParamParseError,
    ParamNotFound,
    HyperError,
    FromDataError,
    StateNotFound,
    OtherUsersFault,
    OtherServersFault,
}

/// A failure of request handling. Each kind but `RouterError` carries a
/// short text: a parameter name, a parser message or a description.
#[derive(Clone, Debug, PartialEq, Eq)]
pub enum Error {
    /// No route matched the request.
    RouterError,
    /// A path parameter did not parse into its target type.
    ParamParseError(String),
    /// A declared path parameter was not captured by the route.
    ParamNotFound(String),
    /// The transport failed.
    HyperError(String),
    /// The request body could not be read or decoded.
    FromDataError(String),
    /// A declared state dependency was never registered.
    StateNotFound(String),
    /// A handler reports a fault of the client.
    OtherUsersFault(String),
    /// A handler reports a fault of the server.
    OtherServersFault(String),
}

/// The model of an [`Error`]: its kind and the text it carries.
pub struct ErrorView {
    pub kind: ErrorKind,
    pub text: Seq<char>,
}

impl View for Error {
    type V = ErrorView;

    open spec fn view(&self) -> ErrorView {
        match *self {
            Error::RouterError => ErrorView { kind: ErrorKind::RouterError, text: Seq::empty() },
            Error::ParamParseError(t) => ErrorView { kind: ErrorKind::ParamParseError, text: t@ },
            Error::ParamNotFound(t) => ErrorView { kind: ErrorKind::ParamNotFound, text: t@ },
            Error::HyperError(t) => ErrorView { kind: ErrorKind::HyperError, text: t@ },
            Error::FromDataError(t) => ErrorView { kind: ErrorKind::FromDataError, text: t@ },
            Error::StateNotFound(t) => ErrorView { kind: ErrorKind::StateNotFound, text: t@ },
            Error::OtherUsersFault(t) => ErrorView { kind: ErrorKind::OtherUsersFault, text: t@ },
            Error::OtherServersFault(t) => ErrorView {
                kind: ErrorKind::OtherServersFault,
                text: t@,
            },
        }
    }
}

/// The HTTP status of each kind of failure.
pub open spec fn status_of(kind: ErrorKind) -> u16 {
    match kind {
        ErrorKind::RouterError => 404,
        ErrorKind::ParamParseError => 400,
        ErrorKind::ParamNotFound => 400,
        ErrorKind::HyperError => 400,
        ErrorKind::FromDataError => 422,
        ErrorKind::StateNotFound => 500,
        ErrorKind::OtherUsersFault => 400,
        ErrorKind::OtherServersFault => 500,
    }
}

/// The name under which each kind is rendered.
pub open spec fn name_of(kind: ErrorKind) -> Seq<char> {
    match kind {
        ErrorKind::RouterError => "RouterError"@,
        ErrorKind::ParamParseError => "ParamParseError"@,
        ErrorKind::ParamNotFound => "ParamNotFound"@,
        ErrorKind::HyperError => "HyperError"@,
        ErrorKind::FromDataError => "FromDataError"@,
        ErrorKind::StateNotFound => "StateNotFound"@,
        ErrorKind::OtherUsersFault => "OtherUsersFault"@,
        ErrorKind::OtherServersFault => "OtherServersFault"@,
    }
}

impl ErrorKind {
    /// The HTTP status this kind maps to.
    pub fn status_code(self) -> (code: u16)
        ensures
            code == status_of(self),
    {
        match self {
            ErrorKind::RouterError => 404,
            ErrorKind::ParamParseError => 400,
            ErrorKind::ParamNotFound => 400,
            ErrorKind::HyperError => 400,
            ErrorKind::FromDataError => 422,
            ErrorKind::StateNotFound => 500,
            ErrorKind::OtherUsersFault => 400,
            ErrorKind::OtherServersFault => 500,
        }
    }

    /// The name of this kind.
    pub fn name(self) -> (name: &'static str)
        ensures
            name@ == name_of(self),
    {
        match self {
            ErrorKind::RouterError => "RouterError",
            ErrorKind::ParamParseError => "ParamParseError",
            ErrorKind::ParamNotFound => "ParamNotFound",
            ErrorKind::HyperError => "HyperError",
            ErrorKind::FromDataError => "FromDataError",
            ErrorKind::StateNotFound => "StateNotFound",
            ErrorKind::OtherUsersFault => "OtherUsersFault",
            ErrorKind::OtherServersFault => "OtherServersFault",
        }
    }
}

impl Error {
    /// The failure of the given kind that carries `text`. `RouterError`
    /// carries none, so the text is dropped for it.
    pub fn new(kind: ErrorKind, text: &str) -> (e: Error)
        ensures
            e@.kind == kind,
            e@.text == if kind == ErrorKind::RouterError {
                Seq::<char>::empty()
            } else {
                text@
            },
    {
        match kind {
            ErrorKind::RouterError => Error::RouterError,
            ErrorKind::ParamParseError => Error::ParamParseError(String::from_str(text)),
            ErrorKind::ParamNotFound => Error::ParamNotFound(String::from_str(text)),
            ErrorKind::HyperError => Error::HyperError(String::from_str(text)),
            ErrorKind::FromDataError => Error::FromDataError(String::from_str(text)),
            ErrorKind::StateNotFound => Error::StateNotFound(String::from_str(text)),
            ErrorKind::OtherUsersFault => Error::OtherUsersFault(String::from_str(text)),
            ErrorKind::OtherServersFault => Error::OtherServersFault(String::from_str(text)),
        }
    }

    /// Which failure this is.
    pub fn kind(&self) -> (kind: ErrorKind)
        ensures
            kind == self@.kind,
    {
        match self {
            Error::RouterError => ErrorKind::RouterError,
            Error::ParamParseError(_) => ErrorKind::ParamParseError,
            Error::ParamNotFound(_) => ErrorKind::ParamNotFound,
            Error::HyperError(_) => ErrorKind::HyperError,
            Error::FromDataError(_) => ErrorKind::FromDataError,
            Error::StateNotFound(_) => ErrorKind::StateNotFound,
            Error::OtherUsersFault(_) => ErrorKind::OtherUsersFault,
            Error::OtherServersFault(_) => ErrorKind::OtherServersFault,
        }
    }

    /// The text this failure carries; empty for `RouterError`.
    pub fn text(&self) -> (text: &str)
        ensures
            text@ == self@.text,
    {
        match self {
            Error::RouterError => {
                proof {
                    reveal_strlit("");
                }
                assert(""@ =~= Seq::<char>::empty());
                ""
            },
            Error::ParamParseError(t) => t.as_str(),
            Error::ParamNotFound(t) => t.as_str(),
            Error::HyperError(t) => t.as_str(),
            Error::FromDataError(t) => t.as_str(),
            Error::StateNotFound(t) => t.as_str(),
            Error::OtherUsersFault(t) => t.as_str(),
            Error::OtherServersFault(t) => t.as_str(),
        }
    }

    /// The HTTP status this failure is answered with: 404 where no route
    /// matched, 422 for an undecodable body, 500 for the server's own
    /// faults, 400 for everything else.
    pub fn status_code(&self) -> (code: u16)
        ensures
            code == status_of(self@.kind),
    {
        self.kind().status_code()
    }
}

} // verus!
