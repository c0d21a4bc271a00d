//! What a handler is called with, and what it is.

use vstd::prelude::*;
use crate::data::FromData;
use crate::errors::Error;
use crate::parse::{ParamValue, ParamValueView};
use crate::response::Response;
use crate::state::Handle;

verus! {

/// The inputs of a handler, as the extraction plan assembled them: the
/// path parameters in the order declared, the decoded body where one is
/// declared, and the handles to shared state in the order declared.
pub struct Arguments<B> {
    pub path: Vec<ParamValue>,
    pub body: Option<B>,
    pub states: Vec<Handle>,
}

/// The model of [`Arguments`].
pub struct ArgumentsView<B> {
    pub path: Seq<ParamValueView>,
    pub body: Option<B>,
    pub states: Seq<Handle>,
}

impl<B> View for Arguments<B> {
    type V = ArgumentsView<B>;

    open spec fn view(&self) -> ArgumentsView<B> {
        ArgumentsView {
            path: self.path.deep_view(),
            body: self.body,
            states: self.states@,
        }
    }
}

/// The code that answers the requests of one route.
pub trait Handler {
    /// The payload that the handler takes from the body of a request.
    type Body: FromData;

    /// Answers a request from its assembled inputs.
    fn handle(&self, args: Arguments<Self::Body>) -> Result<Response, Error>;
}

} // verus!
