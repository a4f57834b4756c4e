//! What every kind of task has in common: it describes the request that asks
//! for it, and it takes its result out of the decoded response.

use vstd::prelude::*;

use crate::json::{Json, JsonView};

verus! {

/// The HTTP method of a request.
#[derive(Debug, Clone, Copy, PartialEq, Eq, Hash)]
pub enum Method {
    Get,
    Post,
}

/// A request that is yet to be sent: the method, the address and the JSON
/// document that it carries as its body.
#[derive(Debug, PartialEq, Eq)]
pub struct Request {
    pub method: Method,
    pub url: String,
    pub body: Json,
}

/// What a [`Request`] holds.
pub struct RequestView {
    pub method: Method,
    pub url: Seq<char>,
    pub body: JsonView,
}

impl View for Request {
    type V = RequestView;

    open spec fn view(&self) -> RequestView {
        RequestView { method: self.method, url: self.url@, body: self.body@ }
    }
}

/// One operation of the API: its parameters, the request that carries them
/// and the way its result is found in the response.
///
/// Neither method sends or receives anything. Sending the request and
/// decoding the response into `ResponseBody` are the caller's part.
pub trait Task {
    /// What the task yields.
    type Output;

    /// The decoded body of the response to the task's request.
    type ResponseBody;

    /// The request that asks the model named `model`, at the API found under
    /// `base`, to carry out the task.
    spec fn request(&self, base: Seq<char>, model: Seq<char>) -> RequestView;

    /// Whether the response holds a result.
    spec fn has_output(&self, response: Self::ResponseBody) -> bool;

    /// The result that the response holds.
    spec fn output(&self, response: Self::ResponseBody) -> Self::Output;

    /// Describes the request that asks for the operation.
    fn build_request(&self, base: &str, model: &str) -> (request: Request)
        ensures
            request@ == self.request(base@, model@),
    ;

    /// Takes the result out of the response, which must hold one.
    fn body_to_output(&self, response: Self::ResponseBody) -> (output: Self::Output)
        requires
            self.has_output(response),
        ensures
            output == self.output(response),
    ;
}

} // verus!
