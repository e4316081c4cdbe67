//! What a call of an endpoint sends: the method, the address and the body.

use crate::controllers::chat_completion::ChatRequest;
use crate::controllers::completion::GenerateRequest;
use crate::controllers::embed::EmbedRequest;
use crate::controllers::models::{
    CopyModelRequest, DeleteModelRequest, ModelInfoRequest, PullModelRequest,
};
use vstd::prelude::*;

verus! {

/// The HTTP method of a request.
#[derive(Clone, Copy, Debug, PartialEq, Eq, Structural)]
pub enum Method {
    Get,
    Post,
    Delete,
}

impl Method {
    /// The method's name on the wire.
    pub open spec fn name(&self) -> Seq<char> {
        match self {
            Method::Get => "GET"@,
            Method::Post => "POST"@,
            Method::Delete => "DELETE"@,
        }
    }

    /// The method's name on the wire.
    pub fn as_str(&self) -> (name: &'static str)
        ensures
            name@ == self.name(),
    {
        match self {
            Method::Get => "GET",
            Method::Post => "POST",
            Method::Delete => "DELETE",
        }
    }
}

/// The record that a request carries as its JSON body.
#[derive(Debug)]
pub enum Body {
    /// No body at all.
    Empty,
    Chat(ChatRequest),
    Generate(GenerateRequest),
    Embed(EmbedRequest),
    Pull(PullModelRequest),
    Delete(DeleteModelRequest),
    Show(ModelInfoRequest),
    Copy(CopyModelRequest),
}

impl Body {
    /// Whether the body asks the server for a stream of newline-delimited
    /// events rather than for one JSON object.
    pub open spec fn wants_stream(&self) -> bool {
        match self {
            Body::Chat(request) => request.stream,
            Body::Generate(request) => request.stream,
            Body::Pull(request) => request.stream,
            _ => false,
        }
    }

    /// Whether the body asks the server for a stream of newline-delimited
    /// events rather than for one JSON object.
    pub fn is_streaming(&self) -> (streaming: bool)
        ensures
            streaming == self.wants_stream(),
    {
        match self {
            Body::Chat(request) => request.stream,
            Body::Generate(request) => request.stream,
            Body::Pull(request) => request.stream,
            _ => false,
        }
    }
}

/// One call of an endpoint, ready to be sent.
#[derive(Debug)]
pub struct Request {
    pub method: Method,
    /// The absolute address: the handle's base followed by the endpoint's path.
    pub uri: String,
    pub body: Body,
}

} // verus!
