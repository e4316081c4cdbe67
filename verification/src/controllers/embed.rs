//! Embeddings: `api/embed`.

use crate::request::{Body, Method, Request};
use crate::Ollama;
use vstd::prelude::*;

verus! {

/// An embedding request as it goes over the wire. Fields that are `None` are
/// left out of the JSON body.
#[derive(Debug)]
pub struct EmbedRequest {
    pub model: String,
    pub input: EmbedInput,
    pub truncate: Option<bool>,
    pub options: Option<serde_json::Value>,
    pub keep_alive: Option<String>,
}

/// What is to be embedded: one text, written on the wire as a string, or
/// several, written as a list of strings.
#[derive(Debug, Clone)]
pub enum EmbedInput {
    Single(String),
    Multiple(Vec<String>),
}

impl EmbedInput {
    /// The number of texts, which is the number of embeddings that answer
    /// the request.
    pub open spec fn count(&self) -> nat {
        match self {
            EmbedInput::Single(_) => 1,
            EmbedInput::Multiple(texts) => texts@.len(),
        }
    }

    /// The number of texts, which is the number of embeddings that answer
    /// the request.
    pub fn len(&self) -> (n: usize)
        ensures
            n == self.count(),
    {
        match self {
            EmbedInput::Single(_) => 1,
            EmbedInput::Multiple(texts) => texts.len(),
        }
    }
}

/// The answer to an embedding request: one vector of type `V` for each text
/// of the input, in the input's order. The durations and counts are optional.
#[derive(Debug, Clone)]
pub struct EmbedResponse<V> {
    pub model: String,
    pub embeddings: Vec<V>,
    pub total_duration: Option<u64>,
    pub load_duration: Option<u64>,
    pub prompt_eval_count: Option<u64>,
    pub prompt_eval_duration: Option<u64>,
    pub eval_count: Option<u64>,
    pub eval_duration: Option<u64>,
}

impl<V> EmbedResponse<V> {
    /// Whether the response holds one embedding for each text of `input`.
    pub open spec fn answers(&self, input: &EmbedInput) -> bool {
        self.embeddings@.len() == input.count()
    }

    /// Whether the response holds one embedding for each text of `input`.
    pub fn matches(&self, input: &EmbedInput) -> (complete: bool)
        ensures
            complete == self.answers(input),
    {
        self.embeddings.len() == input.len()
    }
}

impl<C> Ollama<C> {
    /// The call that asks for embeddings: a `POST` to `api/embed` whose body
    /// is `request`. The answer is one JSON object, whatever the size of the
    /// input.
    pub fn embed(&self, request: EmbedRequest) -> (call: Request)
        ensures
            call.method == Method::Post,
            call.uri@ == self.base() + "api/embed"@,
            call.body == Body::Embed(request),
            !call.body.wants_stream(),
    {
        Request { method: Method::Post, uri: self.endpoint("api/embed"), body: Body::Embed(request) }
    }
}

} // verus!
