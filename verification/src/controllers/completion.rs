//! Text completion: `api/generate`.

use crate::request::{Body, Method, Request};
use crate::stream::{EventStream, StreamEvent};
use crate::Ollama;
use vstd::prelude::*;

verus! {

/// A completion request as it goes over the wire. `options` is left out of
/// the JSON body when it is `None`.
#[derive(Debug)]
pub struct GenerateRequest {
    pub model: String,
    pub prompt: String,
    pub options: Option<serde_json::Value>,
    pub stream: bool,
}

/// One event of a completion stream.
#[derive(Debug, Clone)]
pub struct GenerateEvent {
    pub model: String,
    pub created_at: String,
    pub response: String,
    pub done: bool,
}

impl Default for GenerateEvent {
    fn default() -> (event: GenerateEvent)
        ensures
            event.model@ == Seq::<char>::empty(),
            event.created_at@ == Seq::<char>::empty(),
            event.response@ == Seq::<char>::empty(),
            !event.done,
    {
        GenerateEvent {
            model: String::new(),
            created_at: String::new(),
            response: String::new(),
            done: false,
        }
    }
}

impl StreamEvent for GenerateEvent {
    open spec fn terminal(&self) -> bool {
        self.done
    }

    fn is_terminal(&self) -> (last: bool) {
        self.done
    }
}

/// The decoder of a completion response: a stream of `GenerateEvent`s that
/// ends with the body or with the first event that is `done`.
pub type GenerateResponse = EventStream<GenerateEvent>;

impl<C> Ollama<C> {
    /// The call that starts a completion: a `POST` to `api/generate` whose
    /// body is `request` with its `stream` flag set, whatever it was.
    pub fn completion(&self, request: GenerateRequest) -> (call: Request)
        ensures
            call.method == Method::Post,
            call.uri@ == self.base() + "api/generate"@,
            call.body == Body::Generate(GenerateRequest { stream: true, ..request }),
            call.body.wants_stream(),
    {
        Request {
            method: Method::Post,
            uri: self.endpoint("api/generate"),
            body: Body::Generate(GenerateRequest { stream: true, ..request }),
        }
    }
}

} // verus!
