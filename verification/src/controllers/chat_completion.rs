//! Chat completion: `api/chat`.

use crate::request::{Body, Method, Request};
use crate::stream::{EventStream, StreamEvent};
use crate::Ollama;
use vstd::prelude::*;

verus! {

/// A chat request as it goes over the wire. Fields that are `None` are left
/// out of the JSON body.
#[derive(Debug)]
pub struct ChatRequest {
    pub model: String,
    pub messages: Vec<ChatMessage>,
    pub tools: Option<Vec<serde_json::Value>>,
    pub format: Option<serde_json::Value>,
    pub options: Option<serde_json::Value>,
    pub stream: bool,
    pub keep_alive: Option<String>,
}

/// One message of a conversation.
#[derive(Debug, Clone)]
pub struct ChatMessage {
    pub role: String,
    pub content: String,
    pub images: Option<Vec<String>>,
    pub tool_calls: Option<Vec<serde_json::Value>>,
}

/// One event of a chat stream. The durations and counts come with the
/// terminal event only.
#[derive(Debug, Clone)]
pub struct ChatEvent {
    pub model: String,
    pub created_at: String,
    pub message: ChatMessage,
    pub done: bool,
    pub done_reason: Option<String>,
    pub total_duration: Option<u64>,
    pub load_duration: Option<u64>,
    pub prompt_eval_count: Option<u64>,
    pub prompt_eval_duration: Option<u64>,
    pub eval_count: Option<u64>,
    pub eval_duration: Option<u64>,
}

impl StreamEvent for ChatEvent {
    open spec fn terminal(&self) -> bool {
        self.done
    }

    fn is_terminal(&self) -> (last: bool) {
        self.done
    }
}

/// The decoder of a chat response: a stream of `ChatEvent`s that ends with
/// the body or with the first event that is `done`.
pub type ChatResponse = EventStream<ChatEvent>;

impl<C> Ollama<C> {
    /// The call that starts a chat: a `POST` to `api/chat` whose body is
    /// `request` with its `stream` flag set, whatever it was.
    pub fn chat(&self, request: ChatRequest) -> (call: Request)
        ensures
            call.method == Method::Post,
            call.uri@ == self.base() + "api/chat"@,
            call.body == Body::Chat(ChatRequest { stream: true, ..request }),
            call.body.wants_stream(),
    {
        Request {
            method: Method::Post,
            uri: self.endpoint("api/chat"),
            body: Body::Chat(ChatRequest { stream: true, ..request }),
        }
    }
}

} // verus!
