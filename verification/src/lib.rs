//! A transport-agnostic client core for the HTTP API of a local
//! large-language-model server.
//!
//! The crate decides what is sent and how what comes back is read; it never
//! opens a socket. A caller builds an [`Ollama`] handle, asks it for the
//! [`Request`](request::Request) of an endpoint, sends that through a transport
//! of its own, and feeds the response to the functions of [`stream`] and
//! [`response`].

pub mod controllers;
pub mod json;
pub mod request;
pub mod response;
pub mod stream;

pub use controllers::{
    ChatEvent, ChatMessage, ChatRequest, ChatResponse, CopyModelRequest, DeleteModelRequest,
    EmbedInput, EmbedRequest, EmbedResponse, GenerateEvent, GenerateRequest, GenerateResponse,
    ListLocalModelsResponse, LocalModel, ModelInfo, ModelInfoRequest, PullModelEvent,
    PullModelEventView, PullModelRequest, PullModelResponse,
};
pub use request::{Body, Method, Request};
pub use response::{check_status, decode_response, succeeded, ResponseError, StatusError};
pub use stream::{DecoderState, EventStream, FrameBuffer, Step, StreamEvent};

use vstd::prelude::*;
use vstd::string::{StrSliceExecFns, StringExecFns};

verus! {

/// The base address that a handle uses when the builder was given none.
pub open spec fn default_base() -> Seq<char> {
    "http://localhost:11434/"@
}

/// Whether `uri` is non-empty and ends in the path separator `/`.
pub open spec fn ends_in_separator(uri: Seq<char>) -> bool {
    uri.len() > 0 && uri.last() == '/'
}

/// Whether `uri` is non-empty and ends in the path separator `/`: the test
/// that a base address has to pass before it is handed to `with_uri`.
pub fn has_trailing_separator(uri: &str) -> (ends: bool)
    ensures
        ends == ends_in_separator(uri@),
{
    let len = uri.unicode_len();
    len > 0 && uri.get_char(len - 1) == '/'
}

/// A client handle: the base address of the server and the transport that
/// reaches it. It is read-only once built, and its base address always ends in
/// the path separator.
pub struct Ollama<C> {
    uri: String,
    http_client: C,
}

/// The configuration from which a handle is built.
pub struct OllamaBuilder<C> {
    uri: Option<String>,
    http_client: Option<C>,
}

impl<C> Ollama<C> {
    #[verifier::type_invariant]
    spec fn inv(&self) -> bool {
        ends_in_separator(self.uri@)
    }

    /// The base address; every endpoint path is appended to it as it stands.
    pub closed spec fn base(&self) -> Seq<char> {
        self.uri@
    }

    /// The transport that the handle carries.
    pub closed spec fn transport(&self) -> C {
        self.http_client
    }

    /// A builder with nothing configured yet.
    pub fn builder() -> (b: OllamaBuilder<C>)
        ensures
            b.base() is None,
            b.transport() is None,
    {
        OllamaBuilder { uri: None, http_client: None }
    }

    /// The base address as text.
    pub fn uri(&self) -> (uri: &str)
        ensures
            uri@ == self.base(),
            ends_in_separator(uri@),
    {
        proof {
            use_type_invariant(self);
        }
        self.uri.as_str()
    }

    /// The address of the endpoint at `path`: the base, then the path, with
    /// nothing put between them or changed.
    pub(crate) fn endpoint(&self, path: &str) -> (uri: String)
        ensures
            uri@ == self.base() + path@,
    {
        let mut uri = self.uri.clone();
        uri.append(path);
        uri
    }

    /// The transport, to send a request through.
    pub fn http_client(&self) -> (client: &C)
        ensures
            *client == self.transport(),
    {
        &self.http_client
    }
}

impl<C> OllamaBuilder<C> {
    #[verifier::type_invariant]
    spec fn inv(&self) -> bool {
        self.uri matches Some(u) ==> ends_in_separator(u@)
    }

    /// The base address configured so far, if any.
    pub closed spec fn base(&self) -> Option<Seq<char>> {
        match self.uri {
            Some(u) => Some(u@),
            None => None,
        }
    }

    /// The transport configured so far, if any.
    pub closed spec fn transport(&self) -> Option<C> {
        self.http_client
    }

    /// Sets the transport, replacing an earlier one.
    pub fn with_http_client(&mut self, http_client: C) -> (ret: &mut Self)
        ensures
            ret.transport() == Some(http_client),
            ret.base() == old(self).base(),
            *final(self) == *final(ret),
    {
        proof {
            use_type_invariant(&*self);
        }
        self.http_client = Some(http_client);
        self
    }

    /// Sets the base address, replacing the default or an earlier one. The
    /// address has to end in `/`: endpoint paths are appended to it without
    /// any normalization.
    pub fn with_uri(&mut self, uri: String) -> (ret: &mut Self)
        requires
            ends_in_separator(uri@),
        ensures
            ret.base() == Some(uri@),
            ret.transport() == old(self).transport(),
            *final(self) == *final(ret),
    {
        self.uri = Some(uri);
        self
    }

    /// Builds the handle: the configured base address, or the default one, and
    /// a clone of the configured transport. There is no default transport, so
    /// one has to be configured first.
    pub fn build(&self) -> (ollama: Ollama<C>) where C: Clone
        requires
            self.transport() is Some,
        ensures
            ollama.base() == match self.base() {
                Some(uri) => uri,
                None => default_base(),
            },
            ends_in_separator(ollama.base()),
            cloned(self.transport()->0, ollama.transport()),
    {
        proof {
            use_type_invariant(self);
            reveal_strlit("http://localhost:11434/");
        }
        let uri = match &self.uri {
            Some(uri) => uri.clone(),
            None => String::from_str("http://localhost:11434/"),
        };
        let http_client = self.http_client.clone().unwrap();
        Ollama { uri, http_client }
    }
}

} // verus!
