//! Model management: pulling, listing, deleting, inspecting and copying.

use crate::request::{Body, Method, Request};
use crate::stream::{EventStream, StreamEvent};
use crate::Ollama;
use vstd::prelude::*;

verus! {

/// The body of a pull request.
#[derive(Clone, Debug)]
pub struct PullModelRequest {
    pub name: String,
    pub insecure: bool,
    pub stream: bool,
}

/// The body of a delete request.
#[derive(Clone, Debug)]
pub struct DeleteModelRequest {
    pub name: String,
}

/// The body of a request for a model's details.
#[derive(Clone, Debug)]
pub struct ModelInfoRequest {
    pub name: String,
}

/// The body of a copy request.
#[derive(Clone, Debug)]
pub struct CopyModelRequest {
    pub source: String,
    pub destination: String,
}

/// The models that the server holds.
#[derive(Clone, Debug)]
pub struct ListLocalModelsResponse {
    pub models: Vec<LocalModel>,
}

/// One model that the server holds.
#[derive(Clone, Debug)]
pub struct LocalModel {
    pub name: String,
    pub modified_at: String,
    pub size: u64,
}

/// What the server tells of one model.
#[derive(Clone, Debug)]
pub struct ModelInfo {
    pub license: Option<String>,
    pub modelfile: Option<String>,
    pub parameters: Option<String>,
    pub template: Option<String>,
}

/// One progress line of a pull, and also the running summary of the lines
/// seen so far. The server writes one line per layer, with that layer's
/// digest, and a last status line without a digest.
#[derive(Debug, Clone)]
pub struct PullModelEvent {
    pub status: String,
    pub digest: Option<String>,
    pub total: Option<u64>,
    pub completed: Option<u64>,
}

/// What a `PullModelEvent` holds, as plain values.
pub struct PullModelEventView {
    pub status: Seq<char>,
    pub digest: Option<Seq<char>>,
    pub total: Option<u64>,
    pub completed: Option<u64>,
}

impl View for PullModelEvent {
    type V = PullModelEventView;

    open spec fn view(&self) -> PullModelEventView {
        PullModelEventView {
            status: self.status@,
            digest: match self.digest {
                Some(digest) => Some(digest@),
                None => None,
            },
            total: self.total,
            completed: self.completed,
        }
    }
}

impl PullModelEventView {
    /// The summary before any event: an empty status and nothing known.
    pub open spec fn empty() -> PullModelEventView {
        PullModelEventView { status: Seq::empty(), digest: None, total: None, completed: None }
    }

    /// The summary once `event` has been merged into it: the event's status
    /// and digest take the place of the earlier ones, and each counter is
    /// replaced only if the event brings a value for it.
    pub open spec fn absorb(self, event: PullModelEventView) -> PullModelEventView {
        PullModelEventView {
            status: event.status,
            digest: event.digest,
            total: if event.total is Some {
                event.total
            } else {
                self.total
            },
            completed: if event.completed is Some {
                event.completed
            } else {
                self.completed
            },
        }
    }

    /// The summary once all of `events` have been merged into it, in order.
    pub open spec fn absorb_all(self, events: Seq<PullModelEventView>) -> PullModelEventView
        decreases events.len(),
    {
        if events.len() == 0 {
            self
        } else {
            self.absorb_all(events.drop_last()).absorb(events.last())
        }
    }
}

/// The views of a list of events, in order.
pub open spec fn views(events: Seq<PullModelEvent>) -> Seq<PullModelEventView> {
    events.map_values(|event: PullModelEvent| event@)
}

impl Default for PullModelEvent {
    fn default() -> (event: PullModelEvent)
        ensures
            event@ == PullModelEventView::empty(),
    {
        PullModelEvent { status: String::new(), digest: None, total: None, completed: None }
    }
}

impl StreamEvent for PullModelEvent {
    /// A pull stream has no terminal marker: it ends with the body.
    open spec fn terminal(&self) -> bool {
        false
    }

    fn is_terminal(&self) -> (last: bool) {
        false
    }
}

impl PullModelEvent {
    /// Merges one event into the summary.
    pub fn absorb(&mut self, event: PullModelEvent)
        ensures
            final(self)@ == old(self)@.absorb(event@),
    {
        self.status = event.status;
        self.digest = event.digest;
        if event.total.is_some() {
            self.total = event.total;
        }
        if event.completed.is_some() {
            self.completed = event.completed;
        }
    }

    /// Merges a run of events into the summary, in their order: the latest
    /// status and digest win, and a counter that a later event leaves out
    /// keeps the value that an earlier one gave it.
    pub fn extend(&mut self, events: Vec<PullModelEvent>)
        ensures
            final(self)@ == old(self)@.absorb_all(views(events@)),
    {
        let ghost all = views(events@);
        for event in iter: events
            invariant
                iter.seq().len() == all.len(),
                forall|i: int| 0 <= i < all.len() ==> (#[trigger] iter.seq()[i])@ == all[i],
                self@ == old(self)@.absorb_all(all.take(iter.index() as int)),
        {
            assert(all.take(iter.index() + 1).drop_last() == all.take(iter.index() as int));
            self.absorb(event);
        }
        assert(all.take(all.len() as int) == all);
    }
}

/// The merged summary shows the last event's status and digest.
pub proof fn law_latest_status_and_digest_win(
    summary: PullModelEventView,
    events: Seq<PullModelEventView>,
)
    requires
        events.len() > 0,
    ensures
        summary.absorb_all(events).status == events.last().status,
        summary.absorb_all(events).digest == events.last().digest,
{
}

/// The total is sticky: events that bring none leave it as it was before
/// them, however many they are.
pub proof fn law_total_is_sticky(
    summary: PullModelEventView,
    events: Seq<PullModelEventView>,
    known: int,
)
    requires
        0 <= known <= events.len(),
        forall|i: int| known <= i < events.len() ==> events[i].total is None,
    ensures
        summary.absorb_all(events).total == summary.absorb_all(events.take(known)).total,
    decreases events.len() - known,
{
    if known == events.len() {
        assert(events.take(known) == events);
    } else {
        let earlier = events.drop_last();
        law_total_is_sticky(summary, earlier, known);
        assert(earlier.take(known) == events.take(known));
    }
}

/// The count of what is completed is sticky in the same way.
pub proof fn law_completed_is_sticky(
    summary: PullModelEventView,
    events: Seq<PullModelEventView>,
    known: int,
)
    requires
        0 <= known <= events.len(),
        forall|i: int| known <= i < events.len() ==> events[i].completed is None,
    ensures
        summary.absorb_all(events).completed == summary.absorb_all(events.take(known)).completed,
    decreases events.len() - known,
{
    if known == events.len() {
        assert(events.take(known) == events);
    } else {
        let earlier = events.drop_last();
        law_completed_is_sticky(summary, earlier, known);
        assert(earlier.take(known) == events.take(known));
    }
}

/// A counter that an event brings replaces the earlier one.
pub proof fn law_a_new_count_replaces_the_old(
    summary: PullModelEventView,
    events: Seq<PullModelEventView>,
)
    requires
        events.len() > 0,
    ensures
        events.last().total is Some ==> summary.absorb_all(events).total == events.last().total,
        events.last().completed is Some ==> summary.absorb_all(events).completed
            == events.last().completed,
{
}

/// The decoder of a pull response: a stream of `PullModelEvent`s that ends
/// with the body.
pub type PullModelResponse = EventStream<PullModelEvent>;

impl<C> Ollama<C> {
    /// The call that pulls a model: a `POST` to `api/pull` that names the
    /// model, says whether an insecure source is allowed, and asks for a
    /// stream of progress lines.
    pub fn pull_model(&self, model_name: String, allow_insecure: bool) -> (call: Request)
        ensures
            call.method == Method::Post,
            call.uri@ == self.base() + "api/pull"@,
            call.body == Body::Pull(
                PullModelRequest { name: model_name, insecure: allow_insecure, stream: true },
            ),
            call.body.wants_stream(),
    {
        Request {
            method: Method::Post,
            uri: self.endpoint("api/pull"),
            body: Body::Pull(
                PullModelRequest { name: model_name, insecure: allow_insecure, stream: true },
            ),
        }
    }

    /// The call that lists the local models: a `GET` of `api/tags`, without a
    /// body.
    pub fn list_local_models(&self) -> (call: Request)
        ensures
            call.method == Method::Get,
            call.uri@ == self.base() + "api/tags"@,
            call.body == Body::Empty,
    {
        Request { method: Method::Get, uri: self.endpoint("api/tags"), body: Body::Empty }
    }

    /// The call that deletes a model: a `DELETE` of `api/delete` that names
    /// the model.
    pub fn delete_model(&self, model_name: String) -> (call: Request)
        ensures
            call.method == Method::Delete,
            call.uri@ == self.base() + "api/delete"@,
            call.body == Body::Delete(DeleteModelRequest { name: model_name }),
    {
        Request {
            method: Method::Delete,
            uri: self.endpoint("api/delete"),
            body: Body::Delete(DeleteModelRequest { name: model_name }),
        }
    }

    /// The call that asks for a model's details: a `POST` to `api/show` that
    /// names the model.
    pub fn show_model_info(&self, model_name: String) -> (call: Request)
        ensures
            call.method == Method::Post,
            call.uri@ == self.base() + "api/show"@,
            call.body == Body::Show(ModelInfoRequest { name: model_name }),
    {
        Request {
            method: Method::Post,
            uri: self.endpoint("api/show"),
            body: Body::Show(ModelInfoRequest { name: model_name }),
        }
    }

    /// The call that copies a model: a `POST` that names the source and the
    /// destination. It goes to `api/show`, the path of `show_model_info`;
    /// whether the server expects it there or on a path of its own is an
    /// open question, and the address is kept as it is until that is settled.
    pub fn copy_model(&self, source: String, destination: String) -> (call: Request)
        ensures
            call.method == Method::Post,
            call.uri@ == self.base() + "api/show"@,
            call.body == Body::Copy(CopyModelRequest { source, destination }),
    {
        Request {
            method: Method::Post,
            uri: self.endpoint("api/show"),
            body: Body::Copy(CopyModelRequest { source, destination }),
        }
    }
}

} // verus!
