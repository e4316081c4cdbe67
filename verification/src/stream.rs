//! Newline-delimited JSON streams: how the bytes of a body fall into frames,
//! and the decoder that turns the frames into a lazy sequence of events.
//!
//! Nothing here reads from a transport or parses JSON. The caller feeds the
//! bytes it has read, asks for the next step, decodes the frame it is handed
//! and reports the outcome; the decoder keeps the order, finds the end and
//! never goes on after an error.

use std::marker::PhantomData;
use vstd::prelude::*;

verus! {

/// The byte that closes a frame.
pub const NEWLINE: u8 = 10;

/// The number of bytes before the first newline of `bytes`, or the length of
/// `bytes` if it holds none.
pub open spec fn head_len(bytes: Seq<u8>) -> int
    decreases bytes.len(),
{
    if bytes.len() == 0 || bytes[0] == NEWLINE {
        0
    } else {
        1 + head_len(bytes.skip(1))
    }
}

/// The frames of `bytes` that a newline has closed, in order and without their
/// newlines.
pub open spec fn closed_frames(bytes: Seq<u8>) -> Seq<Seq<u8>>
    decreases bytes.len(),
{
    let n = head_len(bytes);
    if 0 <= n < bytes.len() {
        seq![bytes.take(n)] + closed_frames(bytes.skip(n + 1))
    } else {
        Seq::empty()
    }
}

/// What follows the last newline of `bytes`: the frame that is still open.
pub open spec fn open_frame(bytes: Seq<u8>) -> Seq<u8>
    decreases bytes.len(),
{
    let n = head_len(bytes);
    if 0 <= n < bytes.len() {
        open_frame(bytes.skip(n + 1))
    } else {
        bytes
    }
}

/// The frames of a complete body: every closed frame, then the open one if it
/// holds any byte. A blank line is a frame like any other.
pub open spec fn frames(body: Seq<u8>) -> Seq<Seq<u8>> {
    if open_frame(body).len() == 0 {
        closed_frames(body)
    } else {
        closed_frames(body).push(open_frame(body))
    }
}

/// `head_len` stops at the first newline and nowhere before it.
pub proof fn lemma_head_len(bytes: Seq<u8>)
    ensures
        0 <= head_len(bytes) <= bytes.len(),
        !bytes.take(head_len(bytes)).contains(NEWLINE),
        head_len(bytes) < bytes.len() ==> bytes[head_len(bytes)] == NEWLINE,
        head_len(bytes) == bytes.len() <==> !bytes.contains(NEWLINE),
    decreases bytes.len(),
{
    if bytes.len() == 0 || bytes[0] == NEWLINE {
        assert(bytes.take(0).len() == 0);
    } else {
        let rest = bytes.skip(1);
        lemma_head_len(rest);
        let n = head_len(rest);
        let head = bytes.take(n + 1);
        assert forall|j: int| 0 <= j < head.len() implies head[j] != NEWLINE by {
            if j > 0 {
                assert(rest.take(n)[j - 1] == bytes[j]);
                assert(rest.take(n).contains(bytes[j]));
            }
        }
        if n == rest.len() {
            assert forall|j: int| 0 <= j < bytes.len() implies bytes[j] != NEWLINE by {
                assert(head[j] == bytes[j]);
            }
        } else {
            assert(bytes[n + 1] == rest[n]);
        }
    }
}

/// A prefix without a newline that ends at a newline, or at the end, is the
/// head.
pub proof fn lemma_head_len_is(bytes: Seq<u8>, n: int)
    requires
        0 <= n <= bytes.len(),
        !bytes.take(n).contains(NEWLINE),
        n < bytes.len() ==> bytes[n] == NEWLINE,
    ensures
        head_len(bytes) == n,
{
    lemma_head_len(bytes);
    let h = head_len(bytes);
    if h < n {
        assert(bytes.take(n)[h] == NEWLINE);
    } else if n < h {
        assert(bytes.take(h)[n] == NEWLINE);
    }
}

/// A buffer that begins with a frame and its newline holds that frame first,
/// and then whatever the rest holds.
pub proof fn lemma_frames_after_first(frame: Seq<u8>, rest: Seq<u8>)
    requires
        !frame.contains(NEWLINE),
    ensures
        closed_frames(frame + seq![NEWLINE] + rest) == seq![frame] + closed_frames(rest),
        open_frame(frame + seq![NEWLINE] + rest) == open_frame(rest),
{
    let all = frame + seq![NEWLINE] + rest;
    let n = frame.len() as int;
    assert(all.take(n) == frame);
    assert(all[n] == NEWLINE);
    lemma_head_len_is(all, n);
    assert(all.skip(n + 1) == rest);
}

/// Framing does not depend on how the transport cut the bytes into chunks:
/// bytes that arrive after `first` only add to its open frame.
pub proof fn law_framing_ignores_chunks(first: Seq<u8>, second: Seq<u8>)
    ensures
        closed_frames(first + second) == closed_frames(first) + closed_frames(
            open_frame(first) + second,
        ),
        open_frame(first + second) == open_frame(open_frame(first) + second),
    decreases first.len(),
{
    lemma_head_len(first);
    let n = head_len(first);
    if n < first.len() {
        let frame = first.take(n);
        let rest = first.skip(n + 1);
        assert(first == frame + seq![NEWLINE] + rest);
        assert(first + second == frame + seq![NEWLINE] + (rest + second));
        lemma_frames_after_first(frame, rest);
        lemma_frames_after_first(frame, rest + second);
        law_framing_ignores_chunks(rest, second);
        assert(seq![frame] + (closed_frames(rest) + closed_frames(open_frame(rest) + second))
            == (seq![frame] + closed_frames(rest)) + closed_frames(open_frame(rest) + second));
    } else {
        assert(closed_frames(first) + closed_frames(first + second) == closed_frames(
            first + second,
        ));
    }
}

/// No frame holds a newline, and neither does the open frame.
pub proof fn law_frames_hold_no_newline(bytes: Seq<u8>)
    ensures
        forall|i: int|
            0 <= i < closed_frames(bytes).len() ==> !(#[trigger] closed_frames(bytes)[i]).contains(
                NEWLINE,
            ),
        !open_frame(bytes).contains(NEWLINE),
    decreases bytes.len(),
{
    lemma_head_len(bytes);
    let n = head_len(bytes);
    if n < bytes.len() {
        let rest = bytes.skip(n + 1);
        law_frames_hold_no_newline(rest);
        assert forall|i: int| 0 <= i < closed_frames(bytes).len() implies !(
        #[trigger] closed_frames(bytes)[i]).contains(NEWLINE) by {
            if i > 0 {
                assert(closed_frames(bytes)[i] == closed_frames(rest)[i - 1]);
            }
        }
    }
}

/// The bytes of a body that have arrived and belong to no frame handed out
/// yet. Frames leave it one at a time, in the order in which they arrived.
pub struct FrameBuffer {
    pending: Vec<u8>,
    searched: usize,
}

impl View for FrameBuffer {
    type V = Seq<u8>;

    closed spec fn view(&self) -> Seq<u8> {
        self.pending@
    }
}

impl FrameBuffer {
    #[verifier::type_invariant]
    spec fn inv(&self) -> bool {
        &&& self.searched <= self.pending@.len()
        &&& !self.pending@.take(self.searched as int).contains(NEWLINE)
    }

    /// An empty buffer.
    pub fn new() -> (buffer: FrameBuffer)
        ensures
            buffer@ == Seq::<u8>::empty(),
    {
        let buffer = FrameBuffer { pending: Vec::new(), searched: 0 };
        assert(buffer.pending@.take(0).len() == 0);
        buffer
    }

    /// The number of bytes held.
    pub fn len(&self) -> (n: usize)
        ensures
            n == self@.len(),
    {
        self.pending.len()
    }

    /// Adds a chunk as it came from the transport, behind what is held.
    pub fn push(&mut self, chunk: &[u8])
        ensures
            final(self)@ == old(self)@ + chunk@,
    {
        proof {
            use_type_invariant(&*self);
        }
        let mut taken = FrameBuffer::new();
        std::mem::swap(self, &mut taken);
        let FrameBuffer { mut pending, searched } = taken;
        let ghost held = pending@;
        let mut i: usize = 0;
        while i < chunk.len()
            invariant
                i <= chunk@.len(),
                pending@ == held + chunk@.take(i as int),
            decreases chunk@.len() - i,
        {
            pending.push(chunk[i]);
            assert(chunk@.take(i + 1) == chunk@.take(i as int).push(chunk@[i as int]));
            i += 1;
        }
        assert(chunk@.take(i as int) == chunk@);
        assert(pending@.take(searched as int) == held.take(searched as int));
        *self = FrameBuffer { pending, searched };
    }

    /// Takes the first frame that a newline has closed, without its newline.
    /// Where no newline is held yet, nothing changes.
    pub fn next_frame(&mut self) -> (frame: Option<Vec<u8>>)
        ensures
            match frame {
                Some(f) => {
                    &&& head_len(old(self)@) < old(self)@.len()
                    &&& f@ == old(self)@.take(head_len(old(self)@))
                    &&& final(self)@ == old(self)@.skip(head_len(old(self)@) + 1)
                },
                None => {
                    &&& head_len(old(self)@) == old(self)@.len()
                    &&& final(self)@ == old(self)@
                },
            },
    {
        proof {
            use_type_invariant(&*self);
        }
        let mut taken = FrameBuffer::new();
        std::mem::swap(self, &mut taken);
        let FrameBuffer { mut pending, searched } = taken;
        let ghost held = pending@;
        let n = pending.len();
        let mut i = searched;
        while i < n && pending[i] != NEWLINE
            invariant
                n == held.len(),
                pending@ == held,
                i <= n,
                !held.take(i as int).contains(NEWLINE),
            decreases n - i,
        {
            let ghost head = held.take(i + 1);
            assert forall|j: int| 0 <= j < head.len() implies head[j] != NEWLINE by {
                if j < i {
                    assert(held.take(i as int)[j] == held[j]);
                }
            }
            i += 1;
        }
        proof {
            lemma_head_len_is(held, i as int);
        }
        if i == n {
            *self = FrameBuffer { pending, searched: n };
            return None;
        }
        let rest = pending.split_off(i + 1);
        pending.pop();
        assert(pending@ == held.take(i as int));
        assert(rest@ == held.skip(i + 1));
        assert(rest@.take(0).len() == 0);
        *self = FrameBuffer { pending: rest, searched: 0 };
        Some(pending)
    }

    /// Takes everything that is held: at the end of a body, the frame that no
    /// newline closed.
    pub fn take_rest(&mut self) -> (rest: Vec<u8>)
        ensures
            rest@ == old(self)@,
            final(self)@ == Seq::<u8>::empty(),
    {
        let mut taken = FrameBuffer::new();
        std::mem::swap(self, &mut taken);
        taken.pending
    }
}

/// An event of a stream that can say whether it is the last one.
pub trait StreamEvent {
    /// Whether no event follows this one.
    spec fn terminal(&self) -> bool;

    /// Whether no event follows this one.
    fn is_terminal(&self) -> (last: bool)
        ensures
            last == self.terminal(),
    ;
}

/// Where a decoder stands.
#[derive(Clone, Copy, Debug, PartialEq, Eq, Structural)]
pub enum DecoderState {
    /// The next item has to come from a frame that was not decoded yet.
    AwaitingFrame,
    /// A frame was decoded and its event handed to the consumer.
    Emitting,
    /// A failure was handed to the consumer; nothing follows it.
    Errored,
    /// The stream is over.
    Done,
}

/// What the caller has to do so that the consumer gets its next item.
#[derive(Debug)]
pub enum Step {
    /// No whole frame is held: read from the transport, then `feed` the bytes
    /// or report `end_of_body`, and ask again.
    Read,
    /// Decode this frame and report the outcome with `emit`.
    Decode(Vec<u8>),
    /// The stream is over: the consumer gets no further item.
    End,
}

/// The state in which a decoder looks for the next item, once the consumer
/// has asked for one.
pub open spec fn resumed(state: DecoderState) -> DecoderState {
    match state {
        DecoderState::AwaitingFrame | DecoderState::Emitting => DecoderState::AwaitingFrame,
        DecoderState::Errored | DecoderState::Done => DecoderState::Done,
    }
}

/// The state in which the outcome of decoding a frame leaves a decoder that
/// was awaiting one.
pub open spec fn settled<T: StreamEvent, E>(outcome: Result<T, E>) -> DecoderState {
    match outcome {
        Ok(event) => if event.terminal() {
            DecoderState::Done
        } else {
            DecoderState::Emitting
        },
        Err(_) => DecoderState::Errored,
    }
}

/// The items that a consumer gets who asks until the stream is over, from a
/// decoder in `state`, when the frames still to come decode to `outcomes`, in
/// that order, and the body ends after them.
pub open spec fn delivered<T: StreamEvent, E>(
    state: DecoderState,
    outcomes: Seq<Result<T, E>>,
) -> Seq<Result<T, E>>
    decreases outcomes.len(),
{
    if resumed(state) == DecoderState::Done || outcomes.len() == 0 {
        Seq::empty()
    } else {
        seq![outcomes[0]] + delivered(settled(outcomes[0]), outcomes.skip(1))
    }
}

/// Whether the stream goes on after `outcome`: it is an event, and not a
/// terminal one.
pub open spec fn goes_on<T: StreamEvent, E>(outcome: Result<T, E>) -> bool {
    settled(outcome) == DecoderState::Emitting
}

/// The outcomes of decoding every frame of `body` with `decode`, in order.
pub open spec fn decoded<T, E>(body: Seq<u8>, decode: spec_fn(Seq<u8>) -> Result<T, E>) -> Seq<
    Result<T, E>,
> {
    frames(body).map_values(decode)
}

/// A decoder that can still deliver hands the outcomes on one by one, up to
/// and including the first one after which the stream does not go on.
pub proof fn lemma_delivered_until_stop<T: StreamEvent, E>(
    state: DecoderState,
    outcomes: Seq<Result<T, E>>,
    stop: int,
)
    requires
        resumed(state) == DecoderState::AwaitingFrame,
        0 <= stop <= outcomes.len(),
        forall|i: int| 0 <= i < stop ==> goes_on(#[trigger] outcomes[i]),
        stop < outcomes.len() ==> !goes_on(outcomes[stop]),
    ensures
        delivered(state, outcomes) == if stop < outcomes.len() {
            outcomes.take(stop + 1)
        } else {
            outcomes
        },
    decreases outcomes.len(),
{
    if outcomes.len() == 0 {
    } else {
        let rest = outcomes.skip(1);
        if stop == 0 {
            assert(delivered(settled(outcomes[0]), rest) == Seq::<Result<T, E>>::empty());
            assert(outcomes.take(1) == seq![outcomes[0]] + Seq::<Result<T, E>>::empty());
        } else {
            assert(goes_on(outcomes[0]));
            assert forall|i: int| 0 <= i < stop - 1 implies goes_on(#[trigger] rest[i]) by {
                assert(rest[i] == outcomes[i + 1]);
            }
            lemma_delivered_until_stop(DecoderState::Emitting, rest, stop - 1);
            if stop < outcomes.len() {
                assert(outcomes.take(stop + 1) == seq![outcomes[0]] + rest.take(stop));
            } else {
                assert(outcomes == seq![outcomes[0]] + rest);
            }
        }
    }
}

/// A body of well-formed frames yields every frame's event, in the order of
/// the frames, and then ends: where each frame decodes to an event, and none
/// but the last is terminal, the consumer gets exactly the decoded frames.
pub proof fn law_every_frame_is_delivered<T: StreamEvent, E>(
    body: Seq<u8>,
    decode: spec_fn(Seq<u8>) -> Result<T, E>,
)
    requires
        forall|i: int| 0 <= i < frames(body).len() ==> decode(#[trigger] frames(body)[i]) is Ok,
        forall|i: int|
            0 <= i < frames(body).len() - 1 ==> goes_on(decode(#[trigger] frames(body)[i])),
    ensures
        delivered(DecoderState::AwaitingFrame, decoded(body, decode)) == decoded(body, decode),
        delivered(DecoderState::AwaitingFrame, decoded(body, decode)).len() == frames(body).len(),
{
    let outcomes = decoded(body, decode);
    let last = outcomes.len() - 1;
    if outcomes.len() > 0 && !goes_on(outcomes[last]) {
        lemma_delivered_until_stop(DecoderState::AwaitingFrame, outcomes, last);
        assert(outcomes.take(last + 1) == outcomes);
    } else {
        lemma_delivered_until_stop(DecoderState::AwaitingFrame, outcomes, outcomes.len() as int);
    }
}

/// A malformed frame ends the stream: where the first `valid` frames decode
/// to events that are not terminal and the next one fails, the consumer gets
/// those events, then that one failure, and nothing of what follows it.
pub proof fn law_nothing_follows_a_failure<T: StreamEvent, E>(
    body: Seq<u8>,
    decode: spec_fn(Seq<u8>) -> Result<T, E>,
    valid: int,
)
    requires
        0 <= valid < frames(body).len(),
        forall|i: int| 0 <= i < valid ==> goes_on(decode(#[trigger] frames(body)[i])),
        decode(frames(body)[valid]) is Err,
    ensures
        delivered(DecoderState::AwaitingFrame, decoded(body, decode)) == decoded(
            body,
            decode,
        ).take(valid + 1),
        delivered(DecoderState::AwaitingFrame, decoded(body, decode)).len() == valid + 1,
        delivered(DecoderState::AwaitingFrame, decoded(body, decode)).last() is Err,
{
    lemma_delivered_until_stop(DecoderState::AwaitingFrame, decoded(body, decode), valid);
}

/// A terminal event ends the stream: where the frame at `last` is the first
/// to decode to a terminal event, and those before it decode to events, the
/// consumer gets the events up to that one and nothing of what follows it,
/// whatever the body still holds.
pub proof fn law_nothing_follows_a_terminal_event<T: StreamEvent, E>(
    body: Seq<u8>,
    decode: spec_fn(Seq<u8>) -> Result<T, E>,
    last: int,
)
    requires
        0 <= last < frames(body).len(),
        forall|i: int| 0 <= i < last ==> goes_on(decode(#[trigger] frames(body)[i])),
        decode(frames(body)[last]) matches Ok(event) && event.terminal(),
    ensures
        delivered(DecoderState::AwaitingFrame, decoded(body, decode)) == decoded(
            body,
            decode,
        ).take(last + 1),
        delivered(DecoderState::AwaitingFrame, decoded(body, decode)).len() == last + 1,
{
    lemma_delivered_until_stop(DecoderState::AwaitingFrame, decoded(body, decode), last);
}

/// Once a failure was delivered or the stream is over, nothing is delivered
/// any more, whatever arrives.
pub proof fn law_the_end_is_final<T: StreamEvent, E>(outcomes: Seq<Result<T, E>>)
    ensures
        delivered(DecoderState::Errored, outcomes) == Seq::<Result<T, E>>::empty(),
        delivered(DecoderState::Done, outcomes) == Seq::<Result<T, E>>::empty(),
{
}

/// The decoder of one streamed response. It holds the bytes that have arrived,
/// hands out one frame at a time, and only when the consumer asks for an item.
pub struct EventStream<T> {
    state: DecoderState,
    buffer: FrameBuffer,
    ended: bool,
    marker: PhantomData<T>,
}

impl<T: StreamEvent> EventStream<T> {
    /// Where the decoder stands.
    pub closed spec fn state(&self) -> DecoderState {
        self.state
    }

    /// The bytes that have arrived and belong to no frame handed out yet.
    pub closed spec fn pending(&self) -> Seq<u8> {
        self.buffer@
    }

    /// Whether the transport has signalled the end of the body.
    pub closed spec fn body_ended(&self) -> bool {
        self.ended
    }

    /// The decoder of a response of which nothing has been read yet.
    pub fn new() -> (stream: Self)
        ensures
            stream.state() == DecoderState::AwaitingFrame,
            stream.pending() == Seq::<u8>::empty(),
            !stream.body_ended(),
    {
        EventStream {
            state: DecoderState::AwaitingFrame,
            buffer: FrameBuffer::new(),
            ended: false,
            marker: PhantomData,
        }
    }

    /// Where the decoder stands.
    pub fn current_state(&self) -> (state: DecoderState)
        ensures
            state == self.state(),
    {
        self.state
    }

    /// Takes in a chunk that the transport has read.
    pub fn feed(&mut self, chunk: &[u8])
        ensures
            final(self).pending() == old(self).pending() + chunk@,
            final(self).state() == old(self).state(),
            final(self).body_ended() == old(self).body_ended(),
    {
        self.buffer.push(chunk);
    }

    /// Records that the transport has signalled the end of the body.
    pub fn end_of_body(&mut self)
        ensures
            final(self).body_ended(),
            final(self).pending() == old(self).pending(),
            final(self).state() == old(self).state(),
    {
        self.ended = true;
    }

    /// The consumer asks for its next item. Once a failure was delivered or
    /// the stream is over, the answer is `End` for good. Otherwise the first
    /// closed frame is handed out; at the end of the body the open frame is,
    /// if it holds any byte; and where neither is there, the caller is told to
    /// read.
    pub fn poll(&mut self) -> (step: Step)
        ensures
            final(self).body_ended() == old(self).body_ended(),
            ({
                let pending = old(self).pending();
                let n = head_len(pending);
                if resumed(old(self).state()) == DecoderState::Done {
                    &&& step is End
                    &&& final(self).state() == DecoderState::Done
                    &&& final(self).pending() == pending
                } else if n < pending.len() {
                    &&& step matches Step::Decode(frame)
                    &&& frame@ == pending.take(n)
                    &&& final(self).state() == DecoderState::AwaitingFrame
                    &&& final(self).pending() == pending.skip(n + 1)
                } else if !old(self).body_ended() {
                    &&& step is Read
                    &&& final(self).state() == DecoderState::AwaitingFrame
                    &&& final(self).pending() == pending
                } else if pending.len() > 0 {
                    &&& step matches Step::Decode(frame)
                    &&& frame@ == pending
                    &&& final(self).state() == DecoderState::AwaitingFrame
                    &&& final(self).pending() == Seq::<u8>::empty()
                } else {
                    &&& step is End
                    &&& final(self).state() == DecoderState::Done
                    &&& final(self).pending() == pending
                }
            }),
    {
        match self.state {
            DecoderState::Errored | DecoderState::Done => {
                self.state = DecoderState::Done;
                return Step::End;
            },
            _ => {},
        }
        self.state = DecoderState::AwaitingFrame;
        proof {
            lemma_head_len(self.buffer@);
        }
        match self.buffer.next_frame() {
            Some(frame) => Step::Decode(frame),
            None => {
                if !self.ended {
                    Step::Read
                } else if self.buffer.len() == 0 {
                    self.state = DecoderState::Done;
                    Step::End
                } else {
                    Step::Decode(self.buffer.take_rest())
                }
            },
        }
    }

    /// Reports the outcome of decoding the frame that `poll` handed out, or a
    /// failure of the transport. A decoder that awaits a frame passes the
    /// outcome on as the consumer's item: after an event the stream goes on,
    /// unless the event is terminal; after a failure it is over. In any other
    /// state nothing is delivered and nothing changes.
    pub fn emit<E>(&mut self, outcome: Result<T, E>) -> (item: Option<Result<T, E>>)
        ensures
            final(self).pending() == old(self).pending(),
            final(self).body_ended() == old(self).body_ended(),
            if old(self).state() == DecoderState::AwaitingFrame {
                item == Some(outcome) && final(self).state() == settled(outcome)
            } else {
                item is None && final(self).state() == old(self).state()
            },
    {
        if self.state != DecoderState::AwaitingFrame {
            return None;
        }
        self.state = match &outcome {
            Ok(event) => if event.is_terminal() {
                DecoderState::Done
            } else {
                DecoderState::Emitting
            },
            Err(_) => DecoderState::Errored,
        };
        Some(outcome)
    }
}

/// What a buffer yields first, and what the rest of it yields.
pub proof fn lemma_frames_step(pending: Seq<u8>)
    ensures
        head_len(pending) < pending.len() ==> frames(pending) == seq![
            pending.take(head_len(pending)),
        ] + frames(pending.skip(head_len(pending) + 1)),
        head_len(pending) >= pending.len() && pending.len() > 0 ==> frames(pending) == seq![
            pending,
        ],
        pending.len() == 0 ==> frames(pending) == Seq::<Seq<u8>>::empty(),
{
    lemma_head_len(pending);
    let n = head_len(pending);
    if n < pending.len() {
        let rest = pending.skip(n + 1);
        if open_frame(rest).len() > 0 {
            assert((seq![pending.take(n)] + closed_frames(rest)).push(open_frame(rest)) == seq![
                pending.take(n),
            ] + closed_frames(rest).push(open_frame(rest)));
        }
    } else if pending.len() > 0 {
        assert(Seq::<Seq<u8>>::empty().push(pending) == seq![pending]);
    }
}

/// Whether one call of `decode` on the bytes of `frame` may return `outcome`.
pub open spec fn decodes_to<T, E, F: Fn(&[u8]) -> Result<T, E>>(
    decode: F,
    frame: Seq<u8>,
    outcome: Result<T, E>,
) -> bool {
    exists|bytes: &[u8]| bytes@ == frame && decode.ensures((bytes,), outcome)
}

/// Decodes a body that has been read to its end: every frame in order, each
/// with one call of `decode`, until a frame fails, an event is terminal or
/// the frames are used up. What follows a failure or a terminal event is not
/// decoded at all.
pub fn collect<T: StreamEvent, E, F: Fn(&[u8]) -> Result<T, E>>(body: &[u8], decode: F) -> (items:
    Vec<Result<T, E>>)
    requires
        forall|frame: &[u8]| decode.requires((frame,)),
    ensures
        items@.len() <= frames(body@).len(),
        forall|i: int|
            0 <= i < items@.len() ==> decodes_to(decode, frames(body@)[i], #[trigger] items@[i]),
        forall|i: int| 0 <= i < items@.len() - 1 ==> goes_on(#[trigger] items@[i]),
        items@.len() < frames(body@).len() ==> items@.len() > 0 && !goes_on(items@.last()),
{
    let ghost all = frames(body@);
    let mut stream: EventStream<T> = EventStream::new();
    stream.feed(body);
    stream.end_of_body();
    assert(stream.pending() == body@);
    let mut items: Vec<Result<T, E>> = Vec::new();
    loop
        invariant_except_break
            frames(stream.pending()) == all.skip(items@.len() as int) || resumed(stream.state())
                == DecoderState::Done,
            items@.len() > 0 ==> stream.state() == settled(items@.last()),
            items@.len() == 0 ==> stream.state() == DecoderState::AwaitingFrame,
        invariant
            stream.body_ended(),
            forall|frame: &[u8]| decode.requires((frame,)),
            all == frames(body@),
            items@.len() <= all.len(),
            forall|i: int|
                0 <= i < items@.len() ==> decodes_to(decode, all[i], #[trigger] items@[i]),
            forall|i: int| 0 <= i < items@.len() - 1 ==> goes_on(#[trigger] items@[i]),
        ensures
            items@.len() < all.len() ==> items@.len() > 0 && !goes_on(items@.last()),
        decreases stream.pending().len(),
    {
        proof {
            lemma_frames_step(stream.pending());
            lemma_head_len(stream.pending());
        }
        let ghost before = stream.pending();
        let ghost earlier = items@;
        match stream.poll() {
            Step::Decode(frame) => {
                let slice = frame.as_slice();
                let outcome = decode(slice);
                assert(slice@ == all[earlier.len() as int]) by {
                    assert(frames(before)[0] == all.skip(earlier.len() as int)[0]);
                }
                assert(frames(stream.pending()) == all.skip(earlier.len() as int + 1)) by {
                    assert(frames(before).skip(1) == all.skip(earlier.len() as int).skip(1));
                    assert(frames(before).skip(1) == frames(stream.pending()));
                }
                if let Some(item) = stream.emit(outcome) {
                    items.push(item);
                }
                assert forall|i: int| 0 <= i < items@.len() implies decodes_to(
                    decode,
                    all[i],
                    #[trigger] items@[i],
                ) by {
                    if i < earlier.len() {
                        assert(items@[i] == earlier[i]);
                    } else {
                        assert(slice@ == all[i] && decode.ensures((slice,), items@[i]));
                    }
                }
            },
            _ => {
                break ;
            },
        }
    }
    items
}

} // verus!
