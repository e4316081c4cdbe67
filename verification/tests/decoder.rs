use ollama::stream::collect;
use ollama::{
    ChatEvent, ChatMessage, ChatResponse, DecoderState, EventStream, GenerateEvent,
    GenerateResponse, PullModelEvent, PullModelResponse, Step, StreamEvent,
};

fn text(value: &serde_json::Value, key: &str) -> Result<String, String> {
    match value.get(key).and_then(|field| field.as_str()) {
        Some(found) => Ok(found.to_string()),
        None => Err(format!("missing field `{}`", key)),
    }
}

fn decode_generate(frame: &[u8]) -> Result<GenerateEvent, String> {
    let value: serde_json::Value =
        serde_json::from_slice(frame).map_err(|error| error.to_string())?;
    let done = match value.get("done").and_then(|field| field.as_bool()) {
        Some(done) => done,
        None => return Err("missing field `done`".to_string()),
    };
    Ok(GenerateEvent {
        model: text(&value, "model")?,
        created_at: text(&value, "created_at")?,
        response: text(&value, "response")?,
        done,
    })
}

fn decode_pull(frame: &[u8]) -> Result<PullModelEvent, String> {
    let value: serde_json::Value =
        serde_json::from_slice(frame).map_err(|error| error.to_string())?;
    Ok(PullModelEvent {
        status: text(&value, "status")?,
        digest: value
            .get("digest")
            .and_then(|field| field.as_str())
            .map(|digest| digest.to_string()),
        total: value.get("total").and_then(|field| field.as_u64()),
        completed: value.get("completed").and_then(|field| field.as_u64()),
    })
}

fn line(response: &str, done: bool) -> String {
    format!(
        "{{\"model\":\"llama3\",\"created_at\":\"2024-01-01T00:00:00Z\",\"response\":\"{}\",\"done\":{}}}\n",
        response, done
    )
}

fn chat_event(content: &str, done: bool) -> ChatEvent {
    ChatEvent {
        model: "llama3".to_string(),
        created_at: "2024-01-01T00:00:00Z".to_string(),
        message: ChatMessage {
            role: "assistant".to_string(),
            content: content.to_string(),
            images: None,
            tool_calls: None,
        },
        done,
        done_reason: if done { Some("stop".to_string()) } else { None },
        total_duration: if done { Some(12) } else { None },
        load_duration: None,
        prompt_eval_count: None,
        prompt_eval_duration: None,
        eval_count: if done { Some(3) } else { None },
        eval_duration: None,
    }
}

/// Drives a decoder as a transport would: the body arrives in chunks of
/// `size` bytes, and a chunk is read only when the decoder asks for one.
/// Returns the items and the number of chunks that were read.
fn consume<T: StreamEvent>(
    body: &[u8],
    size: usize,
    decode: fn(&[u8]) -> Result<T, String>,
    limit: usize,
) -> (Vec<Result<T, String>>, usize, EventStream<T>) {
    let mut stream: EventStream<T> = EventStream::new();
    let mut chunks = body.chunks(size);
    let mut read = 0;
    let mut items = Vec::new();
    while items.len() < limit {
        match stream.poll() {
            Step::End => break,
            Step::Read => match chunks.next() {
                Some(chunk) => {
                    read += 1;
                    stream.feed(chunk);
                }
                None => stream.end_of_body(),
            },
            Step::Decode(frame) => {
                let item = stream.emit(decode(&frame));
                items.push(item.expect("a decoder that handed out a frame awaits its outcome"));
            }
        }
    }
    (items, read, stream)
}

#[test]
fn terminal_events_are_those_that_are_done() {
    assert!(chat_event("bye", true).is_terminal());
    assert!(!chat_event("hi", false).is_terminal());
    let mut event = GenerateEvent::default();
    assert!(!event.is_terminal());
    event.done = true;
    assert!(event.is_terminal());
    let mut progress = PullModelEvent::default();
    assert!(!progress.is_terminal());
    progress.status = "success".to_string();
    assert!(!progress.is_terminal());
}

#[test]
fn a_new_decoder_awaits_a_frame_and_asks_to_read() {
    let mut stream: ChatResponse = EventStream::new();
    assert_eq!(stream.current_state(), DecoderState::AwaitingFrame);
    assert!(matches!(stream.poll(), Step::Read));
    assert_eq!(stream.current_state(), DecoderState::AwaitingFrame);
}

#[test]
fn well_formed_frames_yield_their_events_in_order_then_end() {
    let body = format!("{}{}{}", line("a", false), line("b", false), line("c", false));
    for size in [1, 2, 7, 64, 4096] {
        let (items, _, mut stream) =
            consume(body.as_bytes(), size, decode_generate, usize::MAX);
        let events: Vec<GenerateEvent> = items.into_iter().map(|item| item.unwrap()).collect();
        assert_eq!(events.len(), 3);
        assert_eq!(events[0].response, "a");
        assert_eq!(events[1].response, "b");
        assert_eq!(events[2].response, "c");
        assert_eq!(stream.current_state(), DecoderState::Done);
        assert!(matches!(stream.poll(), Step::End));
    }
}

#[test]
fn a_malformed_frame_yields_one_error_and_ends_the_stream() {
    let body = format!(
        "{}{}{}{}",
        line("a", false),
        line("b", false),
        "{\"model\": oops\n",
        line("c", false)
    );
    for size in [1, 5, 4096] {
        let (items, _, mut stream) =
            consume(body.as_bytes(), size, decode_generate, usize::MAX);
        assert_eq!(items.len(), 3);
        assert_eq!(items[0].as_ref().unwrap().response, "a");
        assert_eq!(items[1].as_ref().unwrap().response, "b");
        assert!(items[2].is_err());
        assert!(matches!(stream.poll(), Step::End));
        assert_eq!(stream.current_state(), DecoderState::Done);
        assert!(matches!(stream.poll(), Step::End));
    }
}

#[test]
fn a_frame_of_the_wrong_shape_is_an_error_too() {
    let body = format!("{}{}", "{\"status\":\"success\"}\n", line("a", false));
    let (items, _, _) = consume(body.as_bytes(), 16, decode_generate, usize::MAX);
    assert_eq!(items.len(), 1);
    assert!(items[0].is_err());
}

#[test]
fn a_blank_line_is_not_skipped() {
    let body = format!("{}\n{}", line("a", false), line("b", false));
    let (items, _, _) = consume(body.as_bytes(), 16, decode_generate, usize::MAX);
    assert_eq!(items.len(), 2);
    assert_eq!(items[0].as_ref().unwrap().response, "a");
    assert!(items[1].is_err());
}

#[test]
fn nothing_follows_the_first_event_that_is_done() {
    let body = format!(
        "{}{}{}{}",
        line("a", false),
        line("", true),
        line("late", false),
        "not json\n"
    );
    let (items, _, mut stream) = consume(body.as_bytes(), 4096, decode_generate, usize::MAX);
    assert_eq!(items.len(), 2);
    assert!(!items[0].as_ref().unwrap().done);
    assert!(items[1].as_ref().unwrap().done);
    assert_eq!(stream.current_state(), DecoderState::Done);
    assert!(matches!(stream.poll(), Step::End));
    stream.feed(line("later", false).as_bytes());
    assert!(matches!(stream.poll(), Step::End));
    assert!(stream.emit::<String>(Ok(GenerateEvent::default())).is_none());
}

#[test]
fn a_pull_stream_ends_with_the_body_only() {
    let body = "{\"status\":\"pulling layers\"}\n\
                {\"status\":\"downloading\",\"digest\":\"sha:d1\",\"total\":100,\"completed\":10}\n\
                {\"status\":\"success\"}\n";
    let (items, _, stream) = consume(body.as_bytes(), 9, decode_pull, usize::MAX);
    let events: Vec<PullModelEvent> = items.into_iter().map(|item| item.unwrap()).collect();
    assert_eq!(events.len(), 3);
    assert_eq!(events[0].status, "pulling layers");
    assert_eq!(events[1].digest.as_deref(), Some("sha:d1"));
    assert_eq!(events[1].total, Some(100));
    assert_eq!(events[1].completed, Some(10));
    assert_eq!(events[2].status, "success");
    assert_eq!(stream.current_state(), DecoderState::Done);
}

#[test]
fn the_last_frame_needs_no_newline() {
    let body = format!("{}{}", line("a", false), line("b", false).trim_end());
    let (items, _, stream) = consume(body.as_bytes(), 3, decode_generate, usize::MAX);
    assert_eq!(items.len(), 2);
    assert_eq!(items[1].as_ref().unwrap().response, "b");
    assert_eq!(stream.current_state(), DecoderState::Done);
}

#[test]
fn an_empty_body_yields_nothing() {
    let (items, read, stream) = consume(b"", 8, decode_generate, usize::MAX);
    assert!(items.is_empty());
    assert_eq!(read, 0);
    assert_eq!(stream.current_state(), DecoderState::Done);
}

#[test]
fn a_consumer_that_stops_asking_makes_the_decoder_read_no_further() {
    let lines: Vec<String> = (0..10).map(|i| line(&i.to_string(), false)).collect();
    let body = lines.concat();
    let size = lines[0].len();
    let (items, read, stream) = consume(body.as_bytes(), size, decode_generate, 1);
    assert_eq!(items.len(), 1);
    assert_eq!(items[0].as_ref().unwrap().response, "0");
    // One chunk held the first frame; the other nine were never asked for.
    assert_eq!(read, 1);
    assert_eq!(stream.current_state(), DecoderState::Emitting);
}

#[test]
fn the_states_follow_the_outcomes() {
    let mut stream: GenerateResponse = EventStream::new();
    stream.feed(line("a", false).as_bytes());
    stream.feed(b"broken\n");
    stream.feed(line("b", false).as_bytes());
    let frame = match stream.poll() {
        Step::Decode(frame) => frame,
        other => panic!("unexpected step {:?}", other),
    };
    assert_eq!(stream.current_state(), DecoderState::AwaitingFrame);
    assert!(stream.emit(decode_generate(&frame)).unwrap().is_ok());
    assert_eq!(stream.current_state(), DecoderState::Emitting);
    let frame = match stream.poll() {
        Step::Decode(frame) => frame,
        other => panic!("unexpected step {:?}", other),
    };
    assert_eq!(frame, b"broken".to_vec());
    assert_eq!(stream.current_state(), DecoderState::AwaitingFrame);
    assert!(stream.emit(decode_generate(&frame)).unwrap().is_err());
    assert_eq!(stream.current_state(), DecoderState::Errored);
    assert!(matches!(stream.poll(), Step::End));
    assert_eq!(stream.current_state(), DecoderState::Done);
}

#[test]
fn an_outcome_that_nothing_awaits_is_not_delivered() {
    let mut stream: PullModelResponse = EventStream::new();
    assert!(stream
        .emit::<String>(Ok(PullModelEvent::default()))
        .is_some());
    assert_eq!(stream.current_state(), DecoderState::Emitting);
    assert!(stream
        .emit::<String>(Ok(PullModelEvent::default()))
        .is_none());
    assert_eq!(stream.current_state(), DecoderState::Emitting);
}

#[test]
fn a_failure_of_the_transport_ends_the_stream() {
    let mut stream: ChatResponse = EventStream::new();
    stream.feed(b"{\"model\":\"llama3\",");
    assert!(matches!(stream.poll(), Step::Read));
    let item = stream.emit(Err("connection reset".to_string()));
    assert_eq!(item.unwrap().unwrap_err(), "connection reset");
    assert_eq!(stream.current_state(), DecoderState::Errored);
    assert!(matches!(stream.poll(), Step::End));
}

#[test]
fn a_chat_stream_hands_its_events_on_unchanged() {
    let mut stream: ChatResponse = EventStream::new();
    let first = stream.emit::<String>(Ok(chat_event("Hel", false))).unwrap().unwrap();
    assert_eq!(first.message.content, "Hel");
    assert_eq!(first.message.role, "assistant");
    assert!(matches!(stream.poll(), Step::Read));
    let last = stream.emit::<String>(Ok(chat_event("lo", true))).unwrap().unwrap();
    assert_eq!(last.message.content, "lo");
    assert_eq!(last.done_reason.as_deref(), Some("stop"));
    assert_eq!(last.total_duration, Some(12));
    assert_eq!(last.eval_count, Some(3));
    assert_eq!(stream.current_state(), DecoderState::Done);
}

#[test]
fn collect_decodes_a_whole_body() {
    let body = format!("{}{}{}", line("a", false), line("b", false), line("c", false));
    let items = collect(body.as_bytes(), decode_generate);
    assert_eq!(items.len(), 3);
    assert_eq!(items[0].as_ref().unwrap().response, "a");
    assert_eq!(items[1].as_ref().unwrap().response, "b");
    assert_eq!(items[2].as_ref().unwrap().response, "c");
}

#[test]
fn collect_stops_at_a_failure_and_at_a_terminal_event() {
    let broken = format!("{}{}{}", line("a", false), "}{\n", line("b", false));
    let items = collect(broken.as_bytes(), decode_generate);
    assert_eq!(items.len(), 2);
    assert!(items[0].is_ok());
    assert!(items[1].is_err());

    let finished = format!("{}{}{}", line("a", true), line("b", false), "}{\n");
    let items = collect(finished.as_bytes(), decode_generate);
    assert_eq!(items.len(), 1);
    assert!(items[0].as_ref().unwrap().done);
}

#[test]
fn collect_does_not_decode_what_follows_the_end() {
    let body = format!("{}{}{}", line("a", false), line("b", true), line("c", false));
    let calls = std::cell::Cell::new(0);
    let items = collect(body.as_bytes(), |frame: &[u8]| {
        calls.set(calls.get() + 1);
        decode_generate(frame)
    });
    assert_eq!(items.len(), 2);
    assert_eq!(calls.get(), 2);
}
