//! Decoding the event stream of a chat completion.

use crate::client::json::{
    JsonTree, json_display, json_element, json_error_text, json_member, json_text, json_tree,
    parse_json, parsed_json,
};
use crate::error::{StreamError, StreamEventKind};
use crate::repl::abort::AbortSignal;
use crate::repl::handler::{HandlerState, ReplyStreamHandler, lemma_buffer_is_concatenation};
use vstd::prelude::*;
use vstd::string::*;

verus! {

/// Settings shared by all providers.
#[derive(Debug, PartialEq, Eq)]
pub struct ExtraConfig {
    pub proxy: Option<String>,
    pub connect_timeout: Option<u64>,
}

/// The settings of this provider.
#[derive(Debug, PartialEq, Eq)]
pub struct OpenAIConfig {
    pub name: Option<String>,
    pub api_key: Option<String>,
    pub organization_id: Option<String>,
    pub extra: Option<ExtraConfig>,
}

/// A model that a client offers.
#[derive(Debug, PartialEq, Eq)]
pub struct ModelInfo {
    pub client: String,
    pub name: String,
    pub max_tokens: Option<usize>,
    pub index: usize,
}

/// The client of this provider.
#[derive(Debug, PartialEq, Eq)]
pub struct OpenAIClient {
    pub config: OpenAIConfig,
    pub model_info: ModelInfo,
}

/// The models on offer, each with the most tokens that it takes.
pub open spec fn model_table() -> Seq<(Seq<char>, usize)> {
    seq![
        ("gpt-3.5-turbo"@, 4096usize),
        ("gpt-3.5-turbo-16k"@, 16384usize),
        ("gpt-4"@, 8192usize),
        ("gpt-4-32k"@, 32768usize),
    ]
}

/// The name under which a client goes: the one that its settings give, and
/// the provider's own where they give none.
pub open spec fn client_name(config: OpenAIConfig) -> Seq<char> {
    match config.name {
        Some(name) => name@,
        None => "openai"@,
    }
}

impl ModelInfo {
    /// A model of the given client.
    pub fn new(client: &str, name: &str, max_tokens: Option<usize>, index: usize) -> (info: Self)
        ensures
            info.client@ == client@,
            info.name@ == name@,
            info.max_tokens == max_tokens,
            info.index == index,
    {
        ModelInfo {
            client: String::from_str(client),
            name: String::from_str(name),
            max_tokens,
            index,
        }
    }
}

impl OpenAIClient {
    /// The name under which a client with these settings goes.
    pub fn name(local_config: &OpenAIConfig) -> (name: String)
        ensures
            name@ == client_name(*local_config),
    {
        match &local_config.name {
            Some(name) => name.clone(),
            None => String::from_str("openai"),
        }
    }

    /// The models that a client with these settings offers, in the order of
    /// the table. `index` is the client's place among the configured clients.
    pub fn list_models(local_config: &OpenAIConfig, index: usize) -> (models: Vec<ModelInfo>)
        ensures
            models@.len() == model_table().len(),
            forall|i: int|
                0 <= i < models@.len() ==> {
                    &&& (#[trigger] models@[i]).client@ == client_name(*local_config)
                    &&& models@[i].name@ == model_table()[i].0
                    &&& models@[i].max_tokens == Some(model_table()[i].1)
                    &&& models@[i].index == index
                },
    {
        let client = Self::name(local_config);
        let mut models: Vec<ModelInfo> = Vec::new();
        models.push(ModelInfo::new(client.as_str(), "gpt-3.5-turbo", Some(4096), index));
        models.push(ModelInfo::new(client.as_str(), "gpt-3.5-turbo-16k", Some(16384), index));
        models.push(ModelInfo::new(client.as_str(), "gpt-4", Some(8192), index));
        models.push(ModelInfo::new(client.as_str(), "gpt-4-32k", Some(32768), index));
        models
    }
}

/// One event of the stream, as the transport hands it over.
#[derive(Debug, PartialEq, Eq)]
pub enum SseEvent {
    /// The stream has been opened.
    Open,
    /// A message with its payload.
    Message(String),
    /// The service refused the request; this is the body of its response.
    InvalidStatus(String),
    /// The transport reports the end of the stream.
    StreamEnded,
    /// Any other failure of the transport, with its description.
    Failed(String),
}

/// Whether to go on reading the stream.
#[derive(Debug, Clone, Copy, PartialEq, Eq)]
pub enum Flow {
    Continue,
    Stop,
}

/// What an event asks for.
pub enum Decision {
    /// Nothing: go on with the next event.
    Skip,
    /// The stream is over, and it ended well.
    Stop,
    /// A fragment of the reply for the handler.
    Deliver(Seq<char>),
    /// The service reported an error, with this message.
    FailApi(Seq<char>),
    /// A payload that is no JSON document.
    FailPayload,
    /// The transport failed, with this description.
    FailTransport(Seq<char>),
}

/// The text that a payload adds to the reply, if any.
pub open spec fn delta_text(doc: JsonTree) -> Option<Seq<char>> {
    doc.member("choices"@).element(0).member("delta"@).member("content"@).text()
}

/// The whole reply, in the body of a response that is not streamed.
pub open spec fn message_text(doc: JsonTree) -> Option<Seq<char>> {
    doc.member("choices"@).element(0).member("message"@).member("content"@).text()
}

/// The error message that a response body carries, if any.
pub open spec fn error_text(doc: JsonTree) -> Option<Seq<char>> {
    doc.member("error"@).member("message"@).text()
}

/// The message of the error for a refused request: the one that the body
/// carries, and a general one where the body carries none or is no JSON.
pub open spec fn refusal_message(body: Seq<char>) -> Seq<char> {
    match parsed_json(body) {
        Some(doc) => match error_text(doc) {
            Some(message) => message,
            None => "Request failed"@,
        },
        None => "Request failed"@,
    }
}

/// What a message payload asks for. The sentinel ends the stream and is never
/// text. Any other payload has to be a JSON document; its fragment is
/// delivered when it has one that is not empty.
pub open spec fn decide_payload(payload: Seq<char>) -> Decision {
    if payload == "[DONE]"@ {
        Decision::Stop
    } else {
        match parsed_json(payload) {
            None => Decision::FailPayload,
            Some(doc) => match delta_text(doc) {
                Some(text) => if text.len() > 0 {
                    Decision::Deliver(text)
                } else {
                    Decision::Skip
                },
                None => Decision::Skip,
            },
        }
    }
}

/// What an event asks for.
pub open spec fn decide(event: SseEvent) -> Decision {
    match event {
        SseEvent::Open => Decision::Skip,
        SseEvent::Message(payload) => decide_payload(payload@),
        SseEvent::InvalidStatus(body) => Decision::FailApi(refusal_message(body@)),
        SseEvent::StreamEnded => Decision::Stop,
        SseEvent::Failed(details) => Decision::FailTransport(details@),
    }
}

/// True when `error` is the failure that `decision` stands for.
pub open spec fn is_failure(decision: Decision, error: StreamError) -> bool {
    match decision {
        Decision::FailApi(message) => error matches StreamError::Api(text) && text@ == message,
        Decision::FailPayload => error is Transport,
        Decision::FailTransport(details) => error matches StreamError::Transport(text) && text@
            == details,
        _ => false,
    }
}

/// A copy of the text, where there is one.
fn owned(text: Option<&str>) -> (copy: Option<String>)
    ensures
        match copy {
            Some(s) => text matches Some(t) && s@ == t@,
            None => text is None,
        },
{
    match text {
        Some(t) => Some(String::from_str(t)),
        None => None,
    }
}

/// The fragment in a streamed payload: the string at
/// `choices[0].delta.content`.
pub fn delta_content(doc: &serde_json::Value) -> (text: Option<String>)
    ensures
        match text {
            Some(s) => delta_text(json_tree(*doc)) == Some(s@),
            None => delta_text(json_tree(*doc)) is None,
        },
{
    let choices = json_member(doc, "choices");
    let choice = json_element(choices, 0);
    let delta = json_member(choice, "delta");
    owned(json_text(json_member(delta, "content")))
}

/// The reply in a body that is not streamed: the string at
/// `choices[0].message.content`.
pub fn message_content(doc: &serde_json::Value) -> (text: Option<String>)
    ensures
        match text {
            Some(s) => message_text(json_tree(*doc)) == Some(s@),
            None => message_text(json_tree(*doc)) is None,
        },
{
    let choices = json_member(doc, "choices");
    let choice = json_element(choices, 0);
    let message = json_member(choice, "message");
    owned(json_text(json_member(message, "content")))
}

/// The error message in a response body: the string at `error.message`.
pub fn error_message(doc: &serde_json::Value) -> (text: Option<String>)
    ensures
        match text {
            Some(s) => error_text(json_tree(*doc)) == Some(s@),
            None => error_text(json_tree(*doc)) is None,
        },
{
    owned(json_text(json_member(json_member(doc, "error"), "message")))
}

/// The error for a request that the service refused, from the body of its
/// response.
pub fn decode_refusal(body: &str) -> (error: StreamError)
    ensures
        error matches StreamError::Api(message) && message@ == refusal_message(body@),
{
    match parse_json(body) {
        Ok(doc) => match error_message(&doc) {
            Some(message) => StreamError::Api(message),
            None => StreamError::Api(String::from_str("Request failed")),
        },
        Err(_) => StreamError::Api(String::from_str("Request failed")),
    }
}

/// How the body of a response that is not streamed reads.
pub enum ReplyKind {
    /// The reply.
    Reply(Seq<char>),
    /// An error that the service reports.
    ApiError(Seq<char>),
    /// No JSON, or JSON with neither a reply nor an error.
    Invalid,
}

/// How a body reads: an error that it reports goes before a reply.
pub open spec fn reply_kind(body: Seq<char>) -> ReplyKind {
    match parsed_json(body) {
        None => ReplyKind::Invalid,
        Some(doc) => match error_text(doc) {
            Some(message) => ReplyKind::ApiError(message),
            None => match message_text(doc) {
                Some(text) => ReplyKind::Reply(text),
                None => ReplyKind::Invalid,
            },
        },
    }
}

/// Reads the body of a response that is not streamed.
pub fn decode_reply(body: &str) -> (result: Result<String, StreamError>)
    ensures
        match reply_kind(body@) {
            ReplyKind::Reply(text) => result matches Ok(reply) && reply@ == text,
            ReplyKind::ApiError(message) => result matches Err(StreamError::Api(given)) && given@
                == message,
            ReplyKind::Invalid => result matches Err(StreamError::Transport(_)),
        },
{
    match parse_json(body) {
        Err(error) => Err(StreamError::Transport(json_error_text(&error))),
        Ok(doc) => match error_message(&doc) {
            Some(message) => Err(StreamError::Api(message)),
            None => match message_content(&doc) {
                Some(reply) => Ok(reply),
                None => {
                    let mut details = String::from_str("Invalid response data: ");
                    details.append(json_display(&doc).as_str());
                    Err(StreamError::Transport(details))
                },
            },
        },
    }
}

/// True when the payload is the sentinel that ends a stream.
pub fn is_done_sentinel(payload: &str) -> (done: bool)
    ensures
        done == (payload@ == "[DONE]"@),
{
    let sentinel = String::from_str("[DONE]");
    let given = String::from_str(payload);
    given == sentinel
}

/// True when `after` and `result` are what one event makes of a handler in
/// the state `before`.
///
/// Only a fragment changes the handler: it is booked and, with a renderer,
/// handed to the channel as one `Text` event. Where the renderer is gone the
/// channel does not take it and the step fails; every other outcome is
/// decided by the event alone.
pub open spec fn is_step(
    before: HandlerState,
    event: SseEvent,
    after: HandlerState,
    result: Result<Flow, StreamError>,
) -> bool {
    match decide(event) {
        Decision::Skip => result == Ok::<Flow, StreamError>(Flow::Continue) && after == before,
        Decision::Stop => result == Ok::<Flow, StreamError>(Flow::Stop) && after == before,
        Decision::Deliver(text) => {
            ||| result == Ok::<Flow, StreamError>(Flow::Continue) && after == before.after_text(
                text,
                true,
            )
            ||| before.formatted && result == Err::<Flow, StreamError>(
                StreamError::ChannelSend(StreamEventKind::Text),
            ) && after == before.after_text(text, false)
        },
        failure => {
            &&& result matches Err(error) && is_failure(failure, error)
            &&& after == before
        },
    }
}

/// Feeds one event of the stream to the handler and says whether to go on.
pub fn on_sse_event(handler: &mut ReplyStreamHandler, event: &SseEvent) -> (result: Result<
    Flow,
    StreamError,
>)
    ensures
        is_step(old(handler)@, *event, final(handler)@, result),
{
    match event {
        SseEvent::Open => Ok(Flow::Continue),
        SseEvent::Message(payload) => {
            if is_done_sentinel(payload.as_str()) {
                return Ok(Flow::Stop);
            }
            match parse_json(payload.as_str()) {
                Err(error) => Err(StreamError::Transport(json_error_text(&error))),
                Ok(doc) => match delta_content(&doc) {
                    Some(text) => {
                        if text.as_str().unicode_len() == 0 {
                            Ok(Flow::Continue)
                        } else {
                            match handler.text(text.as_str()) {
                                Ok(()) => Ok(Flow::Continue),
                                Err(error) => Err(error),
                            }
                        }
                    },
                    None => Ok(Flow::Continue),
                },
            }
        },
        SseEvent::InvalidStatus(body) => Err(decode_refusal(body.as_str())),
        SseEvent::StreamEnded => Ok(Flow::Stop),
        SseEvent::Failed(details) => Err(StreamError::Transport(details.clone())),
    }
}

/// Feeds one event of the stream to the handler unless the request has been
/// aborted. After an abort nothing more is read: the stream ends there, and
/// it ends well, with what the handler has accumulated.
pub fn on_sse_event_unless_aborted(
    handler: &mut ReplyStreamHandler,
    event: &SseEvent,
    abort: &AbortSignal,
) -> (result: Result<Flow, StreamError>)
    ensures
        abort@.aborted() ==> result == Ok::<Flow, StreamError>(Flow::Stop) && final(handler)@
            == old(handler)@,
        !abort@.aborted() ==> is_step(old(handler)@, *event, final(handler)@, result),
{
    if abort.aborted() {
        Ok(Flow::Stop)
    } else {
        on_sse_event(handler, event)
    }
}

/// What a sequence of events, read from position `from` on, delivers and how
/// it ends: the fragments in order, and the failure that broke it off, if one
/// did. Reading ends at the first event that stops or fails; events after it
/// are not looked at.
pub open spec fn ingest_from(events: Seq<SseEvent>, from: int) -> (Seq<Seq<char>>, Option<Decision>)
    decreases events.len() - from,
{
    if from < 0 || from >= events.len() {
        (Seq::empty(), None)
    } else {
        let decision = decide(events[from]);
        match decision {
            Decision::Skip => ingest_from(events, from + 1),
            Decision::Stop => (Seq::empty(), None),
            Decision::Deliver(text) => {
                let rest = ingest_from(events, from + 1);
                (seq![text] + rest.0, rest.1)
            },
            _ => (Seq::empty(), Some(decision)),
        }
    }
}

/// Feeds a recorded stream to the handler, event by event, until the stream
/// ends or fails.
///
/// Without a renderer the outcome is decided by the events alone. With one,
/// the call can also break off at any fragment because the renderer is gone:
/// the fragments before that one were delivered, and that one is booked but
/// was not taken.
pub fn ingest_events(handler: &mut ReplyStreamHandler, events: &Vec<SseEvent>) -> (result: Result<
    (),
    StreamError,
>)
    ensures
        ({
            let (fragments, failure) = ingest_from(events@, 0);
            if result == Err::<(), StreamError>(StreamError::ChannelSend(StreamEventKind::Text)) {
                &&& old(handler)@.formatted
                &&& exists|k: int|
                    0 <= k < fragments.len() && final(handler)@ == old(handler)@.accept_all(
                        #[trigger] fragments.take(k),
                    ).after_text(fragments[k], false)
            } else {
                &&& final(handler)@ == old(handler)@.accept_all(fragments)
                &&& match failure {
                    None => result is Ok,
                    Some(decision) => result matches Err(error) && is_failure(decision, error),
                }
            }
        }),
{
    let ghost start = handler@;
    let ghost mut delivered: Seq<Seq<char>> = Seq::empty();
    let mut i: usize = 0;
    proof {
        assert(delivered + ingest_from(events@, 0).0 =~= ingest_from(events@, 0).0);
    }
    while i < events.len()
        invariant
            i <= events.len(),
            start == old(handler)@,
            handler@ == start.accept_all(delivered),
            ingest_from(events@, 0).0 == delivered + ingest_from(events@, i as int).0,
            ingest_from(events@, 0).1 == ingest_from(events@, i as int).1,
        decreases events.len() - i,
    {
        let ghost rest = ingest_from(events@, i + 1);
        match on_sse_event(handler, &events[i]) {
            Ok(Flow::Continue) => {
                proof {
                    if let Decision::Deliver(text) = decide(events@[i as int]) {
                        assert(delivered.push(text).drop_last() =~= delivered);
                        assert(delivered + (seq![text] + rest.0) =~= delivered.push(text) + rest.0);
                        delivered = delivered.push(text);
                    }
                }
            },
            Ok(Flow::Stop) => {
                proof {
                    assert(delivered + Seq::<Seq<char>>::empty() =~= delivered);
                }
                return Ok(());
            },
            Err(error) => {
                proof {
                    if let Decision::Deliver(text) = decide(events@[i as int]) {
                        let fragments = ingest_from(events@, 0).0;
                        let k = delivered.len() as int;
                        lemma_buffer_is_concatenation(start, delivered);
                        assert(fragments =~= delivered + (seq![text] + rest.0));
                        assert(fragments.take(k) =~= delivered);
                        assert(fragments[k] == text);
                        assert(handler@ == start.accept_all(fragments.take(k)).after_text(
                            fragments[k],
                            false,
                        ));
                    } else {
                        assert(delivered + Seq::<Seq<char>>::empty() =~= delivered);
                    }
                }
                return Err(error);
            },
        }
        i = i + 1;
    }
    proof {
        assert(delivered + Seq::<Seq<char>>::empty() =~= delivered);
    }
    Ok(())
}

/// What a request comes to once the handler has been told that the reply is
/// over. A request that was aborted has not failed, whatever else happened.
/// Otherwise a `Done` event that the renderer did not take fails it, and
/// where it was taken the outcome of the stream stands.
pub open spec fn settled(outcome: Result<(), StreamError>, delivered: bool, aborted: bool) -> Result<
    (),
    StreamError,
> {
    if aborted {
        Ok(())
    } else if !delivered {
        Err(StreamError::ChannelSend(StreamEventKind::Done))
    } else {
        outcome
    }
}

/// Ends a request whose stream has been read with the given outcome: tells
/// the handler that the reply is over, and settles what the request comes to.
pub fn end_stream(
    handler: &mut ReplyStreamHandler,
    outcome: Result<(), StreamError>,
    abort: &AbortSignal,
) -> (result: Result<(), StreamError>)
    ensures
        ({
            ||| final(handler)@ == old(handler)@.after_done(true) && result == settled(
                outcome,
                true,
                abort@.aborted(),
            )
            ||| old(handler)@.formatted && final(handler)@ == old(handler)@.after_done(false)
                && result == settled(outcome, false, abort@.aborted())
        }),
        abort@.aborted() ==> result is Ok,
        !old(handler)@.formatted && !abort@.aborted() ==> result == outcome,
{
    let closed = handler.done();
    if abort.aborted() {
        Ok(())
    } else {
        match closed {
            Ok(()) => outcome,
            Err(error) => Err(error),
        }
    }
}

/// The sentinel ends ingestion. It is never delivered as text, it adds
/// nothing to what the events before it give, and nothing after it is looked
/// at.
pub proof fn lemma_done_ends_ingestion(before: Seq<SseEvent>, done: SseEvent, after: Seq<SseEvent>)
    requires
        done matches SseEvent::Message(payload) && payload@ == "[DONE]"@,
    ensures
        decide(done) == Decision::Stop,
        ingest_from(before.push(done) + after, 0) == ingest_from(before.push(done), 0),
        ingest_from(before.push(done), 0) == ingest_from(before, 0),
{
    lemma_stop_cuts(before, done, after, 0);
}

/// An event that stops the stream hides every event after it, from whatever
/// position reading starts.
pub proof fn lemma_stop_cuts(before: Seq<SseEvent>, stop: SseEvent, after: Seq<SseEvent>, from: int)
    requires
        decide(stop) == Decision::Stop,
        0 <= from <= before.len(),
    ensures
        ingest_from(before.push(stop) + after, from) == ingest_from(before.push(stop), from),
        ingest_from(before.push(stop), from) == ingest_from(before, from),
    decreases before.len() - from,
{
    let cut = before.push(stop);
    let whole = cut + after;
    if from < before.len() {
        assert(whole[from] == before[from]);
        assert(cut[from] == before[from]);
        lemma_stop_cuts(before, stop, after, from + 1);
    } else {
        assert(whole[from] == stop);
        assert(cut[from] == stop);
    }
}

} // verus!
