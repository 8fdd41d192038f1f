use aichat::client::openai::{
    decode_refusal, decode_reply, delta_content, end_stream, error_message, ingest_events,
    is_done_sentinel, message_content, on_sse_event, on_sse_event_unless_aborted, Flow, SseEvent,
};
use aichat::repl::abort::AbortSignal;
use aichat::error::{StreamError, StreamEventKind};
use aichat::repl::handler::{reply_channel, ReplyStreamEvent, ReplyStreamHandler};
use crossbeam::channel::TryRecvError;

fn delta(text: &str) -> SseEvent {
    let mut payload = String::from("{\"choices\":[{\"index\":0,\"delta\":{\"content\":");
    payload.push_str(&serde_json::to_string(text).unwrap());
    payload.push_str("}}]}");
    SseEvent::Message(payload)
}

fn done() -> SseEvent {
    SseEvent::Message("[DONE]".to_string())
}

#[test]
fn done_sentinel_stops_without_text() {
    let mut handler = ReplyStreamHandler::new(None, false);
    assert_eq!(on_sse_event(&mut handler, &done()), Ok(Flow::Stop));
    assert_eq!(handler.get_buffer(), "");
    assert_eq!(handler.take_output(), "");
    assert!(is_done_sentinel("[DONE]"));
    assert!(!is_done_sentinel("[DONE] "));
    assert!(!is_done_sentinel("[done]"));
    assert!(!is_done_sentinel(""));
}

#[test]
fn done_sentinel_is_never_sent_to_the_renderer() {
    let (tx, rx) = reply_channel();
    let mut handler = ReplyStreamHandler::new(Some(tx), true);
    let events = vec![SseEvent::Open, delta("Hi"), done(), delta("ignored")];
    assert_eq!(ingest_events(&mut handler, &events), Ok(()));
    assert_eq!(handler.get_buffer(), "Hi");
    assert_eq!(rx.try_recv(), Ok(ReplyStreamEvent::Text("Hi".to_string())));
    assert_eq!(rx.try_recv(), Err(TryRecvError::Empty));
}

#[test]
fn fragments_followed_by_done_make_the_buffer() {
    let events = vec![SseEvent::Open, delta("Hello\n"), delta("World"), done()];
    let mut direct = ReplyStreamHandler::new(None, false);
    assert_eq!(ingest_events(&mut direct, &events), Ok(()));
    assert_eq!(direct.done(), Ok(()));
    assert_eq!(direct.get_buffer(), "Hello\nWorld");

    let (tx, rx) = reply_channel();
    let mut formatted = ReplyStreamHandler::new(Some(tx), false);
    assert_eq!(ingest_events(&mut formatted, &events), Ok(()));
    assert_eq!(formatted.done(), Ok(()));
    assert_eq!(formatted.get_buffer(), "Hello\nWorld");
    assert_eq!(rx.try_recv(), Ok(ReplyStreamEvent::Text("Hello\n".to_string())));
    assert_eq!(rx.try_recv(), Ok(ReplyStreamEvent::Text("World".to_string())));
    assert_eq!(rx.try_recv(), Ok(ReplyStreamEvent::Done));
}

#[test]
fn open_is_ignored_and_stream_end_stops() {
    let mut handler = ReplyStreamHandler::new(None, false);
    assert_eq!(on_sse_event(&mut handler, &SseEvent::Open), Ok(Flow::Continue));
    assert_eq!(on_sse_event(&mut handler, &SseEvent::StreamEnded), Ok(Flow::Stop));
    assert_eq!(handler.get_buffer(), "");
    let events = vec![delta("a"), SseEvent::StreamEnded, delta("b")];
    assert_eq!(ingest_events(&mut handler, &events), Ok(()));
    assert_eq!(handler.get_buffer(), "a");
}

#[test]
fn payload_without_text_is_skipped() {
    let mut handler = ReplyStreamHandler::new(None, false);
    let role = SseEvent::Message(
        "{\"choices\":[{\"index\":0,\"delta\":{\"role\":\"assistant\"}}]}".to_string(),
    );
    let finish = SseEvent::Message(
        "{\"choices\":[{\"index\":0,\"delta\":{},\"finish_reason\":\"stop\"}]}".to_string(),
    );
    let number = SseEvent::Message("{\"choices\":[{\"delta\":{\"content\":5}}]}".to_string());
    let null = SseEvent::Message("null".to_string());
    for event in [role, finish, number, null, delta("")] {
        assert_eq!(on_sse_event(&mut handler, &event), Ok(Flow::Continue));
    }
    assert_eq!(handler.get_buffer(), "");
    assert_eq!(handler.take_output(), "");
}

#[test]
fn text_payload_is_delivered() {
    let mut handler = ReplyStreamHandler::new(None, false);
    assert_eq!(on_sse_event(&mut handler, &delta("He said \"hi\"\n")), Ok(Flow::Continue));
    assert_eq!(handler.get_buffer(), "He said \"hi\"\n");
    assert_eq!(handler.take_output(), "He said \"hi\"\n");
}

#[test]
fn malformed_payload_fails_and_keeps_the_buffer() {
    let mut handler = ReplyStreamHandler::new(None, false);
    let events = vec![
        delta("Hello"),
        delta(", "),
        SseEvent::Message("{\"choices\":[".to_string()),
        delta("never"),
    ];
    let result = ingest_events(&mut handler, &events);
    assert!(matches!(result, Err(StreamError::Transport(_))));
    assert_eq!(handler.get_buffer(), "Hello, ");
}

#[test]
fn malformed_payload_reports_details() {
    let mut handler = ReplyStreamHandler::new(None, false);
    let result = on_sse_event(&mut handler, &SseEvent::Message("not json".to_string()));
    match result {
        Err(StreamError::Transport(details)) => assert!(!details.is_empty()),
        _ => panic!("a transport error was expected"),
    }
}

#[test]
fn error_body_gives_api_error() {
    let (tx, rx) = reply_channel();
    let mut handler = ReplyStreamHandler::new(Some(tx), false);
    let events =
        vec![SseEvent::InvalidStatus("{\"error\":{\"message\":\"rate limited\"}}".to_string())];
    assert_eq!(
        ingest_events(&mut handler, &events),
        Err(StreamError::Api("rate limited".to_string()))
    );
    assert_eq!(handler.get_buffer(), "");
    assert_eq!(rx.try_recv(), Err(TryRecvError::Empty));
}

#[test]
fn error_body_without_message_gives_general_error() {
    assert_eq!(
        decode_refusal("{\"error\":{\"message\":\"rate limited\"}}"),
        StreamError::Api("rate limited".to_string())
    );
    for body in ["{}", "{\"error\":{}}", "{\"error\":{\"message\":42}}", "<html>", "", "[]"] {
        assert_eq!(decode_refusal(body), StreamError::Api("Request failed".to_string()));
    }
}

#[test]
fn transport_failure_is_passed_on() {
    let mut handler = ReplyStreamHandler::new(None, false);
    let events = vec![delta("a"), SseEvent::Failed("connection reset".to_string()), delta("b")];
    assert_eq!(
        ingest_events(&mut handler, &events),
        Err(StreamError::Transport("connection reset".to_string()))
    );
    assert_eq!(handler.get_buffer(), "a");
}

#[test]
fn ingestion_stops_when_the_renderer_is_gone() {
    let (tx, rx) = reply_channel();
    drop(rx);
    let mut handler = ReplyStreamHandler::new(Some(tx), false);
    let events = vec![SseEvent::Open, delta("a"), delta("b"), done()];
    assert_eq!(
        ingest_events(&mut handler, &events),
        Err(StreamError::ChannelSend(StreamEventKind::Text))
    );
    assert_eq!(handler.get_buffer(), "a");
}

#[test]
fn empty_stream_is_fine() {
    let mut handler = ReplyStreamHandler::new(None, true);
    assert_eq!(ingest_events(&mut handler, &Vec::new()), Ok(()));
    assert_eq!(handler.get_buffer(), "");
}

#[test]
fn json_paths_are_followed() {
    let doc: serde_json::Value = serde_json::from_str(
        "{\"choices\":[{\"delta\":{\"content\":\"first\"},\"message\":{\"content\":\"whole\"}},\
         {\"delta\":{\"content\":\"second\"}}],\"error\":{\"message\":\"oops\"}}",
    )
    .unwrap();
    assert_eq!(delta_content(&doc), Some("first".to_string()));
    assert_eq!(message_content(&doc), Some("whole".to_string()));
    assert_eq!(error_message(&doc), Some("oops".to_string()));

    let other: serde_json::Value =
        serde_json::from_str("{\"choices\":{\"delta\":{\"content\":\"x\"}},\"error\":\"oops\"}")
            .unwrap();
    assert_eq!(delta_content(&other), None);
    assert_eq!(message_content(&other), None);
    assert_eq!(error_message(&other), None);

    let empty: serde_json::Value = serde_json::from_str("{\"choices\":[]}").unwrap();
    assert_eq!(delta_content(&empty), None);
}

#[test]
fn whole_reply_is_decoded() {
    assert_eq!(
        decode_reply("{\"choices\":[{\"message\":{\"role\":\"assistant\",\"content\":\"Hi!\"}}]}"),
        Ok("Hi!".to_string())
    );
    assert_eq!(
        decode_reply("{\"error\":{\"message\":\"bad key\"},\"choices\":[{\"message\":{\"content\":\"x\"}}]}"),
        Err(StreamError::Api("bad key".to_string()))
    );
    assert_eq!(
        decode_reply("{\"ok\":true}"),
        Err(StreamError::Transport("Invalid response data: {\"ok\":true}".to_string()))
    );
    assert!(matches!(decode_reply("{"), Err(StreamError::Transport(_))));
}

#[test]
fn abort_ends_the_stream_with_the_partial_buffer() {
    let mut handler = ReplyStreamHandler::new(None, false);
    let mut abort = AbortSignal::new();
    assert_eq!(
        on_sse_event_unless_aborted(&mut handler, &delta("kept"), &abort),
        Ok(Flow::Continue)
    );
    abort.set_ctrlc();
    assert_eq!(
        on_sse_event_unless_aborted(&mut handler, &delta("dropped"), &abort),
        Ok(Flow::Stop)
    );
    assert_eq!(
        on_sse_event_unless_aborted(&mut handler, &SseEvent::Message("{".to_string()), &abort),
        Ok(Flow::Stop)
    );
    assert_eq!(handler.get_buffer(), "kept");
}

#[test]
fn end_of_stream_sends_done_and_keeps_the_outcome() {
    let abort = AbortSignal::new();
    let (tx, rx) = reply_channel();
    let mut handler = ReplyStreamHandler::new(Some(tx), false);
    handler.text("Hi").unwrap();
    assert_eq!(end_stream(&mut handler, Ok(()), &abort), Ok(()));
    assert_eq!(rx.try_recv(), Ok(ReplyStreamEvent::Text("Hi".to_string())));
    assert_eq!(rx.try_recv(), Ok(ReplyStreamEvent::Done));
    assert_eq!(rx.try_recv(), Err(TryRecvError::Empty));

    let mut direct = ReplyStreamHandler::new(None, false);
    direct.text("Hi").unwrap();
    direct.take_output();
    assert_eq!(
        end_stream(&mut direct, Err(StreamError::Transport("reset".to_string())), &abort),
        Err(StreamError::Transport("reset".to_string()))
    );
    assert_eq!(direct.take_output(), "\n");
}

#[test]
fn lost_renderer_fails_the_request_unless_aborted() {
    let abort = AbortSignal::new();
    let (tx, rx) = reply_channel();
    let mut handler = ReplyStreamHandler::new(Some(tx), true);
    handler.text("partial").unwrap();
    drop(rx);
    assert_eq!(
        end_stream(&mut handler, Ok(()), &abort),
        Err(StreamError::ChannelSend(StreamEventKind::Done))
    );

    let mut aborted = AbortSignal::new();
    aborted.set_ctrlc();
    let (tx, rx) = reply_channel();
    let mut handler = ReplyStreamHandler::new(Some(tx), true);
    handler.text("partial").unwrap();
    drop(rx);
    assert_eq!(end_stream(&mut handler, Ok(()), &aborted), Ok(()));
    assert_eq!(
        end_stream(
            &mut handler,
            Err(StreamError::ChannelSend(StreamEventKind::Text)),
            &aborted
        ),
        Ok(())
    );
    assert_eq!(handler.get_buffer(), "partial");
}
