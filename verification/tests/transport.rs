use client_rust::protocol::data::{AppMessage, Event, Request, Stream};
use client_rust::protocol::json::Json;
use client_rust::transport::codec::{
    decode_message, encode_outbound, format_text_frame_for_log, frame_log_of,
    sanitize_text_frame_for_log, DecodeError, DecodeResult, FrameLog, InboundFrame, OutboundFrame,
};
use client_rust::transport::control::{
    InboundMessage, NotifyingSender, OutboundControl, PeerSource, RoutedInbound, SessionControl,
    WriteSignal, WriteSignalWake,
};
use client_rust::transport::handshake::{
    authorize_listener, build_connect_request, judge_token, verify_listener_bearer_token, with_token,
    ConnectRequestError, Unauthorized,
};
use client_rust::transport::outbox::PeerOutbox;
use client_rust::transport::queue::{SendError, SyncQueue, TryRecvError, TrySendError};
use client_rust::transport::ws_pump::{
    read_step, ReaderAction, ReaderEvent, WriterAction, WriterPhase, WsPeerHandle, WsWriter,
};
use serde_json::Value;
use tokio_tungstenite::tungstenite::http::header::AUTHORIZATION;
use tokio_tungstenite::tungstenite::http::{Request as HttpRequest, Response as HttpResponse};

fn text(s: &str) -> Json {
    Json::Str(s.to_string())
}

fn object(members: Vec<(&str, Json)>) -> Json {
    Json::Object(
        members
            .into_iter()
            .map(|(name, value)| (name.to_string(), value))
            .collect(),
    )
}

/// The value that `serde_json` has for a tree.
fn value_of(json: &Json) -> Value {
    match json {
        Json::Null => Value::Null,
        Json::Bool(b) => Value::from(*b),
        Json::Uint(n) => Value::from(*n),
        Json::Int(n) => Value::from(*n),
        Json::Float(text) => serde_json::from_str(text).unwrap(),
        Json::Str(text) => Value::from(text.clone()),
        Json::Array(values) => Value::Array(values.iter().map(value_of).collect()),
        Json::Object(members) => Value::Object(
            members
                .iter()
                .map(|(name, value)| (name.clone(), value_of(value)))
                .collect(),
        ),
    }
}

/// The tree of a value of `serde_json`.
fn tree_of(value: &Value) -> Json {
    match value {
        Value::Null => Json::Null,
        Value::Bool(b) => Json::Bool(*b),
        Value::Number(n) => match (n.as_u64(), n.as_i64()) {
            (Some(n), _) => Json::Uint(n),
            (None, Some(n)) => Json::Int(n),
            (None, None) => Json::Float(n.to_string()),
        },
        Value::String(text) => Json::Str(text.clone()),
        Value::Array(values) => Json::Array(values.iter().map(tree_of).collect()),
        Value::Object(members) => Json::Object(
            members
                .iter()
                .map(|(name, value)| (name.clone(), tree_of(value)))
                .collect(),
        ),
    }
}

/// What arrives of a tree that was written as text.
fn sent_as_text(json: &Json) -> Option<Json> {
    let text = serde_json::to_string(&value_of(json)).unwrap();
    serde_json::from_str::<Value>(&text).ok().map(|value| tree_of(&value))
}

// ---------------------------------------------------------------------------
// Frames

#[test]
fn decode_request_text_matches_old_client_behavior() {
    let message = AppMessage::Request(Request {
        id: "req-1".to_string(),
        command: "get_version".to_string(),
        payload: Some(object(vec![("k", text("v"))])),
    });

    match decode_message(InboundFrame::Text(sent_as_text(&message.to_value()))).unwrap() {
        DecodeResult::Message(InboundMessage::Request(request)) => {
            assert_eq!(request.id, "req-1");
            assert_eq!(request.command, "get_version");
            assert_eq!(request.payload, Some(object(vec![("k", text("v"))])));
        }
        other => panic!("unexpected decode result: {other:?}"),
    }
}

#[test]
fn decode_event_text_stays_supported() {
    let message = AppMessage::Event(Event {
        id: "evt-1".to_string(),
        event: "playing".to_string(),
        data: Some(text("Playing")),
    });

    match decode_message(InboundFrame::Text(sent_as_text(&message.to_value()))).unwrap() {
        DecodeResult::Message(InboundMessage::Event(event)) => {
            assert_eq!(event.id, "evt-1");
            assert_eq!(event.event, "playing");
            assert_eq!(event.data, Some(text("Playing")));
        }
        other => panic!("unexpected decode result: {other:?}"),
    }
}

#[test]
fn decode_binary_stream_matches_old_client_behavior() {
    let stream = Stream {
        id: "stream-1".to_string(),
        tag: "play".to_string(),
        bytes: vec![1, 2, 3],
        data: Some(object(vec![("seq", Json::Uint(7))])),
    };

    match decode_message(InboundFrame::Binary(sent_as_text(&stream.to_value()))).unwrap() {
        DecodeResult::Message(InboundMessage::Stream(stream)) => {
            assert_eq!(stream.id, "stream-1");
            assert_eq!(stream.tag, "play");
            assert_eq!(stream.bytes, vec![1, 2, 3]);
            assert_eq!(stream.data, Some(object(vec![("seq", Json::Uint(7))])));
        }
        other => panic!("unexpected decode result: {other:?}"),
    }
}

/// The message that a text frame holds, as far as its JSON says so.
fn message_in(text: &str) -> Option<AppMessage> {
    let value = serde_json::from_str::<Value>(text).ok()?;
    AppMessage::from_value(&tree_of(&value))
}

fn logged(text: &str) -> String {
    match format_text_frame_for_log(text, message_in(text)) {
        FrameLog::Text(line) => line,
        FrameLog::Message(json) => serde_json::to_string(&value_of(&json)).unwrap(),
    }
}

#[test]
fn format_text_frame_for_log_compacts_json_to_single_line() {
    let formatted = logged("{\"b\":1,\"a\":{\"c\":2}}");
    assert!(!formatted.contains('\n'));
    assert!(formatted.contains("\"a\""));
    assert!(formatted.contains("\"c\":2"));
}

#[test]
fn format_text_frame_for_log_falls_back_to_single_line_raw_text() {
    let text = "not-json\nline-2";
    assert_eq!(logged(text), "not-json\\nline-2");
}

#[test]
fn format_text_frame_for_log_omits_stream_bytes() {
    let message = AppMessage::Stream(Stream {
        id: "stream-1".to_string(),
        tag: "play".to_string(),
        bytes: vec![1, 2, 3],
        data: Some(object(vec![("seq", Json::Uint(7))])),
    });
    let text = serde_json::to_string(&value_of(&message.to_value())).unwrap();

    assert_eq!(logged(&text), "<stream bytes=3>");
}

#[test]
fn json_is_logged_on_one_line() {
    assert_eq!(logged("{\n \"x\": [1,\n 2] }"), "{\"x\":[1,2]}");
    assert_eq!(logged(" 1.0 "), "1.0");
    let event = "{\"Event\":{\n\"id\":\"1\",\"event\":\"e\",\"extra\":0}}";
    assert_eq!(
        format_text_frame_for_log(event, message_in(event)),
        FrameLog::Message(object(vec![(
            "Event",
            object(vec![("id", text("1")), ("event", text("e"))])
        )]))
    );
}

#[test]
fn logged_text_is_escaped() {
    assert_eq!(sanitize_text_frame_for_log("a\r\nb\\n"), "a\\r\\nb\\n");
    assert_eq!(
        frame_log_of("a\nb", None, None),
        FrameLog::Text("a\\nb".to_string())
    );
    assert_eq!(
        frame_log_of("a\nb", None, Some("c".to_string())),
        FrameLog::Text("c".to_string())
    );
}

#[test]
fn frames_without_a_message() {
    assert_eq!(decode_message(InboundFrame::Ping), Ok(DecodeResult::Ignore));
    assert_eq!(decode_message(InboundFrame::Pong), Ok(DecodeResult::Ignore));
    assert_eq!(decode_message(InboundFrame::Frame), Ok(DecodeResult::Ignore));
    assert_eq!(decode_message(InboundFrame::Close), Ok(DecodeResult::Close));
    assert_eq!(decode_message(InboundFrame::Text(None)), Err(DecodeError::Text));
    assert_eq!(
        decode_message(InboundFrame::Text(Some(Json::Null))),
        Err(DecodeError::Text)
    );
    assert_eq!(decode_message(InboundFrame::Binary(None)), Err(DecodeError::Binary));
    assert_eq!(
        decode_message(InboundFrame::Binary(Some(object(Vec::new())))),
        Err(DecodeError::Binary)
    );
    assert_eq!(DecodeError::Text.message(), "decode text app message");
    assert_eq!(DecodeError::Binary.message(), "decode binary stream");
}

#[test]
fn outgoing_messages_become_frames() {
    assert_eq!(
        encode_outbound(OutboundControl::Text("t".to_string())),
        OutboundFrame::Text("t".to_string())
    );
    assert_eq!(
        encode_outbound(OutboundControl::Binary(vec![1])),
        OutboundFrame::Binary(vec![1])
    );
    assert_eq!(encode_outbound(OutboundControl::Close), OutboundFrame::Close);
}

// ---------------------------------------------------------------------------
// The handshake

#[test]
fn build_connect_request_includes_bearer_token_when_present() {
    let request = build_connect_request("ws://127.0.0.1:9000", Some("secret-token")).unwrap();

    assert_eq!(
        request.headers().get(AUTHORIZATION).unwrap(),
        "Bearer secret-token"
    );
}

#[test]
fn build_connect_request_keeps_old_behavior_without_token() {
    let request = build_connect_request("ws://127.0.0.1:9000", None).unwrap();

    assert!(request.headers().get(AUTHORIZATION).is_none());
}

#[test]
fn verify_listener_bearer_token_accepts_matching_token() {
    let request = HttpRequest::builder()
        .header(AUTHORIZATION, "Bearer 123456")
        .body(())
        .unwrap();
    let response = HttpResponse::builder().status(101).body(()).unwrap();

    assert!(verify_listener_bearer_token(&request, response, "123456").is_ok());
}

#[test]
fn verify_listener_bearer_token_rejects_missing_or_mismatched_token() {
    let request = HttpRequest::builder().body(()).unwrap();
    let response = HttpResponse::builder().status(101).body(()).unwrap();

    let error = verify_listener_bearer_token(&request, response, "123456").unwrap_err();
    assert_eq!(error.status, 401);
    assert_eq!(error.body, "Unauthorized");

    for value in ["Bearer 12345", "bearer 123456", "123456", "Bearer 123456 "] {
        let request = HttpRequest::builder()
            .header(AUTHORIZATION, value)
            .body(())
            .unwrap();
        assert!(verify_listener_bearer_token(&request, (), "123456").is_err());
    }
}

#[test]
fn connect_request_has_the_fields_of_a_handshake() {
    let request = build_connect_request("ws://127.0.0.1:9000/path", Some("t")).unwrap();
    let headers = request.headers();
    assert_eq!(request.uri().to_string(), "ws://127.0.0.1:9000/path");
    assert_eq!(headers.len(), 6);
    assert_eq!(headers.get("connection").unwrap(), "Upgrade");
    assert_eq!(headers.get("upgrade").unwrap(), "websocket");
    assert_eq!(headers.get("sec-websocket-version").unwrap(), "13");
    assert_eq!(headers.get("host").unwrap(), "127.0.0.1:9000");
    assert!(headers.get("sec-websocket-key").is_some());
    // An empty token counts as none.
    let request = build_connect_request("ws://127.0.0.1:9000", Some("")).unwrap();
    assert_eq!(request.headers().len(), 5);
}

#[test]
fn connect_request_may_be_impossible() {
    assert_eq!(
        build_connect_request("not a url", None).err(),
        Some(ConnectRequestError::Url)
    );
    assert_eq!(
        build_connect_request("/no/host", Some("\n")).err(),
        Some(ConnectRequestError::Url)
    );
    for token in ["a\nb", "\u{0}", "\u{7f}"] {
        assert_eq!(
            build_connect_request("ws://127.0.0.1:9000", Some(token)).err(),
            Some(ConnectRequestError::Token)
        );
    }
    assert!(build_connect_request("ws://127.0.0.1:9000", Some("a\tb")).is_ok());
}

#[test]
fn shared_token_is_let_through() {
    for token in ["secret-token", "with blank", "~!@#", "with\ttab"] {
        let request = build_connect_request("ws://127.0.0.1:9000", Some(token)).unwrap();
        assert_eq!(verify_listener_bearer_token(&request, 5, token), Ok(5));
        assert_eq!(
            verify_listener_bearer_token(&request, 5, "other"),
            Err(Unauthorized {
                status: 401,
                body: "Unauthorized".to_string(),
            })
        );
    }
    // A token beyond ASCII can be sent, but is not read back.
    let request = build_connect_request("ws://127.0.0.1:9000", Some("\u{e9}")).unwrap();
    assert!(verify_listener_bearer_token(&request, (), "\u{e9}").is_err());
}

// ---------------------------------------------------------------------------
// Queues and signals

#[test]
fn queue_is_bounded_and_ordered() {
    let mut queue: SyncQueue<u32> = SyncQueue::new(2);
    assert_eq!(queue.try_recv(), Err(TryRecvError::Empty));
    assert_eq!(queue.try_send(1), Ok(()));
    assert_eq!(queue.try_send(2), Ok(()));
    assert_eq!(queue.try_send(3), Err(TrySendError::Full(3)));
    assert_eq!(queue.len(), 2);
    assert_eq!(queue.try_recv(), Ok(1));
    queue.drop_sender();
    assert_eq!(queue.try_recv(), Ok(2));
    assert_eq!(queue.try_recv(), Err(TryRecvError::Disconnected));
}

#[test]
fn queue_without_reader_refuses_everything() {
    let mut queue: SyncQueue<u32> = SyncQueue::new(1);
    assert_eq!(queue.try_send(1), Ok(()));
    queue.drop_receiver();
    assert_eq!(queue.len(), 0);
    assert_eq!(queue.try_send(2), Err(TrySendError::Disconnected(2)));
}

#[test]
fn signal_wakes_once_for_all_notifications() {
    let mut signal = WriteSignal::new();
    assert_eq!(signal.wait(), None);
    signal.notify();
    signal.notify();
    assert_eq!(signal.wait(), Some(WriteSignalWake::Notified));
    assert_eq!(signal.wait(), None);
    signal.notify();
    signal.close();
    assert!(signal.is_closed());
    assert_eq!(signal.wait(), Some(WriteSignalWake::Closed));
    signal.notify();
    assert_eq!(signal.wait(), Some(WriteSignalWake::Closed));
}

#[test]
fn only_what_was_queued_is_announced() {
    let mut signal = WriteSignal::new();
    let mut sender: NotifyingSender<u32> = NotifyingSender::new(SyncQueue::new(1));
    assert_eq!(sender.try_send(1, &mut signal), Ok(()));
    assert_eq!(signal.wait(), Some(WriteSignalWake::Notified));
    assert_eq!(sender.try_send(2, &mut signal), Err(TrySendError::Full(2)));
    assert_eq!(sender.send(2, &mut signal), Err(SendError::Waits(2)));
    assert_eq!(signal.wait(), None);
    sender.release(&mut signal);
    assert_eq!(signal.wait(), Some(WriteSignalWake::Notified));
    sender.sender.drop_receiver();
    assert_eq!(sender.send(3, &mut signal), Err(SendError::Disconnected(3)));
    assert_eq!(signal.wait(), None);
}

#[test]
fn sources_of_peers() {
    let outbound = PeerSource::OutboundConnect {
        url: "ws://x".to_string(),
    };
    assert!(outbound.is_outbound());
    assert!(!PeerSource::Listener.is_outbound());
    assert_eq!(outbound.clone(), outbound);
}

// ---------------------------------------------------------------------------
// The writer

fn text_control(s: &str) -> OutboundControl {
    OutboundControl::Text(s.to_string())
}

/// Runs a writer until it waits or ends, and tells what it did.
fn run(writer: &mut WsWriter, outbox: &mut PeerOutbox) -> Vec<WriterAction> {
    let mut actions = Vec::new();
    loop {
        let action = writer.step(outbox);
        let last = matches!(action, WriterAction::Wait | WriterAction::Finish { .. });
        if matches!(action, WriterAction::Send(_)) {
            writer.sent(true);
        }
        if action != WriterAction::Continue {
            actions.push(action);
        }
        if last {
            return actions;
        }
    }
}

fn send(s: &str) -> WriterAction {
    WriterAction::Send(OutboundFrame::Text(s.to_string()))
}

#[test]
fn writer_sends_control_before_audio() {
    let mut outbox = PeerOutbox::new(8, 8);
    let mut writer = WsWriter::new();
    assert_eq!(run(&mut writer, &mut outbox), vec![WriterAction::Wait]);
    outbox.try_send(vec![1]).unwrap();
    outbox.try_send(vec![2]).unwrap();
    outbox.send_control(text_control("a")).unwrap();
    outbox.try_send_control(text_control("b")).unwrap();
    assert_eq!(
        run(&mut writer, &mut outbox),
        vec![
            send("a"),
            send("b"),
            WriterAction::Send(OutboundFrame::Binary(vec![1])),
            WriterAction::Send(OutboundFrame::Binary(vec![2])),
            WriterAction::Wait,
        ]
    );
}

#[test]
fn writer_clears_audio_and_reports_it() {
    let mut outbox = PeerOutbox::new(8, 8);
    let mut writer = WsWriter::new();
    for frame in 0..3u8 {
        outbox.try_send(vec![frame]).unwrap();
    }
    outbox.send_control(OutboundControl::ClearAudioQueue(9)).unwrap();
    outbox.send_control(text_control("after")).unwrap();
    assert_eq!(
        run(&mut writer, &mut outbox),
        vec![
            WriterAction::Cleared { ack: 9, cleared: 3 },
            send("after"),
            WriterAction::Wait,
        ]
    );
}

#[test]
fn writer_ends_with_a_close_frame() {
    let mut outbox = PeerOutbox::new(8, 8);
    let mut writer = WsWriter::new();
    outbox.send_control(text_control("a")).unwrap();
    outbox.send_control(OutboundControl::Close).unwrap();
    outbox.send_control(text_control("never")).unwrap();
    assert_eq!(
        run(&mut writer, &mut outbox),
        vec![
            send("a"),
            WriterAction::Send(OutboundFrame::Close),
            WriterAction::Finish { close_socket: false },
        ]
    );
    assert!(writer.close_frame_sent);
}

#[test]
fn writer_ends_when_it_is_told_to() {
    let mut outbox = PeerOutbox::new(8, 8);
    let mut writer = WsWriter::new();
    outbox.send_control(text_control("never")).unwrap();
    outbox.write_signal.close();
    assert_eq!(
        run(&mut writer, &mut outbox),
        vec![WriterAction::Finish { close_socket: false }]
    );
    assert!(writer.force_closed);
    // It also stops in the middle of a queue.
    let mut outbox = PeerOutbox::new(8, 8);
    let mut writer = WsWriter::new();
    outbox.send_control(text_control("a")).unwrap();
    outbox.send_control(text_control("never")).unwrap();
    assert_eq!(writer.step(&mut outbox), WriterAction::Continue);
    assert_eq!(writer.step(&mut outbox), send("a"));
    outbox.write_signal.close();
    writer.sent(true);
    assert_eq!(
        writer.step(&mut outbox),
        WriterAction::Finish { close_socket: false }
    );
}

#[test]
fn writer_ends_with_its_queues() {
    let mut outbox = PeerOutbox::new(8, 8);
    let mut writer = WsWriter::new();
    outbox.send_control(text_control("last")).unwrap();
    outbox.try_send(vec![1]).unwrap();
    outbox.release();
    assert_eq!(
        run(&mut writer, &mut outbox),
        vec![
            send("last"),
            WriterAction::Send(OutboundFrame::Binary(vec![1])),
            WriterAction::Finish { close_socket: true },
        ]
    );
}

#[test]
fn writer_ends_when_a_frame_cannot_be_written() {
    let mut outbox = PeerOutbox::new(8, 8);
    let mut writer = WsWriter::new();
    outbox.try_send(vec![1]).unwrap();
    while !matches!(writer.step(&mut outbox), WriterAction::Send(_)) {}
    writer.sent(false);
    assert_eq!(writer.phase, WriterPhase::Finished);
    outbox.drop_receivers();
    assert_eq!(
        outbox.send_control(text_control("x")),
        Err(SendError::Disconnected(text_control("x")))
    );
    assert_eq!(outbox.try_send(vec![1]), Err(TrySendError::Disconnected(vec![1])));
}

#[test]
fn outbox_is_bounded() {
    let mut outbox = PeerOutbox::new(1, 1);
    outbox.send_control(text_control("a")).unwrap();
    assert_eq!(
        outbox.send_control(text_control("b")),
        Err(SendError::Waits(text_control("b")))
    );
    assert_eq!(
        outbox.try_send_control(text_control("b")),
        Err(TrySendError::Full(text_control("b")))
    );
    outbox.try_send(vec![1]).unwrap();
    assert_eq!(outbox.try_send(vec![2]), Err(TrySendError::Full(vec![2])));
}

// ---------------------------------------------------------------------------
// The reader and the handle

#[test]
fn reader_forwards_messages_with_their_peer() {
    let event = || Event {
        id: "1".to_string(),
        event: "e".to_string(),
        data: None,
    };
    let frame = InboundFrame::Text(Some(AppMessage::Event(event()).to_value()));
    assert_eq!(
        read_step(5, ReaderEvent::Frame(frame)),
        ReaderAction::Forward(SessionControl::Inbound(RoutedInbound {
            peer_id: 5,
            message: InboundMessage::Event(event()),
        }))
    );
}

#[test]
fn reader_ends_for_a_reason() {
    assert_eq!(
        read_step(5, ReaderEvent::Frame(InboundFrame::Ping)),
        ReaderAction::Ignore
    );
    assert_eq!(
        read_step(5, ReaderEvent::Frame(InboundFrame::Close)),
        ReaderAction::Exit
    );
    assert_eq!(
        read_step(5, ReaderEvent::Frame(InboundFrame::Text(None))),
        ReaderAction::Undecodable(DecodeError::Text)
    );
    assert_eq!(read_step(5, ReaderEvent::Failed), ReaderAction::Broken);
    assert_eq!(read_step(5, ReaderEvent::Ended), ReaderAction::Exit);
}

#[test]
fn handle_closes_once() {
    let mut handle = WsPeerHandle::new();
    let mut signal = WriteSignal::new();
    assert!(!handle.close(&mut signal));
    assert!(!signal.is_closed());
    assert!(handle.install_close_state());
    assert!(!handle.install_close_state());
    assert!(handle.close(&mut signal));
    assert!(signal.is_closed());
    assert!(!handle.close(&mut signal));
}

#[test]
fn other_json_is_logged_on_one_line() {
    assert_eq!(logged("{ \"b\" : 1,\n \"a\" : [ 2 ] }"), "{\"a\":[2],\"b\":1}");
}

#[test]
fn woken_writer_sends_everything_in_order() {
    let mut outbox = PeerOutbox::new(8, 8);
    outbox.try_send(vec![1]).unwrap();
    outbox.send_control(OutboundControl::Text("a".to_string())).unwrap();
    outbox.try_send(vec![2]).unwrap();
    outbox.send_control(OutboundControl::Text("b".to_string())).unwrap();
    let mut writer = WsWriter::new();
    let mut sent = vec![];
    loop {
        match writer.step(&mut outbox) {
            WriterAction::Send(frame) => {
                sent.push(frame);
                writer.sent(true);
            }
            WriterAction::Continue => {}
            WriterAction::Wait => break,
            other => panic!("unexpected action: {other:?}"),
        }
    }
    assert_eq!(
        sent,
        vec![
            OutboundFrame::Text("a".to_string()),
            OutboundFrame::Text("b".to_string()),
            OutboundFrame::Binary(vec![1]),
            OutboundFrame::Binary(vec![2]),
        ]
    );
}

#[test]
fn woken_writer_stops_at_a_close_and_skips_cleared_audio() {
    let mut outbox = PeerOutbox::new(8, 8);
    let mut writer = WsWriter::new();
    outbox.try_send(vec![1]).unwrap();
    outbox.send_control(text_control("a")).unwrap();
    outbox.send_control(OutboundControl::ClearAudioQueue(4)).unwrap();
    outbox.send_control(OutboundControl::Close).unwrap();
    outbox.send_control(text_control("never")).unwrap();
    assert_eq!(
        run(&mut writer, &mut outbox),
        vec![
            send("a"),
            WriterAction::Cleared { ack: 4, cleared: 1 },
            WriterAction::Send(OutboundFrame::Close),
            WriterAction::Finish { close_socket: false },
        ]
    );
}

#[test]
fn listener_without_a_token_lets_everyone_in() {
    let bare = HttpRequest::builder().body(()).unwrap();
    assert_eq!(authorize_listener(&bare, 5, None), Ok(5));
    assert_eq!(authorize_listener(&bare, 5, Some("")), Ok(5));
    let refused = Unauthorized { status: 401, body: "Unauthorized".to_string() };
    assert_eq!(authorize_listener(&bare, 5, Some("t")), Err(refused));
    let request = HttpRequest::builder()
        .header(AUTHORIZATION, "Bearer t")
        .body(())
        .unwrap();
    assert_eq!(authorize_listener(&request, 5, Some("t")), Ok(5));
    assert!(authorize_listener(&request, 5, Some("u")).is_err());
}

#[test]
fn token_is_judged_by_its_header() {
    assert_eq!(judge_token(Some("Bearer t".to_string()), "t"), Ok(()));
    let refused = || Unauthorized { status: 401, body: "Unauthorized".to_string() };
    assert_eq!(judge_token(Some("Bearer t".to_string()), "u"), Err(refused()));
    assert_eq!(judge_token(Some("t".to_string()), "t"), Err(refused()));
    assert_eq!(judge_token(None, "t"), Err(refused()));
}

#[test]
fn token_is_added_to_a_request() {
    let request = || HttpRequest::builder().header("host", "h").body(()).unwrap();
    let made = with_token(request(), Some("t")).unwrap();
    assert_eq!(made.headers().get(AUTHORIZATION).unwrap(), "Bearer t");
    assert_eq!(made.headers().get("host").unwrap(), "h");
    let made = with_token(request(), Some("")).unwrap();
    assert_eq!(made.headers().len(), 1);
    let made = with_token(request(), None).unwrap();
    assert_eq!(made.headers().len(), 1);
    assert_eq!(
        with_token(request(), Some("a\nb")).err(),
        Some(ConnectRequestError::Token)
    );
}

#[test]
fn writer_that_saw_the_end_of_a_queue_still_empties_the_other() {
    let mut outbox = PeerOutbox::new(8, 8);
    let mut writer = WsWriter::new();
    outbox.control_sender.release(&mut outbox.write_signal);
    assert_eq!(run(&mut writer, &mut outbox), vec![WriterAction::Wait]);
    assert!(writer.control_queue_closed && !writer.audio_queue_closed);
    outbox.try_send(vec![1]).unwrap();
    outbox.try_send(vec![2]).unwrap();
    assert_eq!(
        run(&mut writer, &mut outbox),
        vec![
            WriterAction::Send(OutboundFrame::Binary(vec![1])),
            WriterAction::Send(OutboundFrame::Binary(vec![2])),
            WriterAction::Wait,
        ]
    );
}
