use client_rust::app::ws_peer_hub::SendControlError;
use client_rust::audio::player::Enqueued;
use client_rust::protocol::data::{has_field, AppMessage, Event, Request, Response, Stream};
use client_rust::protocol::json::Json;
use client_rust::protocol::registry::{CommandContext, CommandRegistry};
use client_rust::protocol::router::{
    after_dispatch, after_play, announce, finish_request, route, RouteAction, RouterStep,
};
use client_rust::protocol::settled::settle;
use client_rust::transport::control::{
    InboundMessage, OutboundControl, OutboundTarget, RoutedInbound, RoutedOutbound, SessionControl,
};
use serde_json::Value;

fn text(s: &str) -> Json {
    Json::Str(s.to_string())
}

fn object(members: Vec<(&str, Json)>) -> Json {
    Json::Object(
        members
            .into_iter()
            .map(|(name, value)| (name.to_string(), value))
            .collect(),
    )
}

/// The value that `serde_json` has for a tree.
fn value_of(json: &Json) -> Value {
    match json {
        Json::Null => Value::Null,
        Json::Bool(b) => Value::from(*b),
        Json::Uint(n) => Value::from(*n),
        Json::Int(n) => Value::from(*n),
        Json::Float(text) => serde_json::from_str(text).unwrap(),
        Json::Str(text) => Value::from(text.clone()),
        Json::Array(values) => Value::Array(values.iter().map(value_of).collect()),
        Json::Object(members) => Value::Object(
            members
                .iter()
                .map(|(name, value)| (name.clone(), value_of(value)))
                .collect(),
        ),
    }
}

fn parsed(text: &str) -> Value {
    serde_json::from_str(text).unwrap()
}

#[test]
fn event_text_format_matches_open_xiaoai() {
    let value = AppMessage::Event(Event {
        id: "event-1".to_string(),
        event: "kws".to_string(),
        data: Some(object(vec![("Keyword", text("小爱同学"))])),
    })
    .to_value();

    assert_eq!(
        value_of(&value),
        parsed(
            r#"{
                "Event": {
                    "id": "event-1",
                    "event": "kws",
                    "data": {"Keyword":"小爱同学"}
                }
            }"#
        )
    );
}

#[test]
fn response_success_format_matches_open_xiaoai() {
    let value = AppMessage::Response(Response::success()).to_value();

    assert_eq!(
        value_of(&value),
        parsed(
            r#"{
                "Response": {
                    "id": "0",
                    "code": 0,
                    "msg": "success"
                }
            }"#
        )
    );
}

#[test]
fn binary_stream_payload_shape_matches_open_xiaoai() {
    let stream = Stream {
        id: "stream-1".to_string(),
        tag: "record".to_string(),
        bytes: vec![1, 2, 3, 4],
        data: None,
    };
    let bytes = serde_json::to_vec(&value_of(&stream.to_value())).unwrap();

    let value = serde_json::from_slice::<Value>(&bytes).unwrap();

    assert_eq!(
        value,
        parsed(
            r#"{
                "id": "stream-1",
                "tag": "record",
                "bytes": [1, 2, 3, 4]
            }"#
        )
    );
}

#[test]
fn responses_of_every_kind() {
    assert_eq!(
        Response::success_msg("done").to_value(),
        object(vec![
            ("id", text("0")),
            ("code", Json::Uint(0)),
            ("msg", text("done")),
        ])
    );
    assert_eq!(
        Response::from_data(Json::Bool(true)).to_value(),
        object(vec![("id", text("0")), ("data", Json::Bool(true))])
    );
    assert_eq!(
        Response::from_error("req", "broken").to_value(),
        object(vec![
            ("id", text("req")),
            ("code", Json::Int(-1)),
            ("msg", text("broken")),
        ])
    );
}

fn is_uuid_v4(id: &str) -> bool {
    let bytes = id.as_bytes();
    id.len() == 36
        && (0..36).all(|i| match i {
            8 | 13 | 18 | 23 => bytes[i] == b'-',
            _ => matches!(bytes[i], b'0'..=b'9' | b'a'..=b'f'),
        })
        && bytes[14] == b'4'
        && matches!(bytes[19], b'8' | b'9' | b'a' | b'b')
}

#[test]
fn new_messages_get_ids_of_their_own() {
    let event = Event::new("kws", None);
    let other = Event::new("kws", None);
    assert!(is_uuid_v4(&event.id) && is_uuid_v4(&other.id));
    assert_ne!(event.id, other.id);
    let stream = Stream::new("record", vec![7], Some(Json::Null));
    assert!(is_uuid_v4(&stream.id));
    assert_eq!((stream.tag.as_str(), stream.bytes), ("record", vec![7]));
}

#[test]
fn written_messages_read_back() {
    let messages = vec![
        AppMessage::Request(Request {
            id: "1".to_string(),
            command: "start_play".to_string(),
            payload: Some(Json::Array(vec![Json::Int(-5), Json::Float("1.5".to_string())])),
        }),
        AppMessage::Request(Request {
            id: "1".to_string(),
            command: "stop_play".to_string(),
            payload: None,
        }),
        AppMessage::Response(Response::from_error("2", "no")),
        AppMessage::Response(Response {
            id: String::new(),
            code: None,
            msg: None,
            data: None,
        }),
        AppMessage::Event(Event {
            id: "3".to_string(),
            event: "kws".to_string(),
            data: Some(text("Started")),
        }),
        AppMessage::Stream(Stream {
            id: "4".to_string(),
            tag: "play".to_string(),
            bytes: vec![0, 255],
            data: Some(object(vec![("seq", Json::Uint(7))])),
        }),
    ];
    for message in messages {
        assert_eq!(AppMessage::from_value(&message.to_value()), Some(message));
    }
}

#[test]
fn explicit_null_reads_back_as_left_out() {
    let event = Event {
        id: "1".to_string(),
        event: "e".to_string(),
        data: Some(Json::Null),
    };
    let read = Event::from_value(&event.to_value()).unwrap();
    assert_eq!(read.data, None);
}

#[test]
fn messages_have_exactly_one_kind() {
    let event = || object(vec![("id", text("1")), ("event", text("e"))]);
    assert!(AppMessage::from_value(&object(vec![("Event", event())])).is_some());
    assert_eq!(AppMessage::from_value(&object(vec![("event", event())])), None);
    assert_eq!(
        AppMessage::from_value(&object(vec![("Event", event()), ("Event", event())])),
        None
    );
    assert_eq!(AppMessage::from_value(&object(Vec::new())), None);
    assert_eq!(AppMessage::from_value(&text("Event")), None);
    assert_eq!(AppMessage::from_value(&Json::Null), None);
}

#[test]
fn fields_are_checked() {
    let request = |members: Vec<(&str, Json)>| Request::from_value(&object(members));
    assert!(request(vec![("id", text("1")), ("command", text("c"))]).is_some());
    assert!(request(vec![
        ("extra", Json::Null),
        ("payload", Json::Null),
        ("command", text("c")),
        ("id", text("1")),
    ])
    .is_some());
    assert_eq!(request(vec![("id", text("1"))]), None);
    assert_eq!(request(vec![("id", Json::Uint(1)), ("command", text("c"))]), None);
    assert_eq!(
        request(vec![("id", text("1")), ("id", text("2")), ("command", text("c"))]),
        None
    );
    let list = Json::Array(vec![text("1"), text("c"), Json::Null]);
    assert_eq!(Request::from_value(&list).unwrap().command, "c");
    assert_eq!(Request::from_value(&Json::Array(vec![text("1"), text("c")])), None);
}

#[test]
fn codes_fit_into_32_bits() {
    let response = |code: Json| Response::from_value(&object(vec![("id", text("1")), ("code", code)]));
    assert_eq!(response(Json::Uint(2147483647)).unwrap().code, Some(i32::MAX));
    assert_eq!(response(Json::Uint(2147483648)), None);
    assert_eq!(response(Json::Int(-2147483648)).unwrap().code, Some(i32::MIN));
    assert_eq!(response(Json::Int(-2147483649)), None);
    assert_eq!(response(Json::Null).unwrap().code, None);
    assert_eq!(response(text("0")), None);
}

#[test]
fn bytes_fit_into_8_bits() {
    let stream = |byte: Json| {
        Stream::from_value(&object(vec![
            ("id", text("1")),
            ("tag", text("t")),
            ("bytes", Json::Array(vec![byte])),
        ]))
    };
    assert_eq!(stream(Json::Uint(255)).unwrap().bytes, vec![255]);
    assert_eq!(stream(Json::Uint(256)), None);
    assert_eq!(stream(Json::Int(-1)), None);
    assert_eq!(stream(Json::Null), None);
}

#[test]
fn trees_can_be_searched_and_copied() {
    let tree = object(vec![
        ("a", Json::Uint(1)),
        ("b", Json::Array(vec![object(vec![("c", Json::Null)])])),
        ("a", Json::Uint(2)),
    ]);
    assert_eq!(tree.field("a", 0), Some(&Json::Uint(2)));
    assert_eq!(tree.field("z", 0), None);
    assert!(!tree.names_once("a") && tree.names_once("b") && tree.names_once("z"));
    assert_eq!(tree.uint_field("a", 0, 2), Some(2));
    assert_eq!(tree.uint_field("a", 0, 1), None);
    assert_eq!(tree.text_field("a", 0), None);
    assert_eq!(tree.clone(), tree);
    assert!(tree.is_record(9, 9));
    assert!(!Json::Array(Vec::new()).is_record(1, 2));
    assert!(!Json::Null.is_record(0, 9));
}

#[test]
fn payload_is_kept_by_name() {
    let inner = || object(vec![("z", Json::Uint(1)), ("a", Json::Null), ("z", Json::Uint(2))]);
    let kept = || object(vec![("a", Json::Null), ("z", Json::Uint(2))]);
    let payload = object(vec![
        ("b", Json::Array(vec![inner()])),
        ("a", text("first")),
        ("ab", inner()),
        ("", Json::Uint(0)),
        ("a", text("last")),
    ]);
    let expected = || {
        object(vec![
            ("", Json::Uint(0)),
            ("a", text("last")),
            ("ab", kept()),
            ("b", Json::Array(vec![kept()])),
        ])
    };
    assert_eq!(settle(&payload), expected());
    assert_eq!(settle(&expected()), expected());
    let read = Request::from_value(&object(vec![
        ("payload", payload.clone()),
        ("id", text("1")),
        ("command", text("c")),
    ]))
    .unwrap();
    assert_eq!(read.payload, Some(expected()));
    let written = Event { id: "1".to_string(), event: "e".to_string(), data: Some(payload) };
    assert_eq!(
        written.to_value(),
        object(vec![("id", text("1")), ("event", text("e")), ("data", expected())])
    );
}

#[test]
fn kept_members_stand_as_serde_json_has_them() {
    let names = ["b", "a", "\u{e9}", "Z", "", "a1", "\u{1f600}", "\u{ffff}", "a", "aa"];
    let members: Vec<(&str, Json)> = names
        .iter()
        .enumerate()
        .map(|(i, name)| (*name, Json::Uint(i as u64)))
        .collect();
    let mut map = serde_json::Map::new();
    for (i, name) in names.iter().enumerate() {
        map.insert(name.to_string(), Value::from(i as u64));
    }
    let expected: Vec<(&str, Json)> = map
        .iter()
        .map(|(name, value)| (name.as_str(), Json::Uint(value.as_u64().unwrap())))
        .collect();
    assert_eq!(settle(&object(members)), object(expected));
}

#[test]
fn members_that_are_no_fields_are_passed_over() {
    assert!(has_field("Request", "payload") && !has_field("Request", "data"));
    assert!(has_field("Response", "code") && !has_field("Response", "tag"));
    assert!(has_field("Event", "event") && !has_field("Event", "msg"));
    assert!(has_field("Stream", "bytes") && !has_field("Stream", "command"));
    assert!(!has_field("Other", "id"));
    let event = |other: Json| {
        AppMessage::from_value(&object(vec![(
            "Event",
            object(vec![("id", text("1")), ("event", text("e")), ("other", other)]),
        )]))
    };
    assert!(event(Json::Null).is_some());
    assert_eq!(event(Json::Null), event(Json::Array(vec![text("x")])));
}

// ---------------------------------------------------------------------------
// Commands and routing

fn request(command: &str) -> Request {
    Request {
        id: "req-1".to_string(),
        command: command.to_string(),
        payload: None,
    }
}

#[test]
fn last_registration_of_a_name_counts() {
    let mut registry: CommandRegistry<u32> = CommandRegistry::new();
    assert_eq!(
        registry.handle(&request("a")),
        Err("command not found: a".to_string())
    );
    registry.register("a", 1);
    registry.register("b", 2);
    registry.register("a", 3);
    assert_eq!(registry.handle(&request("a")), Ok(&3));
    assert_eq!(registry.handle(&request("b")), Ok(&2));
    assert_eq!(
        registry.handle(&request("A")),
        Err("command not found: A".to_string())
    );
}

fn inbound(message: InboundMessage) -> SessionControl {
    SessionControl::Inbound(RoutedInbound { peer_id: 7, message })
}

fn stream(tag: &str) -> InboundMessage {
    InboundMessage::Stream(Stream {
        id: "s".to_string(),
        tag: tag.to_string(),
        bytes: vec![1, 2],
        data: None,
    })
}

#[test]
fn every_message_is_routed() {
    let outbound = || RoutedOutbound {
        target: OutboundTarget::Broadcast,
        message: OutboundControl::Text("hello".to_string()),
    };
    assert_eq!(
        route(SessionControl::Outbound(outbound())),
        RouteAction::Dispatch(outbound())
    );
    assert_eq!(
        route(inbound(InboundMessage::Request(request("get_version")))),
        RouteAction::Handle {
            context: CommandContext { peer_id: 7 },
            request: request("get_version"),
        }
    );
    assert_eq!(
        route(inbound(stream("play"))),
        RouteAction::Play { peer_id: 7, bytes: vec![1, 2] }
    );
    assert_eq!(route(inbound(stream("record"))), RouteAction::Ignore);
    assert_eq!(
        route(inbound(InboundMessage::Event(Event::new("e", None)))),
        RouteAction::Ignore
    );
    assert_eq!(
        route(inbound(InboundMessage::Response(Response::success()))),
        RouteAction::Ignore
    );
    assert_eq!(route(SessionControl::Close), RouteAction::Stop);
}

#[test]
fn answers_carry_the_id_of_their_request() {
    let context = CommandContext { peer_id: 7 };
    assert_eq!(
        finish_request(context, "req-1", Ok(Response::success())),
        (
            OutboundTarget::ToPeer(7),
            AppMessage::Response(Response {
                id: "req-1".to_string(),
                code: Some(0),
                msg: Some("success".to_string()),
                data: None,
            })
        )
    );
    assert_eq!(
        finish_request(context, "req-2", Err("broken".to_string())),
        (
            OutboundTarget::ToPeer(7),
            AppMessage::Response(Response::from_error("req-2", "broken"))
        )
    );
}

#[test]
fn events_of_the_device_go_to_everyone() {
    let (target, message) = announce(Event::new("playing", Some(text("Idle"))));
    assert_eq!(target, OutboundTarget::Broadcast);
    match message {
        AppMessage::Event(event) => {
            assert_eq!(event.event, "playing");
            assert_eq!(event.data, Some(text("Idle")));
        }
        other => panic!("unexpected message: {other:?}"),
    }
}

#[test]
fn router_ends_when_a_message_cannot_be_delivered() {
    assert_eq!(after_dispatch(Ok(())), RouterStep::Next);
    assert_eq!(
        after_dispatch(Err(SendControlError::Waits { pending: vec![3, 4] })),
        RouterStep::ResumeDelivery(vec![3, 4])
    );
    assert_eq!(
        after_dispatch(Err(SendControlError::Disconnected { peer_id: 3 })),
        RouterStep::Fail("sending on a closed channel".to_string())
    );
}

#[test]
fn router_ends_when_the_player_is_dead() {
    assert_eq!(after_play(Enqueued::Queued), RouterStep::Next);
    assert_eq!(after_play(Enqueued::NotStarted), RouterStep::Next);
    assert_eq!(after_play(Enqueued::Waits(vec![1])), RouterStep::ResumePlaying(vec![1]));
    assert_eq!(
        after_play(Enqueued::Disconnected),
        RouterStep::Fail("sending on a closed channel".to_string())
    );
}
