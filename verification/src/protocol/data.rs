//! The messages that travel over a WebSocket, and how they are written as JSON.

use crate::protocol::json::{
    as_optional, as_text, field, is_record, member, member_views, names_once, occurrences, opt_json,
    views, Json, JsonView,
};
use crate::protocol::settled::{law_settled_stays_settled, opt_settled, settle, settled};
use crate::text::{opt_text, same};
use vstd::prelude::*;

verus! {

/// A lower-case hexadecimal digit.
pub open spec fn is_lower_hex(c: char) -> bool {
    '0' <= c <= '9' || 'a' <= c <= 'f'
}

/// The text of a random (version 4) UUID: 36 characters, hyphens behind the
/// 8th, 12th, 16th and 20th digit, `4` as the version, and `8`, `9`, `a` or `b`
/// as the first digit of the fourth group.
pub open spec fn is_uuid_v4(s: Seq<char>) -> bool {
    &&& s.len() == 36
    &&& forall|i: int|
        0 <= i < 36 ==> if i == 8 || i == 13 || i == 18 || i == 23 {
            #[trigger] s[i] == '-'
        } else {
            is_lower_hex(s[i])
        }
    &&& s[14] == '4'
    &&& (s[19] == '8' || s[19] == '9' || s[19] == 'a' || s[19] == 'b')
}

/// A fresh UUID. Trusted: `uuid::Uuid::new_v4`, printed by its `Display`. The
/// text differs from call to call; what is claimed is the shape that every such
/// text has.
#[verifier::external_body]
fn new_uuid() -> (r: String)
    ensures
        is_uuid_v4(r@),
{
    uuid::Uuid::new_v4().to_string()
}

/// A piece of a stream, such as recorded or played audio.
#[derive(Debug, PartialEq, Eq)]
pub struct Stream {
    pub id: String,
    pub tag: String,
    pub bytes: Vec<u8>,
    pub data: Option<Json>,
}

/// Something that happened on this device.
#[derive(Debug, PartialEq, Eq)]
pub struct Event {
    pub id: String,
    pub event: String,
    pub data: Option<Json>,
}

/// A command that a peer wants to have carried out.
#[derive(Debug, PartialEq, Eq)]
pub struct Request {
    pub id: String,
    pub command: String,
    pub payload: Option<Json>,
}

/// The answer to a [`Request`].
#[derive(Debug, PartialEq, Eq)]
pub struct Response {
    pub id: String,
    pub code: Option<i32>,
    pub msg: Option<String>,
    pub data: Option<Json>,
}

/// Any message.
#[derive(Debug, PartialEq, Eq)]
pub enum AppMessage {
    Request(Request),
    Response(Response),
    Event(Event),
    Stream(Stream),
}

/// The contents of a [`Stream`].
pub struct StreamView {
    pub id: Seq<char>,
    pub tag: Seq<char>,
    pub bytes: Seq<u8>,
    pub data: Option<JsonView>,
}

/// The contents of an [`Event`].
pub struct EventView {
    pub id: Seq<char>,
    pub event: Seq<char>,
    pub data: Option<JsonView>,
}

/// The contents of a [`Request`].
pub struct RequestView {
    pub id: Seq<char>,
    pub command: Seq<char>,
    pub payload: Option<JsonView>,
}

/// The contents of a [`Response`].
pub struct ResponseView {
    pub id: Seq<char>,
    pub code: Option<i32>,
    pub msg: Option<Seq<char>>,
    pub data: Option<JsonView>,
}

/// The contents of an [`AppMessage`].
pub enum AppMessageView {
    Request(RequestView),
    Response(ResponseView),
    Event(EventView),
    Stream(StreamView),
}

impl View for Stream {
    type V = StreamView;

    open spec fn view(&self) -> StreamView {
        StreamView {
            id: self.id@,
            tag: self.tag@,
            bytes: self.bytes@,
            data: opt_json(self.data),
        }
    }
}

impl View for Event {
    type V = EventView;

    open spec fn view(&self) -> EventView {
        EventView { id: self.id@, event: self.event@, data: opt_json(self.data) }
    }
}

impl View for Request {
    type V = RequestView;

    open spec fn view(&self) -> RequestView {
        RequestView { id: self.id@, command: self.command@, payload: opt_json(self.payload) }
    }
}

impl View for Response {
    type V = ResponseView;

    open spec fn view(&self) -> ResponseView {
        ResponseView {
            id: self.id@,
            code: self.code,
            msg: opt_text(self.msg),
            data: opt_json(self.data),
        }
    }
}

impl View for AppMessage {
    type V = AppMessageView;

    open spec fn view(&self) -> AppMessageView {
        match self {
            AppMessage::Request(request) => AppMessageView::Request(request@),
            AppMessage::Response(response) => AppMessageView::Response(response@),
            AppMessage::Event(event) => AppMessageView::Event(event@),
            AppMessage::Stream(stream) => AppMessageView::Stream(stream@),
        }
    }
}

/// A member that is written only if there is something to write.
pub open spec fn if_some(name: Seq<char>, value: Option<JsonView>) -> Seq<(Seq<char>, JsonView)> {
    match value {
        Some(value) => seq![(name, value)],
        None => Seq::empty(),
    }
}

/// An integer as JSON.
pub open spec fn int_json(n: int) -> JsonView {
    if n >= 0 {
        JsonView::Uint(n as u64)
    } else {
        JsonView::Int(n as i64)
    }
}

/// A value that may be missing, as it is kept: `null` is another way to leave it out.
pub open spec fn as_kept(value: Option<JsonView>) -> Option<JsonView> {
    opt_settled(as_optional(value))
}

/// How a stream is written: its data only if it has any.
pub open spec fn stream_json(stream: StreamView) -> JsonView {
    JsonView::Object(
        seq![
            ("id"@, JsonView::Str(stream.id)),
            ("tag"@, JsonView::Str(stream.tag)),
            (
                "bytes"@,
                JsonView::Array(stream.bytes.map_values(|b: u8| JsonView::Uint(b as u64))),
            ),
        ] + if_some("data"@, opt_settled(stream.data)),
    )
}

/// How an event is written: its data only if it has any.
pub open spec fn event_json(event: EventView) -> JsonView {
    JsonView::Object(
        seq![("id"@, JsonView::Str(event.id)), ("event"@, JsonView::Str(event.event))] + if_some(
            "data"@,
            opt_settled(event.data),
        ),
    )
}

/// How a request is written: a missing payload as `null`.
pub open spec fn request_json(request: RequestView) -> JsonView {
    JsonView::Object(
        seq![
            ("id"@, JsonView::Str(request.id)),
            ("command"@, JsonView::Str(request.command)),
            (
                "payload"@,
                match request.payload {
                    Some(payload) => settled(payload),
                    None => JsonView::Null,
                },
            ),
        ],
    )
}

/// How a response is written: code, message and data only if they are there.
pub open spec fn response_json(response: ResponseView) -> JsonView {
    JsonView::Object(
        seq![("id"@, JsonView::Str(response.id))] + if_some(
            "code"@,
            match response.code {
                Some(code) => Some(int_json(code as int)),
                None => None,
            },
        ) + if_some(
            "msg"@,
            match response.msg {
                Some(msg) => Some(JsonView::Str(msg)),
                None => None,
            },
        ) + if_some("data"@, opt_settled(response.data)),
    )
}

/// How any message is written: an object with one member, named after the kind.
pub open spec fn app_message_json(message: AppMessageView) -> JsonView {
    match message {
        AppMessageView::Request(request) => JsonView::Object(
            seq![("Request"@, request_json(request))],
        ),
        AppMessageView::Response(response) => JsonView::Object(
            seq![("Response"@, response_json(response))],
        ),
        AppMessageView::Event(event) => JsonView::Object(seq![("Event"@, event_json(event))]),
        AppMessageView::Stream(stream) => JsonView::Object(seq![("Stream"@, stream_json(stream))]),
    }
}

/// An array of integers between 0 and 255.
pub open spec fn as_bytes(field: Option<JsonView>) -> Option<Seq<u8>> {
    match field {
        Some(JsonView::Array(values)) => if forall|i: int|
            0 <= i < values.len() ==> (#[trigger] values[i] matches JsonView::Uint(n) && n <= 255) {
            Some(values.map_values(|v: JsonView| v->Uint_0 as u8))
        } else {
            None
        },
        _ => None,
    }
}

/// Whether an optional 32 bit integer can be read from the field.
pub open spec fn is_optional_code(field: Option<JsonView>) -> bool {
    match as_optional(field) {
        None => true,
        Some(JsonView::Uint(n)) => n <= i32::MAX,
        Some(JsonView::Int(n)) => i32::MIN <= n <= i32::MAX,
        Some(_) => false,
    }
}

/// The optional 32 bit integer of the field.
pub open spec fn optional_code(field: Option<JsonView>) -> Option<i32> {
    match as_optional(field) {
        Some(JsonView::Uint(n)) => Some(n as i32),
        Some(JsonView::Int(n)) => Some(n as i32),
        _ => None,
    }
}

/// Whether an optional text can be read from the field.
pub open spec fn is_optional_text(field: Option<JsonView>) -> bool {
    match as_optional(field) {
        None => true,
        Some(JsonView::Str(_)) => true,
        Some(_) => false,
    }
}

/// The stream that a value stands for.
pub open spec fn stream_of(json: JsonView) -> Option<StreamView> {
    let id = as_text(field(json, "id"@, 0));
    let tag = as_text(field(json, "tag"@, 1));
    let bytes = as_bytes(field(json, "bytes"@, 2));
    if is_record(json, 3, 4) && names_once(json, "id"@) && names_once(json, "tag"@) && names_once(
        json,
        "bytes"@,
    ) && names_once(json, "data"@) && id is Some && tag is Some && bytes is Some {
        Some(
            StreamView {
                id: id->0,
                tag: tag->0,
                bytes: bytes->0,
                data: as_kept(field(json, "data"@, 3)),
            },
        )
    } else {
        None
    }
}

/// The event that a value stands for.
pub open spec fn event_of(json: JsonView) -> Option<EventView> {
    let id = as_text(field(json, "id"@, 0));
    let event = as_text(field(json, "event"@, 1));
    if is_record(json, 2, 3) && names_once(json, "id"@) && names_once(json, "event"@) && names_once(
        json,
        "data"@,
    ) && id is Some && event is Some {
        Some(
            EventView {
                id: id->0,
                event: event->0,
                data: as_kept(field(json, "data"@, 2)),
            },
        )
    } else {
        None
    }
}

/// The request that a value stands for.
pub open spec fn request_of(json: JsonView) -> Option<RequestView> {
    let id = as_text(field(json, "id"@, 0));
    let command = as_text(field(json, "command"@, 1));
    if is_record(json, 3, 3) && names_once(json, "id"@) && names_once(json, "command"@)
        && names_once(json, "payload"@) && id is Some && command is Some {
        Some(
            RequestView {
                id: id->0,
                command: command->0,
                payload: as_kept(field(json, "payload"@, 2)),
            },
        )
    } else {
        None
    }
}

/// The response that a value stands for.
pub open spec fn response_of(json: JsonView) -> Option<ResponseView> {
    let id = as_text(field(json, "id"@, 0));
    let code = field(json, "code"@, 1);
    let msg = field(json, "msg"@, 2);
    if is_record(json, 1, 4) && names_once(json, "id"@) && names_once(json, "code"@) && names_once(
        json,
        "msg"@,
    ) && names_once(json, "data"@) && id is Some && is_optional_code(code) && is_optional_text(msg) {
        Some(
            ResponseView {
                id: id->0,
                code: optional_code(code),
                msg: as_text(msg),
                data: as_kept(field(json, "data"@, 3)),
            },
        )
    } else {
        None
    }
}

/// The message that a value stands for: an object whose one member names the
/// kind and holds the message.
pub open spec fn app_message_of(json: JsonView) -> Option<AppMessageView> {
    match json {
        JsonView::Object(members) => if members.len() != 1 {
            None
        } else if members[0].0 == "Request"@ {
            match request_of(members[0].1) {
                Some(request) => Some(AppMessageView::Request(request)),
                None => None,
            }
        } else if members[0].0 == "Response"@ {
            match response_of(members[0].1) {
                Some(response) => Some(AppMessageView::Response(response)),
                None => None,
            }
        } else if members[0].0 == "Event"@ {
            match event_of(members[0].1) {
                Some(event) => Some(AppMessageView::Event(event)),
                None => None,
            }
        } else if members[0].0 == "Stream"@ {
            match stream_of(members[0].1) {
                Some(stream) => Some(AppMessageView::Stream(stream)),
                None => None,
            }
        } else {
            None
        },
        _ => None,
    }
}

fn text_member(name: &str, text: &str) -> (r: (String, Json))
    ensures
        (r.0@, r.1@) == (name@, JsonView::Str(text@)),
{
    (name.to_string(), Json::Str(text.to_string()))
}

/// Adds a member to an object that is being built.
fn add_member(members: &mut Vec<(String, Json)>, member: (String, Json))
    ensures
        member_views(final(members)@) == member_views(old(members)@).push((member.0@, member.1@)),
{
    members.push(member);
    assert(member_views(members@) =~= member_views(old(members)@).push((member.0@, member.1@)));
}

/// Adds a member to an object that is being built, if there is one.
fn add_optional(members: &mut Vec<(String, Json)>, name: &str, value: &Option<Json>)
    ensures
        member_views(final(members)@) == member_views(old(members)@) + if_some(
            name@,
            opt_json(*value),
        ),
{
    let ghost before = member_views(members@);
    match value {
        Some(value) => {
            add_member(members, (name.to_string(), value.clone()));
            assert(before.push((name@, value@)) =~= before + seq![(name@, value@)]);
        },
        None => {
            assert(before + Seq::empty() =~= before);
        },
    }
}

/// See [`opt_settled`].
fn settle_optional(value: &Option<Json>) -> (r: Option<Json>)
    ensures
        opt_json(r) == opt_settled(opt_json(*value)),
{
    match value {
        Some(value) => Some(settle(value)),
        None => None,
    }
}

/// A field that may be left out; see [`as_kept`].
fn kept_field(json: &Json, name: &str, position: usize) -> (r: Option<Json>)
    ensures
        opt_json(r) == as_kept(field(json@, name@, position as int)),
{
    match json.field(name, position) {
        Some(Json::Null) => None,
        Some(value) => Some(settle(value)),
        None => None,
    }
}

impl Stream {
    /// A stream under a fresh id.
    pub fn new(tag: &str, bytes: Vec<u8>, data: Option<Json>) -> (r: Self)
        ensures
            is_uuid_v4(r.id@),
            r.tag@ == tag@,
            r.bytes == bytes,
            r.data == data,
    {
        Stream { id: new_uuid(), tag: tag.to_string(), bytes, data }
    }

    /// The stream as JSON.
    pub fn to_value(&self) -> (r: Json)
        ensures
            r@ == stream_json(self@),
    {
        let mut bytes: Vec<Json> = Vec::new();
        let mut i: usize = 0;
        while i < self.bytes.len()
            invariant
                i <= self.bytes@.len(),
                bytes@.len() == i,
                forall|j: int|
                    0 <= j < i ==> (#[trigger] bytes@[j])@ == JsonView::Uint(self.bytes@[j] as u64),
            decreases self.bytes@.len() - i,
        {
            bytes.push(Json::Uint(self.bytes[i] as u64));
            i += 1;
        }
        assert(views(bytes@) =~= self.bytes@.map_values(|b: u8| JsonView::Uint(b as u64)));
        let mut members: Vec<(String, Json)> = Vec::new();
        add_member(&mut members, text_member("id", self.id.as_str()));
        add_member(&mut members, text_member("tag", self.tag.as_str()));
        add_member(&mut members, ("bytes".to_string(), Json::Array(bytes)));
        add_optional(&mut members, "data", &settle_optional(&self.data));
        assert(member_views(members@) =~= stream_json(self@)->Object_0);
        Json::Object(members)
    }

    /// Reads a stream; see [`stream_of`].
    pub fn from_value(json: &Json) -> (r: Option<Self>)
        ensures
            r is Some <==> stream_of(json@) is Some,
            r matches Some(stream) ==> stream_of(json@) == Some(stream@),
    {
        if !json.is_record(3, 4) || !json.names_once("id") || !json.names_once("tag")
            || !json.names_once("bytes") || !json.names_once("data") {
            return None;
        }
        let data = kept_field(json, "data", 3);
        match (json.text_field("id", 0), json.text_field("tag", 1), bytes_field(json.field("bytes", 2))) {
            (Some(id), Some(tag), Some(bytes)) => Some(Stream { id, tag, bytes, data }),
            _ => None,
        }
    }
}

/// See [`as_bytes`].
fn bytes_field(json: Option<&Json>) -> (r: Option<Vec<u8>>)
    ensures
        r is Some <==> as_bytes(opt_json_ref(json)) is Some,
        r matches Some(bytes) ==> as_bytes(opt_json_ref(json)) == Some(bytes@),
{
    match json {
        Some(Json::Array(values)) => {
            let ghost all = views(values@);
            assert(json->0@ == JsonView::Array(all));
            let mut bytes: Vec<u8> = Vec::new();
            let mut i: usize = 0;
            while i < values.len()
                invariant
                    i <= values@.len(),
                    all == views(values@),
                    opt_json_ref(json) == Some(JsonView::Array(all)),
                    bytes@.len() == i,
                    forall|j: int|
                        0 <= j < i ==> (#[trigger] all[j] matches JsonView::Uint(n) && n <= 255
                            && bytes@[j] == n as u8),
                decreases values@.len() - i,
            {
                assert(all[i as int] == values@[i as int]@);
                match &values[i] {
                    Json::Uint(n) => {
                        if *n > 255 {
                            return None;
                        }
                        bytes.push(*n as u8);
                    },
                    _ => {
                        return None;
                    },
                }
                i += 1;
            }
            assert(bytes@ =~= all.map_values(|v: JsonView| v->Uint_0 as u8));
            Some(bytes)
        },
        _ => None,
    }
}

/// The contents of a value that may be missing.
pub open spec fn opt_json_ref(json: Option<&Json>) -> Option<JsonView> {
    match json {
        Some(json) => Some(json@),
        None => None,
    }
}

impl Event {
    /// An event under a fresh id.
    pub fn new(event: &str, data: Option<Json>) -> (r: Self)
        ensures
            is_uuid_v4(r.id@),
            r.event@ == event@,
            r.data == data,
    {
        Event { id: new_uuid(), event: event.to_string(), data }
    }

    /// The event as JSON.
    pub fn to_value(&self) -> (r: Json)
        ensures
            r@ == event_json(self@),
    {
        let mut members: Vec<(String, Json)> = Vec::new();
        add_member(&mut members, text_member("id", self.id.as_str()));
        add_member(&mut members, text_member("event", self.event.as_str()));
        add_optional(&mut members, "data", &settle_optional(&self.data));
        assert(member_views(members@) =~= event_json(self@)->Object_0);
        Json::Object(members)
    }

    /// Reads an event; see [`event_of`].
    pub fn from_value(json: &Json) -> (r: Option<Self>)
        ensures
            r is Some <==> event_of(json@) is Some,
            r matches Some(event) ==> event_of(json@) == Some(event@),
    {
        if !json.is_record(2, 3) || !json.names_once("id") || !json.names_once("event")
            || !json.names_once("data") {
            return None;
        }
        let data = kept_field(json, "data", 2);
        match (json.text_field("id", 0), json.text_field("event", 1)) {
            (Some(id), Some(event)) => Some(Event { id, event, data }),
            _ => None,
        }
    }
}

impl Request {
    /// The request as JSON.
    pub fn to_value(&self) -> (r: Json)
        ensures
            r@ == request_json(self@),
    {
        let payload = match &self.payload {
            Some(payload) => settle(payload),
            None => Json::Null,
        };
        let mut members: Vec<(String, Json)> = Vec::new();
        add_member(&mut members, text_member("id", self.id.as_str()));
        add_member(&mut members, text_member("command", self.command.as_str()));
        add_member(&mut members, ("payload".to_string(), payload));
        assert(member_views(members@) =~= request_json(self@)->Object_0);
        Json::Object(members)
    }

    /// Reads a request; see [`request_of`].
    pub fn from_value(json: &Json) -> (r: Option<Self>)
        ensures
            r is Some <==> request_of(json@) is Some,
            r matches Some(request) ==> request_of(json@) == Some(request@),
    {
        if !json.is_record(3, 3) || !json.names_once("id") || !json.names_once("command")
            || !json.names_once("payload") {
            return None;
        }
        let payload = kept_field(json, "payload", 2);
        match (json.text_field("id", 0), json.text_field("command", 1)) {
            (Some(id), Some(command)) => Some(Request { id, command, payload }),
            _ => None,
        }
    }
}

impl Response {
    /// The answer to a command that succeeded and has nothing to say.
    pub fn success() -> (r: Self)
        ensures
            r@ == (ResponseView {
                id: "0"@,
                code: Some(0i32),
                msg: Some("success"@),
                data: None,
            }),
    {
        Response { id: "0".to_string(), code: Some(0), msg: Some("success".to_string()), data: None }
    }

    /// The answer to a command that succeeded, with a message of its own.
    pub fn success_msg(msg: &str) -> (r: Self)
        ensures
            r@ == (ResponseView { id: "0"@, code: Some(0i32), msg: Some(msg@), data: None }),
    {
        Response { id: "0".to_string(), code: Some(0), msg: Some(msg.to_string()), data: None }
    }

    /// The answer to a question: only the data.
    pub fn from_data(data: Json) -> (r: Self)
        ensures
            r@ == (ResponseView { id: "0"@, code: None, msg: None, data: Some(data@) }),
    {
        Response { id: "0".to_string(), code: None, msg: None, data: Some(data) }
    }

    /// The answer to a command that failed.
    pub fn from_error(id: &str, err: &str) -> (r: Self)
        ensures
            r@ == (ResponseView { id: id@, code: Some(-1i32), msg: Some(err@), data: None }),
    {
        Response { id: id.to_string(), code: Some(-1), msg: Some(err.to_string()), data: None }
    }

    /// The response as JSON.
    pub fn to_value(&self) -> (r: Json)
        ensures
            r@ == response_json(self@),
    {
        let code = match self.code {
            Some(code) => Some(
                if code >= 0 {
                    Json::Uint(code as u64)
                } else {
                    Json::Int(code as i64)
                },
            ),
            None => None,
        };
        let msg = match &self.msg {
            Some(msg) => Some(Json::Str(msg.clone())),
            None => None,
        };
        let mut members: Vec<(String, Json)> = Vec::new();
        add_member(&mut members, text_member("id", self.id.as_str()));
        add_optional(&mut members, "code", &code);
        add_optional(&mut members, "msg", &msg);
        add_optional(&mut members, "data", &settle_optional(&self.data));
        proof {
            let head = seq![("id"@, JsonView::Str(self.id@))];
            assert(Seq::<(Seq<char>, JsonView)>::empty().push(("id"@, JsonView::Str(self.id@)))
                =~= head);
            assert(member_views(members@) =~= response_json(self@)->Object_0);
        }
        Json::Object(members)
    }

    /// Reads a response; see [`response_of`].
    pub fn from_value(json: &Json) -> (r: Option<Self>)
        ensures
            r is Some <==> response_of(json@) is Some,
            r matches Some(response) ==> response_of(json@) == Some(response@),
    {
        if !json.is_record(1, 4) || !json.names_once("id") || !json.names_once("code")
            || !json.names_once("msg") || !json.names_once("data") {
            return None;
        }
        let code: Option<i32> = match json.field("code", 1) {
            None => None,
            Some(Json::Null) => None,
            Some(Json::Uint(n)) => {
                if *n > 0x7fff_ffff {
                    return None;
                }
                Some(*n as i32)
            },
            Some(Json::Int(n)) => {
                if *n < -0x8000_0000 || *n > 0x7fff_ffff {
                    return None;
                }
                Some(*n as i32)
            },
            Some(_) => {
                return None;
            },
        };
        let msg: Option<String> = match json.field("msg", 2) {
            None => None,
            Some(Json::Null) => None,
            Some(Json::Str(msg)) => Some(msg.clone()),
            Some(_) => {
                return None;
            },
        };
        let data = kept_field(json, "data", 3);
        match json.text_field("id", 0) {
            Some(id) => Some(Response { id, code, msg, data }),
            None => None,
        }
    }
}

impl AppMessage {
    /// The message as JSON.
    pub fn to_value(&self) -> (r: Json)
        ensures
            r@ == app_message_json(self@),
    {
        let (kind, body) = match self {
            AppMessage::Request(request) => ("Request", request.to_value()),
            AppMessage::Response(response) => ("Response", response.to_value()),
            AppMessage::Event(event) => ("Event", event.to_value()),
            AppMessage::Stream(stream) => ("Stream", stream.to_value()),
        };
        let mut members: Vec<(String, Json)> = Vec::new();
        add_member(&mut members, (kind.to_string(), body));
        assert(member_views(members@) =~= app_message_json(self@)->Object_0);
        Json::Object(members)
    }

    /// Reads a message; see [`app_message_of`].
    pub fn from_value(json: &Json) -> (r: Option<Self>)
        ensures
            r is Some <==> app_message_of(json@) is Some,
            r matches Some(message) ==> app_message_of(json@) == Some(message@),
    {
        match json {
            Json::Object(members) => {
                assert(json@ == JsonView::Object(member_views(members@)));
                if members.len() != 1 {
                    return None;
                }
                let kind = members[0].0.as_str();
                let body = &members[0].1;
                if same(kind, "Request") {
                    match Request::from_value(body) {
                        Some(request) => Some(AppMessage::Request(request)),
                        None => None,
                    }
                } else if same(kind, "Response") {
                    match Response::from_value(body) {
                        Some(response) => Some(AppMessage::Response(response)),
                        None => None,
                    }
                } else if same(kind, "Event") {
                    match Event::from_value(body) {
                        Some(event) => Some(AppMessage::Event(event)),
                        None => None,
                    }
                } else if same(kind, "Stream") {
                    match Stream::from_value(body) {
                        Some(stream) => Some(AppMessage::Stream(stream)),
                        None => None,
                    }
                } else {
                    None
                }
            },
            _ => None,
        }
    }
}

/// No two members have the same name.
spec fn distinct_names(members: Seq<(Seq<char>, JsonView)>) -> bool {
    forall|i: int, j: int|
        0 <= i < members.len() && 0 <= j < members.len() && i != j ==> (#[trigger] members[i]).0 != (
        #[trigger] members[j]).0
}

/// No member is called `name`.
spec fn is_unnamed(members: Seq<(Seq<char>, JsonView)>, name: Seq<char>) -> bool {
    forall|i: int| 0 <= i < members.len() ==> (#[trigger] members[i]).0 != name
}

proof fn lemma_unnamed(members: Seq<(Seq<char>, JsonView)>, name: Seq<char>)
    requires
        is_unnamed(members, name),
    ensures
        member(members, name) is None,
        occurrences(members, name) == 0,
    decreases members.len(),
{
    if members.len() > 0 {
        assert(members.last() == members[members.len() - 1]);
        let rest = members.drop_last();
        assert forall|i: int| 0 <= i < rest.len() implies (#[trigger] rest[i]).0 != name by {
            assert(rest[i] == members[i]);
        }
        lemma_unnamed(rest, name);
    }
}

proof fn lemma_named(members: Seq<(Seq<char>, JsonView)>, at: int)
    requires
        distinct_names(members),
        0 <= at < members.len(),
    ensures
        member(members, members[at].0) == Some(members[at].1),
        occurrences(members, members[at].0) == 1,
    decreases members.len(),
{
    let name = members[at].0;
    let rest = members.drop_last();
    assert(members.last() == members[members.len() - 1]);
    if at == members.len() - 1 {
        assert forall|i: int| 0 <= i < rest.len() implies (#[trigger] rest[i]).0 != name by {
            assert(rest[i] == members[i]);
        }
        lemma_unnamed(rest, name);
    } else {
        assert(members[members.len() - 1].0 != members[at].0);
        assert forall|i: int, j: int|
            0 <= i < rest.len() && 0 <= j < rest.len() && i != j implies (#[trigger] rest[i]).0 != (
        #[trigger] rest[j]).0 by {
            assert(rest[i] == members[i] && rest[j] == members[j]);
        }
        assert(rest[at] == members[at]);
        lemma_named(rest, at);
    }
}

proof fn lemma_names_differ()
    ensures
        "id"@ != "tag"@,
        "id"@ != "bytes"@,
        "id"@ != "data"@,
        "id"@ != "event"@,
        "id"@ != "command"@,
        "id"@ != "payload"@,
        "id"@ != "code"@,
        "id"@ != "msg"@,
        "tag"@ != "bytes"@,
        "tag"@ != "data"@,
        "bytes"@ != "data"@,
        "event"@ != "data"@,
        "command"@ != "payload"@,
        "code"@ != "msg"@,
        "code"@ != "data"@,
        "msg"@ != "data"@,
{
    reveal_strlit("id");
    reveal_strlit("tag");
    reveal_strlit("bytes");
    reveal_strlit("data");
    reveal_strlit("event");
    reveal_strlit("command");
    reveal_strlit("payload");
    reveal_strlit("code");
    reveal_strlit("msg");
    assert("bytes"@[0] == 'b' && "event"@[0] == 'e');
    assert("tag"@[0] == 't' && "msg"@[0] == 'm');
    assert("data"@[0] == 'd' && "code"@[0] == 'c');
    assert("command"@[0] == 'c' && "payload"@[0] == 'p');
}

proof fn lemma_kinds_differ()
    ensures
        "Request"@ != "Response"@,
        "Request"@ != "Event"@,
        "Request"@ != "Stream"@,
        "Response"@ != "Event"@,
        "Response"@ != "Stream"@,
        "Event"@ != "Stream"@,
{
    reveal_strlit("Request");
    reveal_strlit("Response");
    reveal_strlit("Event");
    reveal_strlit("Stream");
    assert("Request"@.len() == 7 && "Response"@.len() == 8);
    assert("Event"@.len() == 5 && "Stream"@.len() == 6);
}

/// A stream with its data as they are kept.
pub open spec fn kept_stream(stream: StreamView) -> StreamView {
    StreamView { data: as_kept(stream.data), ..stream }
}

/// An event with its data as they are kept.
pub open spec fn kept_event(event: EventView) -> EventView {
    EventView { data: as_kept(event.data), ..event }
}

/// A request with its payload as it is kept.
pub open spec fn kept_request(request: RequestView) -> RequestView {
    RequestView { payload: as_kept(request.payload), ..request }
}

/// A response with its data as they are kept.
pub open spec fn kept_response(response: ResponseView) -> ResponseView {
    ResponseView { data: as_kept(response.data), ..response }
}

/// A message with its payload or data as they are kept.
pub open spec fn kept_message(message: AppMessageView) -> AppMessageView {
    match message {
        AppMessageView::Request(request) => AppMessageView::Request(kept_request(request)),
        AppMessageView::Response(response) => AppMessageView::Response(kept_response(response)),
        AppMessageView::Event(event) => AppMessageView::Event(kept_event(event)),
        AppMessageView::Stream(stream) => AppMessageView::Stream(kept_stream(stream)),
    }
}

proof fn lemma_kept_stays_kept(value: JsonView)
    ensures
        as_kept(Some(settled(value))) == as_kept(Some(value)),
{
    law_settled_stays_settled(value);
}

proof fn lemma_stream_round_trip(stream: StreamView)
    ensures
        stream_of(stream_json(stream)) == Some(kept_stream(stream)),
{
    lemma_names_differ();
    let json = stream_json(stream);
    let members = json->Object_0;
    assert(members[0].0 == "id"@ && members[1].0 == "tag"@ && members[2].0 == "bytes"@);
    lemma_named(members, 0);
    lemma_named(members, 1);
    lemma_named(members, 2);
    if stream.data is Some {
        assert(members[3] == ("data"@, settled(stream.data->0)));
        lemma_named(members, 3);
        lemma_kept_stays_kept(stream.data->0);
    } else {
        lemma_unnamed(members, "data"@);
    }
    let values = stream.bytes.map_values(|b: u8| JsonView::Uint(b as u64));
    assert(as_bytes(field(json, "bytes"@, 2)) == Some(
        values.map_values(|v: JsonView| v->Uint_0 as u8),
    ));
    assert(values.map_values(|v: JsonView| v->Uint_0 as u8) =~= stream.bytes);
}

proof fn lemma_event_round_trip(event: EventView)
    ensures
        event_of(event_json(event)) == Some(kept_event(event)),
{
    lemma_names_differ();
    let members = event_json(event)->Object_0;
    assert(members[0].0 == "id"@ && members[1].0 == "event"@);
    lemma_named(members, 0);
    lemma_named(members, 1);
    if event.data is Some {
        assert(members[2] == ("data"@, settled(event.data->0)));
        lemma_named(members, 2);
        lemma_kept_stays_kept(event.data->0);
    } else {
        lemma_unnamed(members, "data"@);
    }
}

proof fn lemma_request_round_trip(request: RequestView)
    ensures
        request_of(request_json(request)) == Some(kept_request(request)),
{
    lemma_names_differ();
    let members = request_json(request)->Object_0;
    assert(members[0].0 == "id"@ && members[1].0 == "command"@ && members[2].0 == "payload"@);
    lemma_named(members, 0);
    lemma_named(members, 1);
    lemma_named(members, 2);
    if request.payload is Some {
        lemma_kept_stays_kept(request.payload->0);
    }
}

proof fn lemma_response_round_trip(response: ResponseView)
    ensures
        response_of(response_json(response)) == Some(kept_response(response)),
{
    lemma_names_differ();
    let members = response_json(response)->Object_0;
    let at_msg = 1 + if response.code is Some {
        1int
    } else {
        0int
    };
    let at_data = at_msg + if response.msg is Some {
        1int
    } else {
        0int
    };
    assert(members[0] == ("id"@, JsonView::Str(response.id)));
    if response.code is Some {
        assert(members[1] == ("code"@, int_json(response.code->0 as int)));
    }
    if response.msg is Some {
        assert(members[at_msg] == ("msg"@, JsonView::Str(response.msg->0)));
    }
    if response.data is Some {
        assert(members[at_data] == ("data"@, settled(response.data->0)));
    }
    assert(members.len() == at_data + if response.data is Some {
        1int
    } else {
        0int
    });
    lemma_named(members, 0);
    if response.code is Some {
        lemma_named(members, 1);
    } else {
        lemma_unnamed(members, "code"@);
    }
    if response.msg is Some {
        lemma_named(members, at_msg);
    } else {
        lemma_unnamed(members, "msg"@);
    }
    if response.data is Some {
        lemma_kept_stays_kept(response.data->0);
        lemma_named(members, at_data);
    } else {
        lemma_unnamed(members, "data"@);
    }
}

/// What is read back from a binary frame is the stream that was written into it.
pub proof fn law_written_stream_reads_back(stream: StreamView)
    ensures
        stream_of(stream_json(stream)) == Some(kept_stream(stream)),
{
    lemma_stream_round_trip(stream);
}

/// What is read back is what was written, with its payload or data as they are
/// kept: an explicit `null` reads back as left out.
pub proof fn law_written_message_reads_back(message: AppMessageView)
    ensures
        app_message_of(app_message_json(message)) == Some(kept_message(message)),
{
    lemma_kinds_differ();
    match message {
        AppMessageView::Request(request) => lemma_request_round_trip(request),
        AppMessageView::Response(response) => lemma_response_round_trip(response),
        AppMessageView::Event(event) => lemma_event_round_trip(event),
        AppMessageView::Stream(stream) => lemma_stream_round_trip(stream),
    }
}

/// Whatever is read reads the same when it is written and read again.
pub proof fn law_read_message_reads_back_unchanged(json: JsonView)
    ensures
        app_message_of(json) matches Some(message) ==> app_message_of(app_message_json(message))
            == Some(message),
{
    if let Some(message) = app_message_of(json) {
        law_written_message_reads_back(message);
        let body = json->Object_0[0].1;
        let attached = match message {
            AppMessageView::Request(_) => field(body, "payload"@, 2),
            AppMessageView::Response(_) => field(body, "data"@, 3),
            AppMessageView::Event(_) => field(body, "data"@, 2),
            AppMessageView::Stream(_) => field(body, "data"@, 3),
        };
        if attached is Some {
            law_settled_stays_settled(attached->0);
        }
    }
}

/// Whether messages of this kind have a field of this name.
pub open spec fn is_field(kind: Seq<char>, name: Seq<char>) -> bool {
    ||| kind == "Request"@ && (name == "id"@ || name == "command"@ || name == "payload"@)
    ||| kind == "Response"@ && (name == "id"@ || name == "code"@ || name == "msg"@ || name
        == "data"@)
    ||| kind == "Event"@ && (name == "id"@ || name == "event"@ || name == "data"@)
    ||| kind == "Stream"@ && (name == "id"@ || name == "tag"@ || name == "bytes"@ || name
        == "data"@)
}

/// See [`is_field`]. Members of other names need not be read.
pub fn has_field(kind: &str, name: &str) -> (r: bool)
    ensures
        r == is_field(kind@, name@),
{
    if same(kind, "Request") && (same(name, "id") || same(name, "command") || same(name, "payload")) {
        return true;
    }
    if same(kind, "Response") && (same(name, "id") || same(name, "code") || same(name, "msg")
        || same(name, "data")) {
        return true;
    }
    if same(kind, "Event") && (same(name, "id") || same(name, "event") || same(name, "data")) {
        return true;
    }
    same(kind, "Stream") && (same(name, "id") || same(name, "tag") || same(name, "bytes") || same(
        name,
        "data",
    ))
}

/// Two objects have the same names in the same order, and the same values where the
/// name is a field of this kind of message.
pub open spec fn same_fields(
    kind: Seq<char>,
    a: Seq<(Seq<char>, JsonView)>,
    b: Seq<(Seq<char>, JsonView)>,
) -> bool {
    a.len() == b.len() && forall|i: int|
        #![trigger a[i]]
        #![trigger b[i]]
        0 <= i < a.len() ==> a[i].0 == b[i].0 && (is_field(kind, a[i].0) ==> a[i].1 == b[i].1)
}

proof fn lemma_same_fields(
    kind: Seq<char>,
    a: Seq<(Seq<char>, JsonView)>,
    b: Seq<(Seq<char>, JsonView)>,
    name: Seq<char>,
)
    requires
        same_fields(kind, a, b),
        is_field(kind, name),
    ensures
        member(a, name) == member(b, name),
        occurrences(a, name) == occurrences(b, name),
    decreases a.len(),
{
    if a.len() > 0 {
        assert(a[a.len() - 1].0 == b[b.len() - 1].0);
        let (rest, other) = (a.drop_last(), b.drop_last());
        assert forall|i: int|
            #![trigger rest[i]]
            #![trigger other[i]]
            0 <= i < rest.len() implies rest[i].0 == other[i].0 && (is_field(kind, rest[i].0)
            ==> rest[i].1 == other[i].1) by {
            assert(rest[i] == a[i] && other[i] == b[i]);
        }
        lemma_same_fields(kind, rest, other, name);
    }
}

/// Members that are no field of a message are passed over: their values do not matter.
pub proof fn law_other_members_are_passed_over(
    kind: Seq<char>,
    a: Seq<(Seq<char>, JsonView)>,
    b: Seq<(Seq<char>, JsonView)>,
)
    requires
        same_fields(kind, a, b),
    ensures
        app_message_of(JsonView::Object(seq![(kind, JsonView::Object(a))])) == app_message_of(
            JsonView::Object(seq![(kind, JsonView::Object(b))]),
        ),
        kind == "Stream"@ ==> stream_of(JsonView::Object(a)) == stream_of(JsonView::Object(b)),
{
    assert forall|name: Seq<char>| is_field(kind, name) implies #[trigger] member(a, name) == member(
        b,
        name,
    ) && occurrences(a, name) == occurrences(b, name) by {
        lemma_same_fields(kind, a, b, name);
    }
    lemma_kinds_differ();
}

/// The contents of a message are its fields, all of them and as they are.
pub proof fn law_contents_are_the_fields(
    request: Request,
    response: Response,
    event: Event,
    stream: Stream,
)
    ensures
        request@.id == request.id@ && request@.command == request.command@ && request@.payload
            == opt_json(request.payload),
        response@.id == response.id@ && response@.code == response.code && response@.msg == opt_text(
            response.msg,
        ) && response@.data == opt_json(response.data),
        event@.id == event.id@ && event@.event == event.event@ && event@.data == opt_json(event.data),
        stream@.id == stream.id@ && stream@.tag == stream.tag@ && stream@.bytes == stream.bytes@
            && stream@.data == opt_json(stream.data),
        AppMessage::Request(request)@ == AppMessageView::Request(request@),
        AppMessage::Response(response)@ == AppMessageView::Response(response@),
        AppMessage::Event(event)@ == AppMessageView::Event(event@),
        AppMessage::Stream(stream)@ == AppMessageView::Stream(stream@),
{
}

/// What may be left out is left out when it is missing or `null`, and kept otherwise.
pub proof fn law_null_is_left_out(json: JsonView)
    ensures
        as_kept(None) is None,
        json is Null ==> as_kept(Some(json)) is None,
        !(json is Null) ==> as_kept(Some(json)) == Some(settled(json)),
        !(json is Array) && !(json is Object) ==> settled(json) == json,
        json is Array <==> settled(json) is Array,
        json is Object <==> settled(json) is Object,
{
}

/// A request is read by name: an object is one exactly if it names each field at most once and has a
/// text for its id and one for its command; its payload is whatever stands under that name.
pub proof fn law_request_is_read_by_name(
    members: Seq<(Seq<char>, JsonView)>,
    id: Seq<char>,
    command: Seq<char>,
    payload: Option<JsonView>,
)
    ensures
        request_of(JsonView::Object(members)) == Some(RequestView { id, command, payload }) <==> {
            &&& occurrences(members, "id"@) == 1 && member(members, "id"@) == Some(JsonView::Str(id))
            &&& occurrences(members, "command"@) == 1 && member(members, "command"@) == Some(
                JsonView::Str(command),
            )
            &&& occurrences(members, "payload"@) <= 1 && payload == as_kept(
                member(members, "payload"@),
            )
        },
{
    lemma_occurs(members, "id"@);
    lemma_occurs(members, "command"@);
    let json = JsonView::Object(members);
    assert(field(json, "id"@, 0) == member(members, "id"@));
    assert(field(json, "command"@, 1) == member(members, "command"@));
    assert(field(json, "payload"@, 2) == member(members, "payload"@));
}

proof fn lemma_occurs(members: Seq<(Seq<char>, JsonView)>, name: Seq<char>)
    ensures
        member(members, name) is Some <==> occurrences(members, name) > 0,
    decreases members.len(),
{
    if members.len() > 0 {
        lemma_occurs(members.drop_last(), name);
    }
}

/// An event is read by name.
pub proof fn law_event_is_read_by_name(
    members: Seq<(Seq<char>, JsonView)>,
    id: Seq<char>,
    event: Seq<char>,
    data: Option<JsonView>,
)
    ensures
        event_of(JsonView::Object(members)) == Some(EventView { id, event, data }) <==> {
            &&& occurrences(members, "id"@) == 1 && member(members, "id"@) == Some(JsonView::Str(id))
            &&& occurrences(members, "event"@) == 1 && member(members, "event"@) == Some(
                JsonView::Str(event),
            )
            &&& occurrences(members, "data"@) <= 1 && data == as_kept(member(members, "data"@))
        },
{
    lemma_occurs(members, "id"@);
    lemma_occurs(members, "event"@);
    let json = JsonView::Object(members);
    assert(field(json, "id"@, 0) == member(members, "id"@));
    assert(field(json, "event"@, 1) == member(members, "event"@));
    assert(field(json, "data"@, 2) == member(members, "data"@));
}

/// A stream is read by name, its bytes out of an array of numbers below 256.
pub proof fn law_stream_is_read_by_name(
    members: Seq<(Seq<char>, JsonView)>,
    id: Seq<char>,
    tag: Seq<char>,
    bytes: Seq<u8>,
    data: Option<JsonView>,
)
    ensures
        stream_of(JsonView::Object(members)) == Some(StreamView { id, tag, bytes, data }) <==> {
            &&& occurrences(members, "id"@) == 1 && member(members, "id"@) == Some(JsonView::Str(id))
            &&& occurrences(members, "tag"@) == 1 && member(members, "tag"@) == Some(
                JsonView::Str(tag),
            )
            &&& occurrences(members, "bytes"@) == 1 && (member(members, "bytes"@) matches Some(
                JsonView::Array(values),
            ) && values.len() == bytes.len() && forall|i: int|
                0 <= i < values.len() ==> #[trigger] values[i] == JsonView::Uint(bytes[i] as u64))
            &&& occurrences(members, "data"@) <= 1 && data == as_kept(member(members, "data"@))
        },
{
    lemma_occurs(members, "id"@);
    lemma_occurs(members, "tag"@);
    lemma_occurs(members, "bytes"@);
    let json = JsonView::Object(members);
    assert(field(json, "id"@, 0) == member(members, "id"@));
    assert(field(json, "tag"@, 1) == member(members, "tag"@));
    assert(field(json, "bytes"@, 2) == member(members, "bytes"@));
    assert(field(json, "data"@, 3) == member(members, "data"@));
    if let Some(JsonView::Array(values)) = member(members, "bytes"@) {
        let read = values.map_values(|v: JsonView| v->Uint_0 as u8);
        if values.len() == bytes.len() && (forall|i: int|
            0 <= i < values.len() ==> #[trigger] values[i] == JsonView::Uint(bytes[i] as u64)) {
            assert forall|i: int| 0 <= i < values.len() implies (
            #[trigger] values[i] matches JsonView::Uint(n) && n <= 255) by {}
            assert(read =~= bytes);
        }
        if as_bytes(Some(JsonView::Array(values))) == Some(bytes) {
            assert forall|i: int| 0 <= i < values.len() implies #[trigger] values[i]
                == JsonView::Uint(bytes[i] as u64) by {
                assert(values[i] matches JsonView::Uint(n) && n <= 255);
                assert(read[i] == values[i]->Uint_0 as u8);
            }
        }
    }
}

/// A response is read by name: its code is a number of 32 bits, its message a text, and both may be
/// left out.
pub proof fn law_response_is_read_by_name(
    members: Seq<(Seq<char>, JsonView)>,
    id: Seq<char>,
    code: Option<i32>,
    msg: Option<Seq<char>>,
    data: Option<JsonView>,
)
    ensures
        response_of(JsonView::Object(members)) == Some(ResponseView { id, code, msg, data }) <==> {
            &&& occurrences(members, "id"@) == 1 && member(members, "id"@) == Some(JsonView::Str(id))
            &&& occurrences(members, "code"@) <= 1 && match member(members, "code"@) {
                None | Some(JsonView::Null) => code is None,
                Some(JsonView::Uint(n)) => n <= 0x7fff_ffff && code == Some(n as i32),
                Some(JsonView::Int(n)) => -0x8000_0000 <= n <= 0x7fff_ffff && code == Some(n as i32),
                Some(_) => false,
            }
            &&& occurrences(members, "msg"@) <= 1 && match member(members, "msg"@) {
                None | Some(JsonView::Null) => msg is None,
                Some(JsonView::Str(text)) => msg == Some(text),
                Some(_) => false,
            }
            &&& occurrences(members, "data"@) <= 1 && data == as_kept(member(members, "data"@))
        },
{
    lemma_occurs(members, "id"@);
    let json = JsonView::Object(members);
    assert(field(json, "id"@, 0) == member(members, "id"@));
    assert(field(json, "code"@, 1) == member(members, "code"@));
    assert(field(json, "msg"@, 2) == member(members, "msg"@));
    assert(field(json, "data"@, 3) == member(members, "data"@));
}

/// A message is an object with one member, whose name is the kind and whose value is read as such;
/// nothing else is a message.
pub proof fn law_message_is_read_by_its_kind(kind: Seq<char>, body: JsonView, json: JsonView)
    ensures
        app_message_of(JsonView::Object(seq![("Request"@, body)])) == (match request_of(body) {
            Some(request) => Some(AppMessageView::Request(request)),
            None => None,
        }),
        app_message_of(JsonView::Object(seq![("Response"@, body)])) == (match response_of(body) {
            Some(response) => Some(AppMessageView::Response(response)),
            None => None,
        }),
        app_message_of(JsonView::Object(seq![("Event"@, body)])) == (match event_of(body) {
            Some(event) => Some(AppMessageView::Event(event)),
            None => None,
        }),
        app_message_of(JsonView::Object(seq![("Stream"@, body)])) == (match stream_of(body) {
            Some(stream) => Some(AppMessageView::Stream(stream)),
            None => None,
        }),
        kind != "Request"@ && kind != "Response"@ && kind != "Event"@ && kind != "Stream"@
            ==> app_message_of(JsonView::Object(seq![(kind, body)])) is None,
        app_message_of(json) is Some ==> json is Object && json->Object_0.len() == 1,
{
    lemma_kinds_differ();
}

/// Messages may also be written as arrays of their fields.
pub proof fn law_message_is_read_by_place(
    id: Seq<char>,
    name: Seq<char>,
    bytes: Seq<u8>,
    attached: JsonView,
)
    ensures
        request_of(
            JsonView::Array(seq![JsonView::Str(id), JsonView::Str(name), attached]),
        ) == Some(RequestView { id, command: name, payload: as_kept(Some(attached)) }),
        event_of(JsonView::Array(seq![JsonView::Str(id), JsonView::Str(name), attached])) == Some(
            EventView { id, event: name, data: as_kept(Some(attached)) },
        ),
        stream_of(
            JsonView::Array(
                seq![
                    JsonView::Str(id),
                    JsonView::Str(name),
                    JsonView::Array(bytes.map_values(|b: u8| JsonView::Uint(b as u64))),
                    attached,
                ],
            ),
        ) == Some(StreamView { id, tag: name, bytes, data: as_kept(Some(attached)) }),
{
    let values = bytes.map_values(|b: u8| JsonView::Uint(b as u64));
    assert(values.map_values(|v: JsonView| v->Uint_0 as u8) =~= bytes);
}

/// Messages are written with their fields in order, those that may be left out only where there is
/// something to write; only a missing payload is written as `null`.
pub proof fn law_fields_are_written_in_order(
    request: RequestView,
    event: EventView,
    stream: StreamView,
    response: ResponseView,
)
    ensures
        request_json(request) == JsonView::Object(
            seq![
                ("id"@, JsonView::Str(request.id)),
                ("command"@, JsonView::Str(request.command)),
                (
                    "payload"@,
                    if request.payload is None {
                        JsonView::Null
                    } else {
                        settled(request.payload->0)
                    },
                ),
            ],
        ),
        event.data is None ==> event_json(event) == JsonView::Object(
            seq![("id"@, JsonView::Str(event.id)), ("event"@, JsonView::Str(event.event))],
        ),
        event.data matches Some(data) ==> event_json(event) == JsonView::Object(
            seq![
                ("id"@, JsonView::Str(event.id)),
                ("event"@, JsonView::Str(event.event)),
                ("data"@, settled(data)),
            ],
        ),
        stream_json(stream) is Object,
        ({
            let members = stream_json(stream)->Object_0;
            &&& members[0] == ("id"@, JsonView::Str(stream.id))
            &&& members[1] == ("tag"@, JsonView::Str(stream.tag))
            &&& members[2].0 == "bytes"@
            &&& members[2].1 matches JsonView::Array(values) && values.len() == stream.bytes.len()
                && forall|i: int|
                0 <= i < values.len() ==> #[trigger] values[i] == JsonView::Uint(
                    stream.bytes[i] as u64,
                )
            &&& stream.data is None ==> members.len() == 3
            &&& stream.data matches Some(data) ==> members.len() == 4 && members[3] == (
                "data"@,
                settled(data),
            )
        }),
        response_json(response) is Object,
        ({
            let members = response_json(response)->Object_0;
            let (code, msg, data) = (
                if response.code is Some {
                    1int
                } else {
                    0int
                },
                if response.msg is Some {
                    1int
                } else {
                    0int
                },
                if response.data is Some {
                    1int
                } else {
                    0int
                },
            );
            &&& members.len() == 1 + code + msg + data
            &&& members[0] == ("id"@, JsonView::Str(response.id))
            &&& response.code matches Some(n) ==> members[1] == (
                "code"@,
                if n >= 0 {
                    JsonView::Uint(n as u64)
                } else {
                    JsonView::Int(n as i64)
                },
            )
            &&& response.msg matches Some(text) ==> members[1 + code] == ("msg"@, JsonView::Str(text))
            &&& response.data matches Some(json) ==> members[1 + code + msg] == (
                "data"@,
                settled(json),
            )
        }),
{
    assert(request_json(request)->Object_0 =~= seq![
        ("id"@, JsonView::Str(request.id)),
        ("command"@, JsonView::Str(request.command)),
        (
            "payload"@,
            if request.payload is None {
                JsonView::Null
            } else {
                settled(request.payload->0)
            },
        ),
    ]);
    assert(event_json(event)->Object_0 =~= if event.data is None {
        seq![("id"@, JsonView::Str(event.id)), ("event"@, JsonView::Str(event.event))]
    } else {
        seq![
            ("id"@, JsonView::Str(event.id)),
            ("event"@, JsonView::Str(event.event)),
            ("data"@, settled(event.data->0)),
        ]
    });
}

/// A message is written under the name of its kind.
pub proof fn law_message_is_written_under_its_kind(
    request: RequestView,
    event: EventView,
    stream: StreamView,
    response: ResponseView,
)
    ensures
        app_message_json(AppMessageView::Request(request)) == JsonView::Object(
            seq![("Request"@, request_json(request))],
        ),
        app_message_json(AppMessageView::Event(event)) == JsonView::Object(
            seq![("Event"@, event_json(event))],
        ),
        app_message_json(AppMessageView::Stream(stream)) == JsonView::Object(
            seq![("Stream"@, stream_json(stream))],
        ),
        app_message_json(AppMessageView::Response(response)) == JsonView::Object(
            seq![("Response"@, response_json(response))],
        ),
{
}

/// What is made of given parts has these parts: nothing is left out, cut off or added but a fresh id.
pub proof fn law_messages_have_their_parts(
    name: &str,
    other: &str,
    bytes: Vec<u8>,
    data: Option<Json>,
    value: Json,
    stream: Stream,
    event: Event,
    response: Response,
)
    ensures
        call_ensures(Stream::new, (name, bytes, data), stream) ==> stream.tag@ == name@ && stream.bytes@
            == bytes@ && stream.data == data && is_uuid_v4(stream.id@),
        call_ensures(Event::new, (name, data), event) ==> event.event@ == name@ && event.data == data
            && is_uuid_v4(event.id@),
        call_ensures(Response::success, (), response) ==> response.code == Some(0i32) && opt_text(
            response.msg,
        ) == Some("success"@) && response.data is None,
        call_ensures(Response::success_msg, (name,), response) ==> response.code == Some(0i32)
            && opt_text(response.msg) == Some(name@) && response.data is None,
        call_ensures(Response::from_data, (value,), response) ==> response.code is None
            && response.msg is None && opt_json(response.data) == Some(value@),
        call_ensures(Response::from_error, (name, other), response) ==> response.id@ == name@
            && response.code == Some(-1i32) && opt_text(response.msg) == Some(other@)
            && response.data is None,
{
}

/// Messages are written and read as their fields; see the laws about each kind.
pub proof fn law_messages_are_written_and_read(
    json: &Json,
    written: Json,
    messages: (Request, Response, Event, Stream, AppMessage),
    read: (Option<Request>, Option<Response>, Option<Event>, Option<Stream>, Option<AppMessage>),
)
    ensures
        call_ensures(Request::to_value, (&messages.0,), written) ==> written@ == request_json(
            messages.0@,
        ),
        call_ensures(Response::to_value, (&messages.1,), written) ==> written@ == response_json(
            messages.1@,
        ),
        call_ensures(Event::to_value, (&messages.2,), written) ==> written@ == event_json(messages.2@),
        call_ensures(Stream::to_value, (&messages.3,), written) ==> written@ == stream_json(messages.3@),
        call_ensures(AppMessage::to_value, (&messages.4,), written) ==> written@ == app_message_json(
            messages.4@,
        ),
        call_ensures(Request::from_value, (json,), read.0) ==> (match read.0 {
            Some(request) => Some(request@),
            None => None,
        }) == request_of(json@),
        call_ensures(Response::from_value, (json,), read.1) ==> (match read.1 {
            Some(response) => Some(response@),
            None => None,
        }) == response_of(json@),
        call_ensures(Event::from_value, (json,), read.2) ==> (match read.2 {
            Some(event) => Some(event@),
            None => None,
        }) == event_of(json@),
        call_ensures(Stream::from_value, (json,), read.3) ==> (match read.3 {
            Some(stream) => Some(stream@),
            None => None,
        }) == stream_of(json@),
        call_ensures(AppMessage::from_value, (json,), read.4) ==> (match read.4 {
            Some(message) => Some(message@),
            None => None,
        }) == app_message_of(json@),
{
}

/// The fields that have to be read of a message are those that it is made of.
pub proof fn law_fields_that_have_to_be_read(kind: &str, name: &str, r: bool)
    requires
        call_ensures(has_field, (kind, name), r),
    ensures
        kind@ == "Request"@ && (name@ == "id"@ || name@ == "command"@ || name@ == "payload"@) ==> r,
        kind@ == "Response"@ && (name@ == "id"@ || name@ == "code"@ || name@ == "msg"@ || name@
            == "data"@) ==> r,
        kind@ == "Event"@ && (name@ == "id"@ || name@ == "event"@ || name@ == "data"@) ==> r,
        kind@ == "Stream"@ && (name@ == "id"@ || name@ == "tag"@ || name@ == "bytes"@ || name@
            == "data"@) ==> r,
        kind@ != "Request"@ && kind@ != "Response"@ && kind@ != "Event"@ && kind@ != "Stream"@ ==> !r,
{
}

} // verus!
