//! The instructions of the assistant: its log, and what is reported of it.

use crate::protocol::data::{is_uuid_v4, AppMessage, Event};
use crate::protocol::json::{
    law_contents_have_the_shape_of_the_value, member_views, Json, JsonView,
};
use crate::protocol::router::announce;
use crate::transport::control::OutboundTarget;
use vstd::prelude::*;

verus! {

/// What happened to the instruction log.
#[derive(Debug, Clone, PartialEq, Eq)]
pub enum FileMonitorEvent {
    /// It begins anew.
    NewFile,
    /// It has a new line.
    NewLine(String),
}

/// A [`FileMonitorEvent`] as a value.
pub enum FileEventView {
    NewFile,
    NewLine(Seq<char>),
}

impl View for FileMonitorEvent {
    type V = FileEventView;

    open spec fn view(&self) -> FileEventView {
        match self {
            FileMonitorEvent::NewFile => FileEventView::NewFile,
            FileMonitorEvent::NewLine(line) => FileEventView::NewLine(line@),
        }
    }
}

/// How an event is written.
pub open spec fn file_event_json(event: FileEventView) -> JsonView {
    match event {
        FileEventView::NewFile => JsonView::Str("NewFile"@),
        FileEventView::NewLine(line) => JsonView::Object(seq![("NewLine"@, JsonView::Str(line))]),
    }
}

impl FileMonitorEvent {
    /// The event as JSON.
    pub fn to_value(&self) -> (r: Json)
        ensures
            r@ == file_event_json(self@),
    {
        match self {
            FileMonitorEvent::NewFile => Json::Str("NewFile".to_string()),
            FileMonitorEvent::NewLine(line) => {
                let mut members: Vec<(String, Json)> = Vec::new();
                members.push(("NewLine".to_string(), Json::Str(line.clone())));
                assert(member_views(members@) =~= seq![("NewLine"@, JsonView::Str(line@))]);
                Json::Object(members)
            },
        }
    }
}

/// Which dialog a line of the log belongs to, and what it is.
#[derive(Debug, Clone, PartialEq, Eq)]
pub struct Header {
    pub dialog_id: String,
    pub id: String,
    pub name: String,
    pub namespace: String,
}

/// The tone in which something is said.
#[derive(Debug, Clone, PartialEq, Eq)]
pub struct Emotion {
    pub category: String,
    pub level: String,
}

/// Something to be played.
#[derive(Debug, Clone, PartialEq, Eq)]
pub struct AudioItem {
    pub item_id: ItemId,
    pub log: Log,
    pub stream: Stream,
}

/// What a thing to be played is called by its provider.
#[derive(Debug, Clone, PartialEq, Eq)]
pub struct ItemId {
    pub audio_id: String,
    pub cp: Cp,
}

/// A provider of things to be played.
#[derive(Debug, Clone, PartialEq, Eq)]
pub struct Cp {
    pub id: String,
    pub name: String,
}

/// How playing something is accounted for.
#[derive(Debug, Clone, PartialEq, Eq)]
pub struct Log {
    pub eid: String,
    pub refer: String,
}

/// Where something to be played is found.
#[derive(Debug, Clone, PartialEq, Eq)]
pub struct Stream {
    pub authentication: bool,
    pub duration_in_ms: u64,
    pub offset_in_ms: u64,
    pub url: String,
}

/// The file that is watched.
pub fn instruction_file_path() -> (r: String)
    ensures
        r@ == "/tmp/mico_aivs_lab/instruction.log"@,
{
    "/tmp/mico_aivs_lab/instruction.log".to_string()
}

/// The message that reports an event.
pub fn instruction_event(event: &FileMonitorEvent) -> (r: Event)
    ensures
        is_uuid_v4(r.id@),
        r@.event == "instruction"@,
        r@.data == Some(file_event_json(event@)),
{
    Event::new("instruction", Some(event.to_value()))
}

/// What everyone is told when the log begins anew.
pub fn on_reset() -> (r: (OutboundTarget, AppMessage))
    ensures
        r.0 == OutboundTarget::Broadcast,
        r.1 matches AppMessage::Event(event) && is_uuid_v4(event.id@) && event@.event
            == "instruction"@ && event@.data == Some(JsonView::Str("NewFile"@)),
{
    announce(instruction_event(&FileMonitorEvent::NewFile))
}

/// What everyone is told of a new line: the line as it is, whatever it says.
pub fn on_line(line: &str) -> (r: (OutboundTarget, AppMessage))
    ensures
        r.0 == OutboundTarget::Broadcast,
        r.1 matches AppMessage::Event(event) && is_uuid_v4(event.id@) && event@.event
            == "instruction"@ && event@.data == Some(
            JsonView::Object(seq![("NewLine"@, JsonView::Str(line@))]),
        ),
{
    announce(instruction_event(&FileMonitorEvent::NewLine(line.to_string())))
}

/// A new line of the log is written with the line as it is under its name.
pub proof fn law_instruction_as_json(event: FileMonitorEvent, json: Json)
    requires
        json@ == file_event_json(event@),
    ensures
        event is NewFile ==> (json matches Json::Str(name) && name@ == "NewFile"@),
        event matches FileMonitorEvent::NewLine(line) ==> (json matches Json::Object(members)
            && members@.len() == 1 && members@[0].0@ == "NewLine"@ && (members@[0].1 matches Json::Str(
            text,
        ) && text@ == line@)),
{
    law_contents_have_the_shape_of_the_value(json);
    if let Json::Object(members) = json {
        if members@.len() > 0 {
            law_contents_have_the_shape_of_the_value(members@[0].1);
            assert(json@->Object_0[0].0 == members@[0].0@);
        }
    }
}

/// Everyone is told of every line as it is, and of every new beginning.
pub proof fn law_everyone_is_told_of_every_line(
    line: &str,
    report: (OutboundTarget, AppMessage),
    reset: (OutboundTarget, AppMessage),
    event: &FileMonitorEvent,
    message: Event,
    json: Json,
)
    ensures
        call_ensures(on_line, (line,), report) ==> report.0 == OutboundTarget::Broadcast && (
        report.1 matches AppMessage::Event(told) && told.event@ == "instruction"@ && told@.data == Some(
            JsonView::Object(seq![("NewLine"@, JsonView::Str(line@))]),
        )),
        call_ensures(on_reset, (), reset) ==> reset.0 == OutboundTarget::Broadcast && (
        reset.1 matches AppMessage::Event(told) && told.event@ == "instruction"@ && told@.data == Some(
            JsonView::Str("NewFile"@),
        )),
        call_ensures(instruction_event, (event,), message) ==> message.event@ == "instruction"@
            && message@.data == Some(file_event_json(event@)),
        call_ensures(FileMonitorEvent::to_value, (event,), json) ==> json@ == file_event_json(event@),
{
}

/// The instructions are read from their file.
pub proof fn law_file_of_the_instructions(r: String)
    requires
        call_ensures(instruction_file_path, (), r),
    ensures
        r@ == "/tmp/mico_aivs_lab/instruction.log"@,
{
}

} // verus!
