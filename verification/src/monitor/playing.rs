//! Whether something is being played, and what is reported of it.

use crate::protocol::data::{is_uuid_v4, AppMessage, Event};
use crate::protocol::json::{
    as_optional, as_text, field, is_record, law_contents_have_the_shape_of_the_value,
    law_member_of_an_object, member, names, names_once, occurrences, opt_json, Json, JsonView,
};
use crate::protocol::router::announce;
use crate::shell::command::CommandResult;
use crate::text::{contains, has, same, signed_decimal, signed_decimal_of, trim, trimmed};
use crate::transport::control::OutboundTarget;
use vstd::prelude::*;

verus! {

/// How long to rest before a listener that ended is started again, in seconds.
pub const LISTENER_RESTART_DELAY_SECS: u64 = 1;

/// The event that is listened to.
pub fn play_status_event_name() -> (r: String)
    ensures
        r@ == "play_status_broadcast_event"@,
{
    "play_status_broadcast_event".to_string()
}

/// The script that asks for the state.
pub fn play_status_query_command() -> (r: String)
    ensures
        r@ == "ubus -t 5 call mediaplayer player_play_status"@,
{
    "ubus -t 5 call mediaplayer player_play_status".to_string()
}

/// The name of a state: 1 is playing, 2 is paused, and anything else is idle.
pub open spec fn state_name(status: i64) -> Seq<char> {
    if status == 1 {
        "Playing"@
    } else if status == 2 {
        "Paused"@
    } else {
        "Idle"@
    }
}

/// See [`state_name`].
pub fn map_status_to_playing_state(status: i64) -> (r: String)
    ensures
        r@ == state_name(status),
{
    if status == 1 {
        "Playing".to_string()
    } else if status == 2 {
        "Paused".to_string()
    } else {
        "Idle".to_string()
    }
}

/// A field that has to be a 64 bit integer.
pub open spec fn as_i64(field: Option<JsonView>) -> Option<i64> {
    match field {
        Some(JsonView::Uint(n)) => if n <= i64::MAX {
            Some(n as i64)
        } else {
            None
        },
        Some(JsonView::Int(n)) => Some(n),
        _ => None,
    }
}

fn i64_field(json: &Json, name: &str, position: usize) -> (r: Option<i64>)
    ensures
        r == as_i64(field(json@, name@, position as int)),
{
    match json.field(name, position) {
        Some(Json::Uint(n)) => {
            if *n <= 0x7fff_ffff_ffff_ffff {
                Some(*n as i64)
            } else {
                None
            }
        },
        Some(Json::Int(n)) => Some(*n),
        _ => None,
    }
}

/// The answer to the question for the state: a code, and a text that holds the
/// state as JSON of its own.
pub open spec fn status_response(json: JsonView) -> Option<(i64, Seq<char>)> {
    let code = as_i64(field(json, "code"@, 0));
    let info = as_text(field(json, "info"@, 1));
    if is_record(json, 2, 2) && names_once(json, "code"@) && names_once(json, "info"@) && code
        is Some && info is Some {
        Some((code->0, info->0))
    } else {
        None
    }
}

/// The state that the inner JSON holds.
pub open spec fn status_info(json: JsonView) -> Option<i64> {
    if is_record(json, 1, 1) && names_once(json, "status"@) {
        as_i64(field(json, "status"@, 0))
    } else {
        None
    }
}

/// Why the state is not known.
#[derive(Debug, PartialEq, Eq)]
pub enum PlayStatusError {
    /// The script failed.
    Exit { exit_code: i32, stdout: String, stderr: String },
    /// What the script printed is not an answer, for this reason.
    Outer { reason: String, stdout: String },
    /// The answer has a code other than 0.
    Code { code: i64, info: String },
    /// What the answer holds is not a state, for this reason.
    Inner { reason: String, info: String },
}

/// The text of an error.
pub open spec fn status_error_text(err: PlayStatusError) -> Seq<char> {
    match err {
        PlayStatusError::Exit { exit_code, stdout, stderr } =>
            "`ubus -t 5 call mediaplayer player_play_status` exited with code "@ + signed_decimal(
            exit_code as int,
        ) + ": stdout="@ + stdout@ + ", stderr="@ + stderr@,
        PlayStatusError::Outer { reason, stdout } =>
            "failed to parse outer player_play_status response: "@ + reason@ + "; stdout="@
            + stdout@,
        PlayStatusError::Code { code, info } => "player_play_status returned non-zero code "@
            + signed_decimal(code as int) + ": info="@ + info@,
        PlayStatusError::Inner { reason, info } =>
            "failed to parse inner player_play_status info: "@ + reason@ + "; info="@ + info@,
    }
}

impl PlayStatusError {
    /// See [`status_error_text`].
    pub fn message(&self) -> (r: String)
        ensures
            r@ == status_error_text(*self),
    {
        match self {
            PlayStatusError::Exit { exit_code, stdout, stderr } => {
                let mut text =
                    "`ubus -t 5 call mediaplayer player_play_status` exited with code ".to_string();
                text.append(signed_decimal_of(*exit_code as i64).as_str());
                text.append(": stdout=");
                text.append(stdout.as_str());
                text.append(", stderr=");
                text.append(stderr.as_str());
                text
            },
            PlayStatusError::Outer { reason, stdout } => {
                let mut text = "failed to parse outer player_play_status response: ".to_string();
                text.append(reason.as_str());
                text.append("; stdout=");
                text.append(stdout.as_str());
                text
            },
            PlayStatusError::Code { code, info } => {
                let mut text = "player_play_status returned non-zero code ".to_string();
                text.append(signed_decimal_of(*code).as_str());
                text.append(": info=");
                text.append(info.as_str());
                text
            },
            PlayStatusError::Inner { reason, info } => {
                let mut text = "failed to parse inner player_play_status info: ".to_string();
                text.append(reason.as_str());
                text.append("; info=");
                text.append(info.as_str());
                text
            },
        }
    }
}

/// The text that is to be read as the answer: what the script printed, if it
/// succeeded.
pub fn query_output(result: &CommandResult) -> (r: Result<String, PlayStatusError>)
    ensures
        r is Ok <==> result.exit_code == 0,
        r matches Ok(stdout) ==> stdout@ == trim(result.stdout@),
        r matches Err(err) ==> (err matches PlayStatusError::Exit { exit_code, stdout, stderr }
            && exit_code == result.exit_code && stdout@ == trim(result.stdout@) && stderr@ == trim(
            result.stderr@,
        )),
{
    let stdout = trimmed(result.stdout.as_str());
    if result.exit_code != 0 {
        return Err(
            PlayStatusError::Exit {
                exit_code: result.exit_code,
                stdout,
                stderr: trimmed(result.stderr.as_str()),
            },
        );
    }
    Ok(stdout)
}

/// What comes of an answer: the text of its inner JSON. `json` is the answer, if it
/// is JSON; `refusal` is what its parser says against a text that is no answer;
/// `stdout` is its text.
pub open spec fn response_read(
    stdout: Seq<char>,
    json: Option<JsonView>,
    refusal: Seq<char>,
    r: Result<String, PlayStatusError>,
) -> bool {
    let response = match json {
        Some(json) => status_response(json),
        None => None,
    };
    match response {
        None => r matches Err(PlayStatusError::Outer { reason, stdout: text }) && reason@ == refusal
            && text@ == trim(stdout),
        Some((code, info)) => if code != 0 {
            r matches Err(PlayStatusError::Code { code: c, info: text }) && c == code && text@
                == info
        } else {
            r matches Ok(text) && text@ == info
        },
    }
}

/// What comes of the inner JSON of an answer: the state. `json` is that JSON, if it
/// is any; `refusal` is what its parser says against a text that holds no state;
/// `info` is its text.
pub open spec fn info_read(
    info: Seq<char>,
    json: Option<JsonView>,
    refusal: Seq<char>,
    r: Result<i64, PlayStatusError>,
) -> bool {
    let status = match json {
        Some(json) => status_info(json),
        None => None,
    };
    match status {
        None => r matches Err(PlayStatusError::Inner { reason, info: text }) && reason@ == refusal
            && text@ == info,
        Some(status) => r == Ok::<i64, PlayStatusError>(status),
    }
}

/// The inner JSON of an answer, as text; see [`response_read`].
pub fn read_status_response(stdout: &str, outer: Option<Json>, refusal: &str) -> (r: Result<
    String,
    PlayStatusError,
>)
    ensures
        response_read(stdout@, opt_json(outer), refusal@, r),
{
    if let Some(json) = outer {
        if json.is_record(2, 2) && json.names_once("code") && json.names_once("info") {
            if let (Some(code), Some(info)) = (
                i64_field(&json, "code", 0),
                json.text_field("info", 1),
            ) {
                if code != 0 {
                    return Err(PlayStatusError::Code { code, info });
                }
                return Ok(info);
            }
        }
    }
    Err(PlayStatusError::Outer { reason: refusal.to_string(), stdout: trimmed(stdout) })
}

/// The state out of the inner JSON of an answer; see [`info_read`].
pub fn read_status_info(info: &str, inner: Option<Json>, refusal: &str) -> (r: Result<
    i64,
    PlayStatusError,
>)
    ensures
        info_read(info@, opt_json(inner), refusal@, r),
{
    if let Some(json) = inner {
        if json.is_record(1, 1) && json.names_once("status") {
            if let Some(status) = i64_field(&json, "status", 0) {
                return Ok(status);
            }
        }
    }
    Err(PlayStatusError::Inner { reason: refusal.to_string(), info: info.to_string() })
}

/// The state out of an answer whose two layers were read as JSON, each with what
/// its parser says against it. The inner layer only counts where the outer one has
/// a text for it.
pub fn parse_player_play_status_output(
    stdout: &str,
    outer: (Option<Json>, &str),
    inner: (Option<Json>, &str),
) -> (r: Result<i64, PlayStatusError>)
    ensures
        match opt_json(outer.0) {
            Some(json) => match status_response(json) {
                Some((code, info)) => if code == 0 {
                    info_read(info, opt_json(inner.0), inner.1@, r)
                } else {
                    r matches Err(PlayStatusError::Code { code: c, info: text }) && c == code
                        && text@ == info
                },
                None => r matches Err(PlayStatusError::Outer { reason, stdout: text }) && reason@
                    == outer.1@ && text@ == trim(stdout@),
            },
            None => r matches Err(PlayStatusError::Outer { reason, stdout: text }) && reason@
                == outer.1@ && text@ == trim(stdout@),
        },
{
    match read_status_response(stdout, outer.0, outer.1) {
        Ok(info) => read_status_info(info.as_str(), inner.0, inner.1),
        Err(err) => Err(err),
    }
}

/// Whether a value is the body of a broadcast: a record whose state, if it has
/// one, is an integer.
pub open spec fn is_broadcast_payload(json: JsonView) -> bool {
    let status = field(json, "status"@, 0);
    is_record(json, 1, 1) && names_once(json, "status"@) && (as_optional(status) is None || as_i64(
        status,
    ) is Some)
}

/// Whether a value has the shape of a broadcast, of this event or of another.
pub open spec fn is_envelope(json: JsonView) -> bool {
    let event = as_optional(field(json, "play_status_broadcast_event"@, 0));
    is_record(json, 0, 1) && names_once(json, "play_status_broadcast_event"@) && (event
        matches Some(payload) ==> is_broadcast_payload(payload))
}

/// Whether a line announces a change of state: as JSON it has the event; a line
/// that cannot be read as such counts if it names the event.
pub open spec fn announces(line: Seq<char>, json: Option<JsonView>) -> bool {
    match json {
        Some(json) => if is_envelope(json) {
            as_optional(field(json, "play_status_broadcast_event"@, 0)) is Some
        } else {
            contains(line, "play_status_broadcast_event"@)
        },
        None => contains(line, "play_status_broadcast_event"@),
    }
}

fn is_payload(json: &Json) -> (r: bool)
    ensures
        r == is_broadcast_payload(json@),
{
    if !json.is_record(1, 1) || !json.names_once("status") {
        return false;
    }
    match json.field("status", 0) {
        None => true,
        Some(Json::Null) => true,
        Some(_) => i64_field(json, "status", 0).is_some(),
    }
}

/// See [`announces`]; `parsed` is the line as JSON, if it is any.
pub fn is_play_status_broadcast_event_line(line: &str, parsed: Option<Json>) -> (r: bool)
    ensures
        r == announces(line@, opt_json(parsed)),
{
    if let Some(json) = parsed {
        if json.is_record(0, 1) && json.names_once("play_status_broadcast_event") {
            match json.field("play_status_broadcast_event", 0) {
                None => {
                    return false;
                },
                Some(Json::Null) => {
                    return false;
                },
                Some(payload) => {
                    if is_payload(payload) {
                        return true;
                    }
                },
            }
        }
    }
    has(line, "play_status_broadcast_event")
}

/// The message that reports a state.
pub fn playing_event(state: &str) -> (r: Event)
    ensures
        is_uuid_v4(r.id@),
        r@.event == "playing"@,
        r@.data == Some(JsonView::Str(state@)),
{
    Event::new("playing", Some(Json::Str(state.to_string())))
}

/// Whether a message tells everyone of a state.
pub open spec fn reports_state(r: (OutboundTarget, AppMessage), state: Seq<char>) -> bool {
    r.0 == OutboundTarget::Broadcast && (r.1 matches AppMessage::Event(event) && is_uuid_v4(
        event.id@,
    ) && event@.event == "playing"@ && event@.data == Some(JsonView::Str(state)))
}

/// Reports a state to everyone, but only if it is not the one that was reported
/// last.
pub fn emit_playing_state_if_changed(last: &mut String, next: &str) -> (r: Option<
    (OutboundTarget, AppMessage),
>)
    ensures
        final(last)@ == next@,
        r is Some <==> old(last)@ != next@,
        r matches Some(report) ==> reports_state(report, next@),
{
    if same(last.as_str(), next) {
        return None;
    }
    *last = next.to_string();
    Some(announce(playing_event(next)))
}

/// Where the monitor stands.
#[derive(Debug, Clone, Copy, PartialEq, Eq, Structural)]
pub enum PlayingPhase {
    /// A listener is about to be started.
    Spawning,
    /// The state is being asked for.
    Querying,
    /// The listener is being read.
    Listening,
    Exited,
}

/// What the monitor met with.
#[derive(Debug, PartialEq, Eq)]
pub enum PlayingEvent {
    /// It was started or has rested.
    Resumed,
    /// Whether a listener was started.
    Spawned(bool),
    /// The state, if it is known.
    Queried(Option<i64>),
    /// A line of the listener, and the line as JSON, if it is any.
    Line { line: String, parsed: Option<Json> },
    /// The listener has ended.
    Ended,
    /// The listener could not be read.
    Failed,
    /// A state could not be reported.
    Unreported,
}

/// What the monitor does next.
#[derive(Debug, PartialEq, Eq)]
pub enum PlayingAction {
    /// Start a listener.
    Spawn,
    /// Ask for the state; `initial` right after a listener was started.
    Query { initial: bool },
    /// Report this, if there is anything to report, and read the next line.
    Listen(Option<(OutboundTarget, AppMessage)>),
    /// End the listener, if `reap` says that there is one, and rest.
    Rest { reap: bool },
    /// End the listener, if `reap` says that there is one, and end; `failed` if
    /// something went wrong.
    Exit { reap: bool, failed: bool },
}

/// Watches whether something is being played: it listens for changes and asks for
/// the state after each, and once in the beginning.
#[derive(Debug, PartialEq, Eq)]
pub struct PlayingMonitor {
    pub phase: PlayingPhase,
    /// The state that was reported last; empty if none was.
    pub last: String,
}

/// Whether `action` is what a monitor does about `event`, and leads to `after`.
pub open spec fn playing_next(
    before: PlayingMonitor,
    event: PlayingEvent,
    shutdown: bool,
    after: PlayingMonitor,
    action: PlayingAction,
) -> bool {
    match event {
        PlayingEvent::Resumed => after.last == before.last && if shutdown {
            after.phase == PlayingPhase::Exited && action == (PlayingAction::Exit {
                reap: false,
                failed: false,
            })
        } else {
            after.phase == PlayingPhase::Spawning && action == PlayingAction::Spawn
        },
        PlayingEvent::Spawned(true) => after.last == before.last && after.phase
            == PlayingPhase::Querying && action == (PlayingAction::Query { initial: true }),
        PlayingEvent::Spawned(false) => after.last == before.last && if shutdown {
            after.phase == PlayingPhase::Exited && action == (PlayingAction::Exit {
                reap: false,
                failed: false,
            })
        } else {
            after.phase == PlayingPhase::Spawning && action == (PlayingAction::Rest { reap: false })
        },
        PlayingEvent::Queried(Some(status)) => {
            &&& after.phase == PlayingPhase::Listening
            &&& after.last@ == state_name(status)
            &&& action matches PlayingAction::Listen(report) && {
                &&& report is Some <==> before.last@ != state_name(status)
                &&& report matches Some(message) ==> reports_state(message, state_name(status))
            }
        },
        PlayingEvent::Queried(None) => after.last == before.last && after.phase
            == PlayingPhase::Listening && action == PlayingAction::Listen(None),
        PlayingEvent::Line { line, parsed } => after.last == before.last && if trim(line@).len()
            > 0 && announces(trim(line@), opt_json(parsed)) {
            after.phase == PlayingPhase::Querying && action == (PlayingAction::Query {
                initial: false,
            })
        } else {
            after.phase == PlayingPhase::Listening && action == PlayingAction::Listen(None)
        },
        PlayingEvent::Ended => after.last == before.last && if shutdown {
            after.phase == PlayingPhase::Exited && action == (PlayingAction::Exit {
                reap: true,
                failed: false,
            })
        } else {
            after.phase == PlayingPhase::Spawning && action == (PlayingAction::Rest { reap: true })
        },
        PlayingEvent::Failed => after.last == before.last && after.phase == PlayingPhase::Exited
            && action == (PlayingAction::Exit { reap: true, failed: true }),
        PlayingEvent::Unreported => after.last == before.last && after.phase == PlayingPhase::Exited
            && action == (PlayingAction::Exit { reap: false, failed: true }),
    }
}

impl PlayingMonitor {
    /// A monitor that has not reported anything.
    pub fn new() -> (r: Self)
        ensures
            r.phase == PlayingPhase::Spawning,
            r.last@ == Seq::<char>::empty(),
    {
        PlayingMonitor { phase: PlayingPhase::Spawning, last: String::new() }
    }

    /// Decides what to do about an event; see [`playing_next`]. `shutdown` tells
    /// whether the monitor was told to end.
    pub fn step(&mut self, event: PlayingEvent, shutdown: bool) -> (r: PlayingAction)
        ensures
            playing_next(*old(self), event, shutdown, *final(self), r),
    {
        match event {
            PlayingEvent::Resumed => {
                if shutdown {
                    self.phase = PlayingPhase::Exited;
                    PlayingAction::Exit { reap: false, failed: false }
                } else {
                    self.phase = PlayingPhase::Spawning;
                    PlayingAction::Spawn
                }
            },
            PlayingEvent::Spawned(true) => {
                self.phase = PlayingPhase::Querying;
                PlayingAction::Query { initial: true }
            },
            PlayingEvent::Spawned(false) => {
                if shutdown {
                    self.phase = PlayingPhase::Exited;
                    PlayingAction::Exit { reap: false, failed: false }
                } else {
                    self.phase = PlayingPhase::Spawning;
                    PlayingAction::Rest { reap: false }
                }
            },
            PlayingEvent::Queried(Some(status)) => {
                self.phase = PlayingPhase::Listening;
                let next = map_status_to_playing_state(status);
                PlayingAction::Listen(emit_playing_state_if_changed(&mut self.last, next.as_str()))
            },
            PlayingEvent::Queried(None) => {
                self.phase = PlayingPhase::Listening;
                PlayingAction::Listen(None)
            },
            PlayingEvent::Line { line, parsed } => {
                let line = trimmed(line.as_str());
                if !line.as_str().is_empty() && is_play_status_broadcast_event_line(
                    line.as_str(),
                    parsed,
                ) {
                    self.phase = PlayingPhase::Querying;
                    PlayingAction::Query { initial: false }
                } else {
                    self.phase = PlayingPhase::Listening;
                    PlayingAction::Listen(None)
                }
            },
            PlayingEvent::Ended => {
                if shutdown {
                    self.phase = PlayingPhase::Exited;
                    PlayingAction::Exit { reap: true, failed: false }
                } else {
                    self.phase = PlayingPhase::Spawning;
                    PlayingAction::Rest { reap: true }
                }
            },
            PlayingEvent::Failed => {
                self.phase = PlayingPhase::Exited;
                PlayingAction::Exit { reap: true, failed: true }
            },
            PlayingEvent::Unreported => {
                self.phase = PlayingPhase::Exited;
                PlayingAction::Exit { reap: false, failed: true }
            },
        }
    }
}

/// A state is reported when it changes and not again while it stays: asking twice
/// in a row for the same state reports at most once.
pub proof fn law_state_is_reported_once(
    before: PlayingMonitor,
    between: PlayingMonitor,
    after: PlayingMonitor,
    status: i64,
    shutdown: bool,
    first: PlayingAction,
    second: PlayingAction,
)
    requires
        playing_next(before, PlayingEvent::Queried(Some(status)), shutdown, between, first),
        playing_next(between, PlayingEvent::Queried(Some(status)), shutdown, after, second),
    ensures
        second == PlayingAction::Listen(None),
        after.last@ == between.last@,
{
}

/// Told to end, a monitor starts no listener and does not rest.
pub proof fn law_stopped_monitor_starts_nothing(
    before: PlayingMonitor,
    event: PlayingEvent,
    after: PlayingMonitor,
    action: PlayingAction,
)
    requires
        playing_next(before, event, true, after, action),
    ensures
        action != PlayingAction::Spawn,
        !(action is Rest),
{
}

/// The message tells everyone that the player is in this state.
pub open spec fn tells_everyone(report: (OutboundTarget, AppMessage), state: Seq<char>) -> bool {
    report.0 == OutboundTarget::Broadcast && (report.1 matches AppMessage::Event(event)
        && event.event@ == "playing"@ && (event.data matches Some(Json::Str(text)) && text@ == state))
}

/// Every change is reported: whatever state was reported last, reading another one tells everyone
/// of it, and reading the same one tells nobody anything. 1 is playing, 2 is paused and every
/// other number is idle.
pub proof fn law_every_change_is_reported(
    before: PlayingMonitor,
    status: i64,
    shutdown: bool,
    after: PlayingMonitor,
    action: PlayingAction,
    name: Seq<char>,
)
    requires
        playing_next(before, PlayingEvent::Queried(Some(status)), shutdown, after, action),
        status == 1 ==> name == "Playing"@,
        status == 2 ==> name == "Paused"@,
        status != 1 && status != 2 ==> name == "Idle"@,
    ensures
        after.last@ == name,
        before.last@ != name ==> (action matches PlayingAction::Listen(Some(report))
            && tells_everyone(report, name)),
        before.last@ == name ==> action == PlayingAction::Listen(None),
{
    if let PlayingAction::Listen(Some((_, AppMessage::Event(event)))) = action {
        if let Some(json) = event.data {
            law_contents_have_the_shape_of_the_value(json);
        }
    }
}

/// Reading one state and then another reports the second.
pub proof fn law_second_state_is_reported(
    before: PlayingMonitor,
    first: i64,
    between: PlayingMonitor,
    second: i64,
    after: PlayingMonitor,
    actions: (PlayingAction, PlayingAction),
)
    requires
        playing_next(before, PlayingEvent::Queried(Some(first)), false, between, actions.0),
        playing_next(between, PlayingEvent::Queried(Some(second)), false, after, actions.1),
        first != second,
        first == 1 || first == 2 || second == 1 || second == 2,
    ensures
        actions.1 matches PlayingAction::Listen(Some(report)) && (second == 1 ==> tells_everyone(
            report,
            "Playing"@,
        )) && (second == 2 ==> tells_everyone(report, "Paused"@)) && (second != 1 && second != 2
            ==> tells_everyone(report, "Idle"@)),
{
    reveal_strlit("Playing");
    reveal_strlit("Paused");
    reveal_strlit("Idle");
    assert("Playing"@.len() == 7 && "Paused"@.len() == 6 && "Idle"@.len() == 4);
    let name = |status: i64|
        if status == 1 {
            "Playing"@
        } else if status == 2 {
            "Paused"@
        } else {
            "Idle"@
        };
    law_every_change_is_reported(before, first, false, between, actions.0, name(first));
    law_every_change_is_reported(between, second, false, after, actions.1, name(second));
}

/// The state that was reported last is forgotten by nothing but another one: no other event
/// changes it or reports anything.
pub proof fn law_only_a_reading_changes_the_state(
    before: PlayingMonitor,
    event: PlayingEvent,
    shutdown: bool,
    after: PlayingMonitor,
    action: PlayingAction,
)
    requires
        playing_next(before, event, shutdown, after, action),
        !(event matches PlayingEvent::Queried(Some(_))),
    ensures
        after.last@ == before.last@,
        !(action matches PlayingAction::Listen(Some(_))),
{
}

/// A listener that was started is followed by the question for the state, and one that was not by
/// a rest, until the monitor is told to end.
pub proof fn law_started_listener_is_followed_by_a_question(
    before: PlayingMonitor,
    shutdown: bool,
    after: PlayingMonitor,
    action: PlayingAction,
)
    ensures
        playing_next(before, PlayingEvent::Spawned(true), shutdown, after, action) ==> action == (
        PlayingAction::Query { initial: true }),
        playing_next(before, PlayingEvent::Spawned(false), shutdown, after, action) ==> action
            == if shutdown {
            PlayingAction::Exit { reap: false, failed: false }
        } else {
            PlayingAction::Rest { reap: false }
        },
        playing_next(before, PlayingEvent::Resumed, shutdown, after, action) ==> action
            == if shutdown {
            PlayingAction::Exit { reap: false, failed: false }
        } else {
            PlayingAction::Spawn
        },
        playing_next(before, PlayingEvent::Ended, shutdown, after, action) ==> action
            == if shutdown {
            PlayingAction::Exit { reap: true, failed: false }
        } else {
            PlayingAction::Rest { reap: true }
        },
        playing_next(before, PlayingEvent::Failed, shutdown, after, action) ==> action == (
        PlayingAction::Exit { reap: true, failed: true }),
        playing_next(before, PlayingEvent::Unreported, shutdown, after, action) ==> action == (
        PlayingAction::Exit { reap: false, failed: true }),
        playing_next(before, PlayingEvent::Queried(None), shutdown, after, action) ==> action
            == PlayingAction::Listen(None),
{
}

/// Every announcement is followed by the question for the state: a line that holds the event with
/// any state, or with none. A line without the event, or with nothing in it, is passed over.
pub proof fn law_announcement_is_followed_by_a_question(
    before: PlayingMonitor,
    line: String,
    parsed: Option<Json>,
    shutdown: bool,
    after: PlayingMonitor,
    action: PlayingAction,
    others: Seq<(Seq<char>, JsonView)>,
    status: i64,
)
    requires
        playing_next(before, PlayingEvent::Line { line, parsed }, shutdown, after, action),
        !names(others, "play_status_broadcast_event"@),
    ensures
        trim(line@).len() == 0 ==> action == PlayingAction::Listen(None),
        trim(line@).len() > 0 && opt_json(parsed) == Some(
            JsonView::Object(
                others.push(
                    (
                        "play_status_broadcast_event"@,
                        JsonView::Object(seq![("status"@, number_json(status))]),
                    ),
                ),
            ),
        ) ==> action == (PlayingAction::Query { initial: false }),
        opt_json(parsed) == Some(JsonView::Object(others)) ==> action == PlayingAction::Listen(None),
        trim(line@).len() > 0 && parsed is None ==> action == if contains(
            trim(line@),
            "play_status_broadcast_event"@,
        ) {
            PlayingAction::Query { initial: false }
        } else {
            PlayingAction::Listen(None)
        },
{
    let event = "play_status_broadcast_event"@;
    let number = number_json(status);
    law_member_of_an_object(others, event, JsonView::Null, Seq::empty());
    let payload = JsonView::Object(seq![("status"@, number)]);
    law_member_of_an_object(others, event, payload, Seq::empty());
    law_member_of_an_object(Seq::empty(), "status"@, number, Seq::empty());
    assert(others.push((event, payload)) + Seq::empty() =~= others.push((event, payload)));
    assert(Seq::empty().push(("status"@, number)) + Seq::empty() =~= seq![("status"@, number)]);
}

/// The state is read from the number under `status` in the text under `info`, if the code is 0.
pub proof fn law_state_is_read_from_the_answer(
    stdout: Seq<char>,
    code: i64,
    info: Seq<char>,
    status: i64,
    refusal: Seq<char>,
    outer: Result<String, PlayStatusError>,
    inner: Result<i64, PlayStatusError>,
)
    requires
        response_read(
            stdout,
            Some(
                JsonView::Object(
                    seq![("code"@, number_json(code)), ("info"@, JsonView::Str(info))],
                ),
            ),
            refusal,
            outer,
        ),
        info_read(
            info,
            Some(JsonView::Object(seq![("status"@, number_json(status))])),
            refusal,
            inner,
        ),
    ensures
        code == 0 ==> (outer matches Ok(text) && text@ == info),
        code != 0 ==> (outer matches Err(PlayStatusError::Code { code: c, info: text }) && c == code
            && text@ == info),
        inner == Ok::<i64, PlayStatusError>(status),
{
    reveal_strlit("code");
    reveal_strlit("info");
    assert("code"@[0] == 'c' && "info"@[0] == 'i');
    let (c, i) = (number_json(code), JsonView::Str(info));
    let none = Seq::<(Seq<char>, JsonView)>::empty();
    law_member_of_an_object(none, "code"@, c, seq![("info"@, i)]);
    law_member_of_an_object(seq![("code"@, c)], "info"@, i, none);
    law_member_of_an_object(none, "status"@, number_json(status), none);
    assert(none.push(("code"@, c)) + seq![("info"@, i)] =~= seq![("code"@, c), ("info"@, i)]);
    assert(seq![("code"@, c)].push(("info"@, i)) + none =~= seq![("code"@, c), ("info"@, i)]);
    assert(none.push(("status"@, number_json(status))) + none =~= seq![
        ("status"@, number_json(status)),
    ]);
}

/// An integer as JSON has it.
pub open spec fn number_json(n: i64) -> JsonView {
    if n >= 0 {
        JsonView::Uint(n as u64)
    } else {
        JsonView::Int(n)
    }
}

/// Whatever state was reported last, a monitor that reads another one tells everyone of it and
/// remembers it, however many it has reported before; the state that it remembers is not told again.
pub proof fn law_monitor_reports_every_change(
    monitor: &mut PlayingMonitor,
    status: i64,
    shutdown: bool,
    r: PlayingAction,
)
    requires
        call_ensures(
            PlayingMonitor::step,
            (monitor, PlayingEvent::Queried(Some(status)), shutdown),
            r,
        ),
    ensures
        ({
            let name = if status == 1 {
                "Playing"@
            } else if status == 2 {
                "Paused"@
            } else {
                "Idle"@
            };
            &&& final(monitor).last@ == name
            &&& old(monitor).last@ != name ==> (r matches PlayingAction::Listen(Some(report))
                && tells_everyone(report, name))
            &&& old(monitor).last@ == name ==> r == PlayingAction::Listen(None)
        }),
{
    let name = if status == 1 {
        "Playing"@
    } else if status == 2 {
        "Paused"@
    } else {
        "Idle"@
    };
    law_every_change_is_reported(*old(monitor), status, shutdown, *final(monitor), r, name);
}

/// The answer of the player is an object that names a code and a text once each, and the text holds an
/// object that names a state once; whatever else stands in them does not matter.
pub proof fn law_answer_is_read_by_name(
    members: Seq<(Seq<char>, JsonView)>,
    code: i64,
    info: Seq<char>,
    status: i64,
)
    ensures
        status_response(JsonView::Object(members)) == Some((code, info)) <==> {
            &&& occurrences(members, "code"@) <= 1 && is_number(member(members, "code"@), code)
            &&& occurrences(members, "info"@) <= 1 && member(members, "info"@) == Some(
                JsonView::Str(info),
            )
        },
        status_info(JsonView::Object(members)) == Some(status) <==> occurrences(members, "status"@) <= 1
            && is_number(member(members, "status"@), status),
{
}

/// A field holds this number.
pub open spec fn is_number(field: Option<JsonView>, n: i64) -> bool {
    ||| field matches Some(JsonView::Uint(m)) && m == n
    ||| field == Some(JsonView::Int(n))
}

/// A broadcast is an object that names the event at most once, with an object under it whose state, if
/// it names one, is a number; it announces a change exactly if the event is there. What has another
/// shape announces one if its text names the event.
pub proof fn law_announcement_is_read_by_name(
    line: Seq<char>,
    members: Seq<(Seq<char>, JsonView)>,
    inner: Seq<(Seq<char>, JsonView)>,
)
    ensures
        ({
            let name = "play_status_broadcast_event"@;
            let json = JsonView::Object(members);
            let event = member(members, name);
            let status = member(inner, "status"@);
            let stateful = occurrences(inner, "status"@) <= 1 && (status is None || status == Some(
                JsonView::Null,
            ) || exists|n: i64| is_number(status, n));
            &&& announces(line, None) == contains(line, name)
            &&& occurrences(members, name) > 1 ==> announces(line, Some(json)) == contains(line, name)
            &&& occurrences(members, name) <= 1 && (event is None || event == Some(JsonView::Null))
                ==> !announces(line, Some(json))
            &&& occurrences(members, name) <= 1 && event == Some(JsonView::Object(inner)) && stateful
                ==> announces(line, Some(json))
            &&& occurrences(members, name) <= 1 && event == Some(JsonView::Object(inner)) && !stateful
                ==> announces(line, Some(json)) == contains(line, name)
        }),
{
    let status = member(inner, "status"@);
    if let Some(n) = as_i64(status) {
        assert(is_number(status, n));
    }
    assert forall|n: i64| is_number(status, n) implies as_i64(status) is Some by {}
}

/// What a monitor does leads to where it stands: it asks or listens, starts a listener or rests before
/// the next one, or is at its end.
pub proof fn law_monitor_stands_where_it_acts(
    before: PlayingMonitor,
    event: PlayingEvent,
    shutdown: bool,
    after: PlayingMonitor,
    action: PlayingAction,
)
    requires
        playing_next(before, event, shutdown, after, action),
    ensures
        after.phase == match action {
            PlayingAction::Spawn => PlayingPhase::Spawning,
            PlayingAction::Rest { .. } => PlayingPhase::Spawning,
            PlayingAction::Query { .. } => PlayingPhase::Querying,
            PlayingAction::Listen(_) => PlayingPhase::Listening,
            PlayingAction::Exit { .. } => PlayingPhase::Exited,
        },
{
}

/// What went wrong is told with everything that is known of it.
pub proof fn law_errors_are_told(err: PlayStatusError)
    ensures
        status_error_text(err) == match err {
            PlayStatusError::Exit { exit_code, stdout, stderr } =>
                "`ubus -t 5 call mediaplayer player_play_status` exited with code "@
                + signed_decimal(exit_code as int) + ": stdout="@ + stdout@ + ", stderr="@ + stderr@,
            PlayStatusError::Outer { reason, stdout } =>
                "failed to parse outer player_play_status response: "@ + reason@ + "; stdout="@
                + stdout@,
            PlayStatusError::Code { code, info } => "player_play_status returned non-zero code "@
                + signed_decimal(code as int) + ": info="@ + info@,
            PlayStatusError::Inner { reason, info } =>
                "failed to parse inner player_play_status info: "@ + reason@ + "; info="@ + info@,
        },
{
}

/// A monitor takes the steps of the laws about it, starts with nothing reported, and reads what the
/// player says as they say.
pub proof fn law_monitor_takes_its_steps(
    monitor: &mut PlayingMonitor,
    event: PlayingEvent,
    shutdown: bool,
    r: PlayingAction,
    fresh: PlayingMonitor,
    status: i64,
    name: String,
    line: &str,
    parsed: Option<Json>,
    holds: bool,
    err: PlayStatusError,
)
    ensures
        call_ensures(PlayingMonitor::step, (monitor, event, shutdown), r) ==> playing_next(
            *old(monitor),
            event,
            shutdown,
            *final(monitor),
            r,
        ),
        call_ensures(PlayingMonitor::new, (), fresh) ==> fresh.phase == PlayingPhase::Spawning
            && fresh.last@.len() == 0,
        call_ensures(map_status_to_playing_state, (status,), name) ==> name@ == if status == 1 {
            "Playing"@
        } else if status == 2 {
            "Paused"@
        } else {
            "Idle"@
        },
        call_ensures(is_play_status_broadcast_event_line, (line, parsed), holds) ==> holds == announces(
            line@,
            opt_json(parsed),
        ),
        call_ensures(PlayStatusError::message, (&err,), name) ==> name@ == status_error_text(err),
{
}

/// A state is told to everyone exactly if it is not the one that was told last, and remembered.
pub proof fn law_state_is_told_if_it_changed(
    last: &mut String,
    next: &str,
    r: Option<(OutboundTarget, AppMessage)>,
    state: &str,
    event: Event,
)
    ensures
        call_ensures(emit_playing_state_if_changed, (last, next), r) ==> {
            &&& final(last)@ == next@
            &&& old(last)@ == next@ ==> r is None
            &&& old(last)@ != next@ ==> (r matches Some(report) && tells_everyone(report, next@))
        },
        call_ensures(playing_event, (state,), event) ==> event.event@ == "playing"@ && (
        event.data matches Some(Json::Str(text)) && text@ == state@),
{
    if let Some((_, AppMessage::Event(told))) = r {
        if let Some(json) = told.data {
            law_contents_have_the_shape_of_the_value(json);
        }
    }
    if let Some(json) = event.data {
        law_contents_have_the_shape_of_the_value(json);
    }
}

/// The output of the script is its answer if the script succeeded, and an error with all that it
/// wrote if it did not; the answer is then read in two layers.
pub proof fn law_answer_is_read_in_two_layers(
    result: &CommandResult,
    output: Result<String, PlayStatusError>,
    stdout: &str,
    outer: (Option<Json>, &str),
    inner: (Option<Json>, &str),
    info: Result<String, PlayStatusError>,
    r: Result<i64, PlayStatusError>,
)
    ensures
        call_ensures(query_output, (result,), output) ==> match output {
            Ok(text) => result.exit_code == 0 && text@ == trim(result.stdout@),
            Err(err) => result.exit_code != 0 && (err matches PlayStatusError::Exit {
                exit_code,
                stdout,
                stderr,
            } && exit_code == result.exit_code && stdout@ == trim(result.stdout@) && stderr@ == trim(
                result.stderr@,
            )),
        },
        call_ensures(read_status_response, (stdout, outer.0, outer.1), info) ==> response_read(
            stdout@,
            opt_json(outer.0),
            outer.1@,
            info,
        ),
        call_ensures(read_status_info, (stdout, inner.0, inner.1), r) ==> info_read(
            stdout@,
            opt_json(inner.0),
            inner.1@,
            r,
        ),
        call_ensures(parse_player_play_status_output, (stdout, outer, inner), r) && response_read(
            stdout@,
            opt_json(outer.0),
            outer.1@,
            info,
        ) ==> match info {
            Ok(text) => info_read(text@, opt_json(inner.0), inner.1@, r),
            Err(_) => r is Err,
        },
{
}

/// An answer that cannot be read is told with what the parser says against it.
pub proof fn law_unreadable_answer_is_told(
    stdout: Seq<char>,
    json: Option<JsonView>,
    refusal: Seq<char>,
    r: Result<String, PlayStatusError>,
    inner: Result<i64, PlayStatusError>,
)
    ensures
        response_read(stdout, json, refusal, r) && (json is None || status_response(json->0) is None)
            ==> (r matches Err(PlayStatusError::Outer { reason, stdout: text }) && reason@ == refusal
            && text@ == trim(stdout)),
        info_read(stdout, json, refusal, inner) && (json is None || status_info(json->0) is None) ==> (
        inner matches Err(PlayStatusError::Inner { reason, info }) && reason@ == refusal && info@
            == stdout),
{
}

/// The names that the player is asked and listened to by.
pub proof fn law_names_of_the_player(r: String)
    ensures
        call_ensures(play_status_event_name, (), r) ==> r@ == "play_status_broadcast_event"@,
        call_ensures(play_status_query_command, (), r) ==> r@
            == "ubus -t 5 call mediaplayer player_play_status"@,
        LISTENER_RESTART_DELAY_SECS == 1,
{
}

/// What the player says may also be written as arrays: a code and a text, a state, and a broadcast with
/// at most one value, which is an array with the state.
pub proof fn law_player_is_read_by_place(
    line: Seq<char>,
    values: Seq<JsonView>,
    inner: Seq<JsonView>,
    code: i64,
    info: Seq<char>,
    status: i64,
)
    ensures
        status_response(JsonView::Array(values)) == Some((code, info)) <==> values.len() == 2
            && is_number(Some(values[0]), code) && values[1] == JsonView::Str(info),
        status_info(JsonView::Array(values)) == Some(status) <==> values.len() == 1 && is_number(
            Some(values[0]),
            status,
        ),
        ({
            let json = JsonView::Array(values);
            let named = contains(line, "play_status_broadcast_event"@);
            let stateful = inner.len() == 1 && (inner[0] is Null || exists|n: i64|
                is_number(Some(inner[0]), n));
            &&& values.len() == 0 ==> !announces(line, Some(json))
            &&& values.len() == 1 && values[0] is Null ==> !announces(line, Some(json))
            &&& values.len() == 1 && values[0] == JsonView::Array(inner) && stateful ==> announces(
                line,
                Some(json),
            )
            &&& values.len() == 1 && values[0] == JsonView::Array(inner) && !stateful ==> announces(
                line,
                Some(json),
            ) == named
            &&& values.len() > 1 ==> announces(line, Some(json)) == named
        }),
{
    if inner.len() == 1 {
        if let Some(n) = as_i64(Some(inner[0])) {
            assert(is_number(Some(inner[0]), n));
        }
    }
}

/// A value that is neither an object nor an array is no answer and no broadcast.
pub proof fn law_other_values_say_nothing(line: Seq<char>, json: JsonView)
    requires
        !(json is Object),
        !(json is Array),
    ensures
        status_response(json) is None,
        status_info(json) is None,
        announces(line, Some(json)) == contains(line, "play_status_broadcast_event"@),
{
}

} // verus!
