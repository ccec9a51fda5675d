use client_rust::monitor::file::{
    event_name_matches, monitor_file, needs_existence, new_line, parse_events, queue_overflowed,
    read_inotify_events, signal_outcome, unexpected_revents, watch_directory_events,
    watch_failure_is_close, watch_file_event, ByteOrder, FileEventAction, FileMonitorControl,
    FileStep, FileWatch, InotifyEvent, LineBuffer, MonitorAction, MonitorEvent, MonitorLoopResult,
    MonitorPhase, ReadAction, ReadEvent, SignalOutcome,
    DIRECTORY_WATCH_MASK, EAGAIN, EBADF, EINTR, EINVAL, EVENT_HEADER_LEN, FILE_WATCH_MASK,
    INOTIFY_BUFFER_LEN, IN_ATTRIB, IN_CREATE, IN_DELETE_SELF, IN_IGNORED, IN_MODIFY, IN_MOVED_TO,
    IN_MOVE_SELF, IN_Q_OVERFLOW, POLLERR, POLLHUP, POLLIN, POLLNVAL,
};
use client_rust::monitor::instruction::{
    instruction_file_path, on_line, on_reset, FileMonitorEvent,
};
use client_rust::monitor::kws::{
    kws_event, kws_file_path, kws_report, KwsMonitor, KwsMonitorEvent,
};
use client_rust::monitor::playing::{
    emit_playing_state_if_changed, is_play_status_broadcast_event_line,
    map_status_to_playing_state, parse_player_play_status_output, play_status_event_name,
    play_status_query_command, query_output, read_status_info, read_status_response, PlayStatusError,
    PlayingAction, PlayingEvent, PlayingMonitor, PlayingPhase,
};
use client_rust::protocol::data::{AppMessage, Event};
use client_rust::protocol::json::Json;
use client_rust::shell::command::command_result_of;
use client_rust::transport::control::OutboundTarget;
use serde::de::DeserializeOwned;
use serde_json::Value;

fn text(s: &str) -> Json {
    Json::Str(s.to_string())
}

fn object(members: Vec<(&str, Json)>) -> Json {
    Json::Object(
        members
            .into_iter()
            .map(|(name, value)| (name.to_string(), value))
            .collect(),
    )
}

/// The tree of a value of `serde_json`.
fn tree_of(value: &Value) -> Json {
    match value {
        Value::Null => Json::Null,
        Value::Bool(b) => Json::Bool(*b),
        Value::Number(n) => match (n.as_u64(), n.as_i64()) {
            (Some(n), _) => Json::Uint(n),
            (None, Some(n)) => Json::Int(n),
            (None, None) => Json::Float(n.to_string()),
        },
        Value::String(text) => Json::Str(text.clone()),
        Value::Array(values) => Json::Array(values.iter().map(tree_of).collect()),
        Value::Object(members) => Json::Object(
            members
                .iter()
                .map(|(name, value)| (name.clone(), tree_of(value)))
                .collect(),
        ),
    }
}

fn parsed(text: &str) -> Result<Json, String> {
    serde_json::from_str::<Value>(text)
        .map(|value| tree_of(&value))
        .map_err(|err| err.to_string())
}

/// What a parser of `T` makes of a text: the tree, and what it says against it.
fn read<T: DeserializeOwned>(text: &str) -> (Option<Json>, String) {
    let refusal = match serde_json::from_str::<T>(text) {
        Ok(_) => String::new(),
        Err(err) => err.to_string(),
    };
    (parsed(text).ok(), refusal)
}

/// The event in a message for everyone.
fn announced((target, message): (OutboundTarget, AppMessage)) -> Event {
    assert_eq!(target, OutboundTarget::Broadcast);
    match message {
        AppMessage::Event(event) => event,
        other => panic!("unexpected message: {other:?}"),
    }
}

// ---------------------------------------------------------------------------
// Instructions and the wake word

#[test]
fn instruction_file_monitor_event_shape_matches_open_xiaoai() {
    assert_eq!(FileMonitorEvent::NewFile.to_value(), text("NewFile"));
    assert_eq!(
        FileMonitorEvent::NewLine("line".to_string()).to_value(),
        object(vec![("NewLine", text("line"))])
    );
}

#[test]
fn instruction_log_is_reported_as_it_is() {
    assert_eq!(instruction_file_path(), "/tmp/mico_aivs_lab/instruction.log");
    let event = announced(on_reset());
    assert_eq!(event.event, "instruction");
    assert_eq!(event.data, Some(text("NewFile")));
    let event = announced(on_line("{\"header\":"));
    assert_eq!(event.event, "instruction");
    assert_eq!(event.data, Some(object(vec![("NewLine", text("{\"header\":"))])));
}

#[test]
fn kws_event_shape_matches_open_xiaoai() {
    assert_eq!(KwsMonitorEvent::Started.to_value(), text("Started"));
    assert_eq!(
        KwsMonitorEvent::Keyword("小爱同学".to_string()).to_value(),
        object(vec![("Keyword", text("小爱同学"))])
    );
}

#[test]
fn wake_word_is_reported_once() {
    assert_eq!(kws_file_path(), "/tmp/open-xiaoai/kws.log");
    let mut monitor = KwsMonitor::new();
    assert_eq!(monitor.on_line("100@__STARTED__"), Some(KwsMonitorEvent::Started));
    assert_eq!(monitor.on_line("100@__STARTED__"), None);
    assert_eq!(monitor.on_line("100@other"), None);
    assert_eq!(
        monitor.on_line("101@hello@rest"),
        Some(KwsMonitorEvent::Keyword("hello".to_string()))
    );
    assert_eq!(monitor.last_ts, 101);
    assert_eq!(monitor.on_line("no separator"), None);
    assert_eq!(monitor.last_ts, 101);
    // A time that cannot be read counts as 0.
    assert_eq!(
        monitor.on_line("soon@word"),
        Some(KwsMonitorEvent::Keyword("word".to_string()))
    );
    assert_eq!(monitor.last_ts, 0);
    assert_eq!(KwsMonitor::new().on_line("soon@word"), None);
}

#[test]
fn wake_word_as_an_event() {
    let event = kws_event(&KwsMonitorEvent::Started);
    assert_eq!(event.event, "kws");
    assert_eq!(event.data, Some(text("Started")));
    let event = announced(kws_report(&KwsMonitorEvent::Keyword("word".to_string())));
    assert_eq!(event.event, "kws");
    assert_eq!(event.data, Some(object(vec![("Keyword", text("word"))])));
}

// ---------------------------------------------------------------------------
// What is being played

#[test]
fn parse_player_play_status_output_extracts_nested_status() {
    let stdout = r#"
        {
            "code": 0,
            "info": "{ \"status\": 2 }"
        }
        "#;

    let (outer, refusal) = read::<Value>(stdout.trim());
    let info = read_status_response(stdout, outer, &refusal).unwrap();
    let (outer, refusal) = read::<Value>(stdout.trim());
    let (inner, inner_refusal) = read::<Value>(&info);
    assert_eq!(
        parse_player_play_status_output(stdout, (outer, &refusal), (inner, &inner_refusal))
            .unwrap(),
        2
    );
}

#[test]
fn play_status_event_line_detection_matches_expected_shape() {
    let detected = |line: &str| is_play_status_broadcast_event_line(line, parsed(line).ok());
    assert!(detected(r#"{ "play_status_broadcast_event": {"status":1} }"#));
    assert!(!detected(r#"{ "some_other_event": {"status":1} }"#));
}

#[test]
fn status_mapping_matches_legacy_mute_stat_contract() {
    assert_eq!(map_status_to_playing_state(1), "Playing");
    assert_eq!(map_status_to_playing_state(2), "Paused");
    assert_eq!(map_status_to_playing_state(0), "Idle");
    assert_eq!(map_status_to_playing_state(999), "Idle");
}

#[test]
fn lines_that_are_no_broadcast_count_by_their_text() {
    let detected = |line: &str| is_play_status_broadcast_event_line(line, parsed(line).ok());
    assert!(detected("play_status_broadcast_event: broken"));
    assert!(!detected("something else"));
    assert!(detected(r#"{"play_status_broadcast_event":{}}"#));
    assert!(detected(r#"{"play_status_broadcast_event":{"status":null,"x":1}}"#));
    assert!(!detected(r#"{"play_status_broadcast_event":null}"#));
    // The body is malformed, so the line counts by its text.
    assert!(detected(r#"{"play_status_broadcast_event":{"status":"1"}}"#));
    assert!(detected(r#"["play_status_broadcast_event", 1]"#));
    assert!(!detected("[]"));
    assert!(detected(r#"[[1]]"#));
    assert!(!detected("{}"));
}

#[test]
fn answers_that_hold_no_state() {
    let result = command_result_of(" o ".to_string(), " e\n".to_string(), Some(4));
    let err = query_output(&result).unwrap_err();
    assert_eq!(
        err.message(),
        "`ubus -t 5 call mediaplayer player_play_status` exited with code 4: stdout=o, stderr=e"
    );
    let result = command_result_of(" {} \n".to_string(), String::new(), Some(0));
    assert_eq!(query_output(&result), Ok("{}".to_string()));

    let err = read_status_response(" x ", None, "bad").unwrap_err();
    assert_eq!(
        err.message(),
        "failed to parse outer player_play_status response: bad; stdout=x"
    );
    let outer = object(vec![("code", Json::Int(-3)), ("info", text("why"))]);
    let err = read_status_response("", Some(outer), "").unwrap_err();
    assert_eq!(err.message(), "player_play_status returned non-zero code -3: info=why");
    let err = read_status_info("i", None, "bad").unwrap_err();
    assert_eq!(
        err.message(),
        "failed to parse inner player_play_status info: bad; info=i"
    );
    assert_eq!(
        read_status_response(" null ", Some(Json::Null), "no record"),
        Err(PlayStatusError::Outer {
            reason: "no record".to_string(),
            stdout: "null".to_string(),
        })
    );
    assert_eq!(
        read_status_response("{}", Some(object(vec![("code", Json::Uint(0))])), "no info"),
        Err(PlayStatusError::Outer { reason: "no info".to_string(), stdout: "{}".to_string() })
    );
    let (inner, refusal) = read::<i64>("{ \"status\": \"one\" }");
    assert_eq!(
        read_status_info("i", inner, &refusal).unwrap_err().message(),
        "failed to parse inner player_play_status info: invalid type: map, expected i64 at line 1 \
         column 0; info=i"
    );
    let inner = object(vec![("status", Json::Float("1.0".to_string()))]);
    assert!(matches!(
        read_status_info("", Some(inner), "float"),
        Err(PlayStatusError::Inner { .. })
    ));
    let inner = object(vec![("status", Json::Uint(u64::MAX))]);
    assert_eq!(read_status_info("", Some(inner), "large").is_err(), true);
    let inner = Json::Array(vec![Json::Int(-7)]);
    assert_eq!(read_status_info("", Some(inner), ""), Ok(-7));
}

#[test]
fn state_is_reported_when_it_changes() {
    assert_eq!(play_status_event_name(), "play_status_broadcast_event");
    assert_eq!(
        play_status_query_command(),
        "ubus -t 5 call mediaplayer player_play_status"
    );
    let mut last = String::new();
    let event = announced(emit_playing_state_if_changed(&mut last, "Idle").unwrap());
    assert_eq!(event.event, "playing");
    assert_eq!(event.data, Some(text("Idle")));
    assert_eq!(last, "Idle");
    assert_eq!(emit_playing_state_if_changed(&mut last, "Idle"), None);
    assert!(emit_playing_state_if_changed(&mut last, "Playing").is_some());
}

fn line(text: &str) -> PlayingEvent {
    PlayingEvent::Line {
        line: text.to_string(),
        parsed: parsed(text).ok(),
    }
}

#[test]
fn playing_monitor_asks_after_every_broadcast() {
    let mut monitor = PlayingMonitor::new();
    assert_eq!(monitor.step(PlayingEvent::Resumed, false), PlayingAction::Spawn);
    assert_eq!(
        monitor.step(PlayingEvent::Spawned(true), false),
        PlayingAction::Query { initial: true }
    );
    match monitor.step(PlayingEvent::Queried(Some(1)), false) {
        PlayingAction::Listen(Some(message)) => {
            assert_eq!(announced(message).data, Some(text("Playing")));
        }
        other => panic!("unexpected action: {other:?}"),
    }
    assert_eq!(monitor.step(line("  \n"), false), PlayingAction::Listen(None));
    assert_eq!(monitor.step(line("noise\n"), false), PlayingAction::Listen(None));
    assert_eq!(
        monitor.step(line("{\"play_status_broadcast_event\":{\"status\":2}}\n"), false),
        PlayingAction::Query { initial: false }
    );
    assert_eq!(monitor.phase, PlayingPhase::Querying);
    assert_eq!(
        monitor.step(PlayingEvent::Queried(Some(1)), false),
        PlayingAction::Listen(None)
    );
    assert_eq!(
        monitor.step(PlayingEvent::Queried(None), false),
        PlayingAction::Listen(None)
    );
    assert_eq!(monitor.last, "Playing");
}

#[test]
fn playing_monitor_restarts_until_it_is_told_to_end() {
    let mut monitor = PlayingMonitor::new();
    assert_eq!(
        monitor.step(PlayingEvent::Spawned(false), false),
        PlayingAction::Rest { reap: false }
    );
    assert_eq!(
        monitor.step(PlayingEvent::Ended, false),
        PlayingAction::Rest { reap: true }
    );
    assert_eq!(
        monitor.step(PlayingEvent::Ended, true),
        PlayingAction::Exit { reap: true, failed: false }
    );
    assert_eq!(
        monitor.step(PlayingEvent::Resumed, true),
        PlayingAction::Exit { reap: false, failed: false }
    );
    assert_eq!(
        monitor.step(PlayingEvent::Spawned(false), true),
        PlayingAction::Exit { reap: false, failed: false }
    );
    assert_eq!(
        monitor.step(PlayingEvent::Failed, false),
        PlayingAction::Exit { reap: true, failed: true }
    );
    assert_eq!(
        monitor.step(PlayingEvent::Unreported, false),
        PlayingAction::Exit { reap: false, failed: true }
    );
}

// ---------------------------------------------------------------------------
// Files

#[test]
fn numbers_are_those_of_the_system() {
    assert_eq!(IN_MODIFY, libc::IN_MODIFY);
    assert_eq!(IN_ATTRIB, libc::IN_ATTRIB);
    assert_eq!(IN_MOVED_TO, libc::IN_MOVED_TO);
    assert_eq!(IN_CREATE, libc::IN_CREATE);
    assert_eq!(IN_DELETE_SELF, libc::IN_DELETE_SELF);
    assert_eq!(IN_MOVE_SELF, libc::IN_MOVE_SELF);
    assert_eq!(IN_Q_OVERFLOW, libc::IN_Q_OVERFLOW);
    assert_eq!(IN_IGNORED, libc::IN_IGNORED);
    assert_eq!(POLLIN, libc::POLLIN);
    assert_eq!(POLLERR, libc::POLLERR);
    assert_eq!(POLLHUP, libc::POLLHUP);
    assert_eq!(POLLNVAL, libc::POLLNVAL);
    assert_eq!(EINTR, libc::EINTR);
    assert_eq!(EBADF, libc::EBADF);
    assert_eq!(EAGAIN, libc::EAGAIN);
    assert_eq!(EINVAL, libc::EINVAL);
    assert_eq!(EVENT_HEADER_LEN, std::mem::size_of::<libc::inotify_event>());
    assert_eq!(INOTIFY_BUFFER_LEN, std::mem::size_of::<libc::inotify_event>() * 4096);
    assert_eq!(
        FILE_WATCH_MASK,
        libc::IN_MODIFY | libc::IN_MOVE_SELF | libc::IN_DELETE_SELF | libc::IN_ATTRIB
    );
    assert_eq!(
        DIRECTORY_WATCH_MASK,
        libc::IN_CREATE | libc::IN_MOVED_TO | libc::IN_MOVE_SELF | libc::IN_DELETE_SELF
    );
}

/// An event as the system writes it.
fn raw_event(mask: u32, name: &[u8], order: ByteOrder) -> Vec<u8> {
    let number = |n: u32| match order {
        ByteOrder::Little => n.to_le_bytes(),
        ByteOrder::Big => n.to_be_bytes(),
    };
    let mut bytes = Vec::new();
    bytes.extend(number(1));
    bytes.extend(number(mask));
    bytes.extend(number(0));
    bytes.extend(number(name.len() as u32));
    bytes.extend(name);
    bytes
}

#[test]
fn events_are_taken_apart() {
    for order in [ByteOrder::Little, ByteOrder::Big] {
        let first = raw_event(IN_CREATE, b"kws.log\0", order);
        let second = raw_event(IN_MODIFY, b"", order);
        let mut bytes = first.clone();
        bytes.extend(second.clone());
        // What is no whole event is left alone.
        bytes.extend(&raw_event(IN_MODIFY, b"cut off\0", order)[..20]);
        assert_eq!(
            parse_events(&bytes, order),
            vec![
                InotifyEvent { mask: IN_CREATE, bytes: first },
                InotifyEvent { mask: IN_MODIFY, bytes: second },
            ]
        );
    }
    assert_eq!(parse_events(&Vec::new(), ByteOrder::Little), Vec::new());
}

#[test]
fn names_end_at_the_first_zero() {
    let matches = |name: &[u8], target: &[u8]| {
        event_name_matches(&raw_event(IN_CREATE, name, ByteOrder::Little), &target.to_vec())
    };
    assert!(matches(b"kws.log\0\0", b"kws.log"));
    assert!(matches(b"kws.log", b"kws.log"));
    assert!(!matches(b"kws.log2\0", b"kws.log"));
    assert!(!matches(b"kws\0.log", b"kws.log"));
    assert!(!matches(b"", b""));
    assert!(matches(b"\0", b""));
}

#[test]
fn file_events_are_judged() {
    let go_on = |check_reset: bool, modified: bool| FileEventAction::Continue {
        check_reset,
        modified,
    };
    assert_eq!(watch_file_event(IN_IGNORED, true), FileEventAction::Reopen);
    assert_eq!(watch_file_event(IN_MOVE_SELF, true), FileEventAction::Reopen);
    assert_eq!(watch_file_event(IN_DELETE_SELF | IN_MODIFY, true), FileEventAction::Reopen);
    assert_eq!(watch_file_event(IN_ATTRIB, false), FileEventAction::Reopen);
    assert_eq!(watch_file_event(IN_ATTRIB, true), go_on(true, false));
    assert_eq!(watch_file_event(IN_MODIFY, false), go_on(false, true));
    assert_eq!(watch_file_event(IN_MODIFY | IN_ATTRIB, true), go_on(true, true));
    assert_eq!(watch_file_event(IN_Q_OVERFLOW, true), go_on(false, false));
    assert!(needs_existence(IN_ATTRIB | IN_MODIFY));
    assert!(!needs_existence(IN_ATTRIB | IN_IGNORED));
    assert!(!needs_existence(IN_MODIFY));
    assert!(queue_overflowed(IN_Q_OVERFLOW) && !queue_overflowed(IN_MODIFY));
}

fn events(masks: &[u32]) -> Vec<InotifyEvent> {
    masks
        .iter()
        .map(|mask| InotifyEvent {
            mask: *mask,
            bytes: raw_event(*mask, b"", ByteOrder::Little),
        })
        .collect()
}

fn steps(masks: &[u32], present: bool) -> Vec<FileStep> {
    let mut watch = FileWatch::new(&events(masks));
    let mut steps = Vec::new();
    while let Some(step) = watch.step(present) {
        steps.push(step);
    }
    steps
}

#[test]
fn events_are_dealt_with_in_order() {
    assert_eq!(steps(&[], true), Vec::new());
    assert_eq!(steps(&[IN_Q_OVERFLOW], true), Vec::new());
    assert_eq!(
        steps(&[IN_MODIFY, IN_Q_OVERFLOW, IN_ATTRIB, IN_ATTRIB | IN_MODIFY], true),
        vec![
            FileStep::CheckReset,
            FileStep::ReadLines,
            FileStep::CheckExists,
            FileStep::CheckReset,
            FileStep::CheckExists,
            FileStep::CheckReset,
            FileStep::CheckReset,
            FileStep::ReadLines,
        ]
    );
    assert_eq!(
        steps(&[IN_MODIFY, IN_DELETE_SELF, IN_MODIFY], true),
        vec![FileStep::CheckReset, FileStep::ReadLines, FileStep::Reopen]
    );
    assert_eq!(
        steps(&[IN_ATTRIB, IN_MODIFY], false),
        vec![FileStep::CheckExists, FileStep::Reopen]
    );
}

#[test]
fn directory_events_are_judged() {
    let target = b"kws.log".to_vec();
    let created = |name: &[u8]| InotifyEvent {
        mask: IN_CREATE,
        bytes: raw_event(IN_CREATE, name, ByteOrder::Little),
    };
    let judge = |events: Vec<InotifyEvent>, shutdown: bool| {
        watch_directory_events(&events, &target, shutdown)
    };
    assert_eq!(judge(Vec::new(), false), None);
    assert_eq!(judge(vec![created(b"other\0")], false), None);
    assert_eq!(
        judge(vec![created(b"other\0"), created(b"kws.log\0")], false),
        Some(MonitorLoopResult::Reopen)
    );
    assert_eq!(judge(events(&[IN_IGNORED]), true), Some(MonitorLoopResult::Closed));
    assert_eq!(judge(events(&[IN_IGNORED]), false), Some(MonitorLoopResult::Stop));
    assert_eq!(judge(events(&[IN_DELETE_SELF]), true), Some(MonitorLoopResult::Stop));
    assert_eq!(judge(events(&[IN_MOVE_SELF]), false), Some(MonitorLoopResult::Stop));
    assert_eq!(judge(events(&[IN_MOVED_TO]), false), None);
}

#[test]
fn waiting_for_events() {
    let polled = |file_revents: i16, shutdown_revents: i16| ReadEvent::Polled {
        file_revents,
        shutdown_revents,
    };
    assert_eq!(read_inotify_events(ReadEvent::Begin, false), ReadAction::Poll);
    assert_eq!(read_inotify_events(ReadEvent::Begin, true), ReadAction::Closed);
    assert_eq!(read_inotify_events(ReadEvent::PollFailed(EINTR), false), ReadAction::Poll);
    assert_eq!(
        read_inotify_events(ReadEvent::PollFailed(EBADF), true),
        ReadAction::FailedCall(EBADF)
    );
    assert_eq!(read_inotify_events(polled(POLLIN, POLLIN), false), ReadAction::Closed);
    assert_eq!(read_inotify_events(polled(0, 0), false), ReadAction::Poll);
    assert_eq!(read_inotify_events(polled(POLLIN, 0), false), ReadAction::Read);
    assert_eq!(
        read_inotify_events(polled(POLLERR | POLLIN, 0), false),
        ReadAction::FailedState(POLLERR | POLLIN)
    );
    assert_eq!(read_inotify_events(polled(POLLHUP, 0), true), ReadAction::Closed);
    assert_eq!(
        read_inotify_events(polled(POLLNVAL, 0), false),
        ReadAction::FailedState(POLLNVAL)
    );
    assert_eq!(read_inotify_events(polled(0x40, 0), false), ReadAction::Poll);
    assert_eq!(read_inotify_events(ReadEvent::ReadFailed(EAGAIN), false), ReadAction::Poll);
    assert_eq!(read_inotify_events(ReadEvent::ReadFailed(EBADF), true), ReadAction::Closed);
    assert_eq!(
        read_inotify_events(ReadEvent::ReadFailed(EINVAL), false),
        ReadAction::FailedCall(EINVAL)
    );
    assert_eq!(read_inotify_events(ReadEvent::Read(0), false), ReadAction::Poll);
    assert_eq!(read_inotify_events(ReadEvent::Read(16), true), ReadAction::Events(16));
    assert_eq!(
        unexpected_revents(-8),
        "inotify poll returned unexpected revents: -8"
    );
}

#[test]
fn watches_may_fail_because_of_the_end() {
    assert!(watch_failure_is_close(true, Some(EBADF)));
    assert!(watch_failure_is_close(true, Some(EINVAL)));
    assert!(!watch_failure_is_close(false, Some(EINVAL)));
    assert!(!watch_failure_is_close(true, Some(EINTR)));
    assert!(!watch_failure_is_close(true, None));
}

#[test]
fn lines_are_read_and_trimmed() {
    assert_eq!(new_line(" a \n"), Some("a".to_string()));
    assert_eq!(new_line(" \t\n"), None);
    let mut lines = LineBuffer::new();
    assert_eq!(
        lines.drain_new_lines("one\n\n  two \r\nthree"),
        vec!["one".to_string(), "two".to_string()]
    );
    assert_eq!(lines.unfinished, "three");
    assert_eq!(lines.drain_new_lines(""), Vec::<String>::new());
    assert_eq!(lines.drain_new_lines(" four"), Vec::<String>::new());
    assert_eq!(
        lines.drain_new_lines(" \nfive\n"),
        vec!["three four".to_string(), "five".to_string()]
    );
    assert_eq!(lines.unfinished, "");
}

#[test]
fn file_that_was_cut_off_begins_anew() {
    let mut lines = LineBuffer::new();
    assert!(lines.drain_new_lines("half").is_empty());
    assert!(!lines.handle_file_reset_if_needed(10, 10));
    assert_eq!(lines.unfinished, "half");
    assert!(lines.handle_file_reset_if_needed(10, 9));
    assert_eq!(lines.drain_new_lines("new\n"), vec!["new".to_string()]);
}

#[test]
fn lines_do_not_depend_on_the_pieces() {
    let text = "a\n b\n\nc d\nrest";
    for at in 0..text.len() {
        let mut lines = LineBuffer::new();
        let mut read = lines.drain_new_lines(&text[..at]);
        read.extend(lines.drain_new_lines(&text[at..]));
        assert_eq!(read, vec!["a".to_string(), "b".to_string(), "c d".to_string()]);
        assert_eq!(lines.unfinished, "rest");
    }
}

#[test]
fn monitor_follows_the_file() {
    let next = |event: MonitorEvent, shutdown: bool| monitor_file(event, shutdown);
    assert_eq!(
        next(MonitorEvent::Started, false),
        (MonitorPhase::Opening, MonitorAction::Open)
    );
    assert_eq!(
        next(MonitorEvent::Started, true),
        (MonitorPhase::Exited, MonitorAction::Exit)
    );
    assert_eq!(
        next(MonitorEvent::Opened(true), true),
        (MonitorPhase::WatchingFile, MonitorAction::WatchFile)
    );
    assert_eq!(
        next(MonitorEvent::Opened(false), false),
        (MonitorPhase::WatchingDirectory, MonitorAction::WatchDirectory)
    );
    assert_eq!(
        next(MonitorEvent::Watched(MonitorLoopResult::Reopen), false),
        (MonitorPhase::Opening, MonitorAction::Open)
    );
    assert_eq!(
        next(MonitorEvent::Watched(MonitorLoopResult::Reopen), true),
        (MonitorPhase::Exited, MonitorAction::Exit)
    );
    for result in [MonitorLoopResult::Closed, MonitorLoopResult::Stop] {
        assert_eq!(
            next(MonitorEvent::Watched(result), false),
            (MonitorPhase::Exited, MonitorAction::Exit)
        );
    }
}

#[test]
fn monitor_is_told_to_end_once() {
    let mut control = FileMonitorControl::new();
    assert!(!control.is_shutdown_requested());
    assert!(control.close());
    assert!(!control.close());
    assert!(control.is_shutdown_requested());
    assert_eq!(signal_outcome(None), SignalOutcome::Done);
    assert_eq!(signal_outcome(Some(EINTR)), SignalOutcome::Retry);
    assert_eq!(signal_outcome(Some(EAGAIN)), SignalOutcome::Done);
    assert_eq!(signal_outcome(Some(EBADF)), SignalOutcome::Failed);
}
