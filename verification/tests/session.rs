use client_rust::app::capabilities::AppCapabilities;
use client_rust::app::commands::{
    audio_cleared, begin_command, halted, player_launched, recorder_launched,
    register_session_commands, shell_finished, AfterRecording, ClearFailure, ClearReply, Command,
    CommandStep,
};
use client_rust::app::fanout::{join_monitor_thread, MonitorExit};
use client_rust::app::peer_context::{missing_peer, ClearAudioError, PeerContextRegistry};
use client_rust::app::peer_media::PeerMediaRegistry;
use client_rust::app::peer_table::PeerTable;
use client_rust::app::session::{SessionRuntime, SessionShutdownSummary};
use client_rust::app::supervisor::{
    log_peer_task_exit, log_router_exit, AppSupervisor, PeerTaskExit, RouterExit, SupervisorAction,
    SupervisorEvent,
};
use client_rust::app::ws_ingress::{
    connector_step, listen_addr, listener_step, ConnectServerStatus, ConnectorAction,
    ConnectorEvent, ConnectorPhase, ListenerAction, ListenerEvent, ListenerPhase, RETRY_DELAY_SECS,
};
use client_rust::app::ws_peer_hub::{SendControlError, WsPeerHub};
use client_rust::audio::player::{Enqueued, PlayerStop};
use client_rust::audio::recorder::{ArecordProfile, RecorderStop};
use client_rust::config::RunConfig;
use client_rust::protocol::data::{Request, Response};
use client_rust::protocol::json::Json;
use client_rust::protocol::registry::{CommandContext, CommandRegistry};
use client_rust::shell::command::CommandResult;
use client_rust::transport::control::{
    NotifyingSender, OutboundControl, OutboundTarget, PeerSource, RoutedOutbound, WriteSignal,
};
use client_rust::transport::outbox::{AUDIO_QUEUE_CAPACITY, CONTROL_QUEUE_CAPACITY};
use client_rust::transport::queue::{SyncQueue, TryRecvError};
use client_rust::transport::ws_pump::WsPeerHandle;

fn make_control_sender() -> NotifyingSender<OutboundControl> {
    NotifyingSender::new(SyncQueue::new(8))
}

fn make_audio_sender() -> NotifyingSender<Vec<u8>> {
    NotifyingSender::new(SyncQueue::new(8))
}

fn message(text: &str) -> OutboundControl {
    OutboundControl::Text(text.to_string())
}

fn outbound() -> PeerSource {
    PeerSource::OutboundConnect { url: "ws://server".to_string() }
}

fn hub_of(ids: &[u64]) -> WsPeerHub {
    let mut hub = WsPeerHub::new();
    for id in ids {
        hub.add_peer(
            *id,
            PeerSource::Listener,
            make_control_sender(),
            make_audio_sender(),
            WriteSignal::new(),
        );
    }
    hub
}

fn peers_of(ids: &[u64]) -> PeerContextRegistry {
    let mut peers = PeerContextRegistry::new();
    for id in ids {
        peers.add_peer(
            *id,
            PeerSource::Listener,
            make_control_sender(),
            make_audio_sender(),
            WriteSignal::new(),
        );
    }
    peers
}

fn next_in_hub(hub: &mut WsPeerHub, id: u64) -> Result<OutboundControl, TryRecvError> {
    hub.audio_sender(id).unwrap().control_sender.sender.try_recv()
}

fn next_for(peers: &mut PeerContextRegistry, id: u64) -> Result<OutboundControl, TryRecvError> {
    peers.get(id).unwrap().control_sender.sender.try_recv()
}

fn request(command: &str, payload: Option<Json>) -> Request {
    Request { id: "req-1".to_string(), command: command.to_string(), payload }
}

fn by(peer_id: u64) -> CommandContext {
    CommandContext { peer_id }
}

fn begin(command: Command, payload: Option<Json>, peers: &mut PeerContextRegistry) -> CommandStep {
    begin_command(command, by(1), &request("any", payload), "refused", "1.2.3", peers)
}

fn ok(response: Result<Response, String>) -> (Option<i32>, Option<String>) {
    let response = response.unwrap();
    (response.code, response.msg)
}

// --- the table of peers -----------------------------------------------------

#[test]
fn table_keeps_the_order_of_arrival() {
    let mut table: PeerTable<&str> = PeerTable::new();
    table.insert(5, "five");
    table.insert(2, "two");
    table.insert(9, "nine");
    table.insert(2, "second two");
    assert_eq!(table.peer_ids(), vec![5, 2, 9]);
    assert_eq!(table.get(2), Some(&"second two"));
    assert_eq!(table.remove(5), Some("five"));
    assert_eq!(table.remove(5), None);
    assert_eq!(table.peer_ids(), vec![2, 9]);
    assert_eq!(table.len(), 2);
    assert_eq!(table.drain(), vec![(2, "second two"), (9, "nine")]);
    assert_eq!(table.len(), 0);
}

// --- the hub ----------------------------------------------------------------

#[test]
fn ws_peer_hub_routes_broadcast_and_single_peer_messages() {
    let mut hub = WsPeerHub::new();
    hub.add_peer(
        1,
        PeerSource::Listener,
        make_control_sender(),
        make_audio_sender(),
        WriteSignal::new(),
    );
    hub.add_peer(
        2,
        PeerSource::Listener,
        make_control_sender(),
        make_audio_sender(),
        WriteSignal::new(),
    );

    hub.send_control(OutboundTarget::Broadcast, message("broadcast")).unwrap();
    hub.send_control(OutboundTarget::ToPeer(2), message("target")).unwrap();

    assert!(matches!(
        next_in_hub(&mut hub, 1).unwrap(),
        OutboundControl::Text(ref text) if text == "broadcast"
    ));
    assert!(matches!(
        next_in_hub(&mut hub, 2).unwrap(),
        OutboundControl::Text(ref text) if text == "broadcast"
    ));
    assert!(matches!(
        next_in_hub(&mut hub, 2).unwrap(),
        OutboundControl::Text(ref text) if text == "target"
    ));
    assert!(next_in_hub(&mut hub, 1).is_err());
}

#[test]
fn ws_peer_hub_returns_audio_sender_for_active_peer() {
    let mut hub = WsPeerHub::new();
    hub.add_peer(
        2,
        PeerSource::Listener,
        make_control_sender(),
        make_audio_sender(),
        WriteSignal::new(),
    );
    hub.add_peer(
        1,
        PeerSource::Listener,
        make_control_sender(),
        make_audio_sender(),
        WriteSignal::new(),
    );

    let sender = hub.audio_sender(2).expect("peer 2 audio sender");
    sender.try_send(vec![1, 2, 3]).unwrap();

    assert_eq!(sender.audio_sender.sender.try_recv().unwrap(), vec![1, 2, 3]);
    assert!(hub.remove_peer(2).is_some());
    assert!(hub.audio_sender(2).is_none());
}

#[test]
fn queued_message_wakes_the_writer() {
    let mut hub = hub_of(&[1, 2]);
    hub.send_control(OutboundTarget::ToPeer(1), message("hello")).unwrap();
    assert_eq!(hub.audio_sender(1).unwrap().write_signal.pending, 1);
    assert_eq!(hub.audio_sender(2).unwrap().write_signal.pending, 0);
}

#[test]
fn message_to_a_missing_peer_is_no_error() {
    let mut hub = hub_of(&[1]);
    assert_eq!(hub.send_control(OutboundTarget::ToPeer(7), message("nobody")), Ok(()));
    assert!(next_in_hub(&mut hub, 1).is_err());
}

#[test]
fn message_to_one_peer_leaves_the_others_alone() {
    let mut hub = hub_of(&[1, 2, 3]);
    hub.send_control(OutboundTarget::ToPeer(2), message("two")).unwrap();
    assert_eq!(next_in_hub(&mut hub, 1), Err(TryRecvError::Empty));
    assert_eq!(next_in_hub(&mut hub, 2), Ok(message("two")));
    assert_eq!(next_in_hub(&mut hub, 3), Err(TryRecvError::Empty));
}

#[test]
fn broadcast_waits_for_the_first_full_queue() {
    let mut hub = hub_of(&[1, 2, 3]);
    for _ in 0..8 {
        hub.send_control(OutboundTarget::ToPeer(2), message("fill")).unwrap();
    }
    let sent = hub.send_control(OutboundTarget::Broadcast, message("all"));
    assert_eq!(sent, Err(SendControlError::Waits { pending: vec![2, 3] }));
    assert_eq!(next_in_hub(&mut hub, 1), Ok(message("all")));
    assert_eq!(next_in_hub(&mut hub, 3), Err(TryRecvError::Empty));

    assert_eq!(next_in_hub(&mut hub, 2), Ok(message("fill")));
    assert_eq!(hub.resume_control(vec![2, 3], message("all")), Ok(()));
    assert_eq!(next_in_hub(&mut hub, 1), Err(TryRecvError::Empty));
    assert_eq!(next_in_hub(&mut hub, 3), Ok(message("all")));
}

#[test]
fn broadcast_ends_at_a_peer_whose_writer_is_gone() {
    let mut hub = hub_of(&[1, 2, 3]);
    hub.audio_sender(2).unwrap().drop_receivers();
    let sent = hub.dispatch_outbound(RoutedOutbound {
        target: OutboundTarget::Broadcast,
        message: message("all"),
    });
    let err = sent.unwrap_err();
    assert_eq!(err, SendControlError::Disconnected { peer_id: 2 });
    assert_eq!(err.message(), "sending on a closed channel");
    assert_eq!(next_in_hub(&mut hub, 1), Ok(message("all")));
    assert_eq!(next_in_hub(&mut hub, 3), Err(TryRecvError::Empty));
}

#[test]
fn waiting_delivery_has_a_text() {
    let waits = SendControlError::Waits { pending: vec![1] };
    assert_eq!(waits.message(), "sending on a full channel");
}

#[test]
fn close_is_offered_to_whoever_has_room() {
    let mut hub = hub_of(&[1, 2]);
    for _ in 0..8 {
        hub.send_control(OutboundTarget::ToPeer(2), message("fill")).unwrap();
    }
    hub.close_all_peers();
    assert_eq!(next_in_hub(&mut hub, 1), Ok(OutboundControl::Close));
    assert_eq!(hub.audio_sender(2).unwrap().control_sender.sender.len(), 8);
    assert!(!hub.try_close_peer(2));
    assert!(hub.try_close_peer(1));
    assert!(!hub.try_close_peer(9));
}

#[test]
fn hub_counts_its_peers() {
    let mut hub = hub_of(&[1]);
    hub.add_peer(2, outbound(), make_control_sender(), make_audio_sender(), WriteSignal::new());
    assert_eq!(hub.peer_count(), 2);
    assert_eq!(hub.outbound_peer_count(), 1);
    let removal = hub.remove_peer(2).unwrap();
    assert_eq!(removal.source, outbound());
    assert_eq!(removal.remaining_peers, 1);
    assert_eq!(hub.outbound_peer_count(), 0);
    assert!(hub.remove_peer(2).is_none());
}

// --- the peers of a session -------------------------------------------------

#[test]
fn peer_context_routes_broadcast_and_single_peer_messages() {
    let mut peers = PeerContextRegistry::new();
    peers.add_peer(
        1,
        PeerSource::Listener,
        make_control_sender(),
        make_audio_sender(),
        WriteSignal::new(),
    );
    peers.add_peer(
        2,
        PeerSource::Listener,
        make_control_sender(),
        make_audio_sender(),
        WriteSignal::new(),
    );

    peers.send_control(OutboundTarget::Broadcast, message("broadcast")).unwrap();
    peers.send_control(OutboundTarget::ToPeer(2), message("target")).unwrap();

    assert!(matches!(
        next_for(&mut peers, 1).unwrap(),
        OutboundControl::Text(ref text) if text == "broadcast"
    ));
    assert!(matches!(
        next_for(&mut peers, 2).unwrap(),
        OutboundControl::Text(ref text) if text == "broadcast"
    ));
    assert!(matches!(
        next_for(&mut peers, 2).unwrap(),
        OutboundControl::Text(ref text) if text == "target"
    ));
    assert!(next_for(&mut peers, 1).is_err());
}

#[test]
fn peer_context_returns_audio_sender_for_active_peer() {
    let mut peers = PeerContextRegistry::new();
    peers.add_peer(
        2,
        PeerSource::Listener,
        make_control_sender(),
        make_audio_sender(),
        WriteSignal::new(),
    );
    peers.add_peer(
        1,
        PeerSource::Listener,
        make_control_sender(),
        make_audio_sender(),
        WriteSignal::new(),
    );

    let sender = peers.get(2).expect("peer 2 context");
    sender.try_send(vec![1, 2, 3]).unwrap();

    assert_eq!(sender.audio_sender.sender.try_recv().unwrap(), vec![1, 2, 3]);
    assert!(peers.remove_peer(2).is_some());
    assert!(peers.get(2).is_none());
}

#[test]
fn handle_is_installed_once() {
    let mut peers = peers_of(&[3]);
    assert_eq!(peers.install_ws_handle(3, WsPeerHandle::new()), Ok(()));
    assert_eq!(
        peers.install_ws_handle(3, WsPeerHandle::new()),
        Err("ws handle already installed for peer 3".to_string())
    );
    assert_eq!(
        peers.install_ws_handle(4, WsPeerHandle::new()),
        Err("peer context not found: 4".to_string())
    );
    assert_eq!(missing_peer(4), "peer context not found: 4");
}

#[test]
fn clearing_audio_is_asked_of_the_writer() {
    let mut peers = peers_of(&[1]);
    assert_eq!(peers.clear_audio_queue(1, 41), Ok(()));
    assert_eq!(next_for(&mut peers, 1), Ok(OutboundControl::ClearAudioQueue(41)));
    assert_eq!(peers.clear_audio_queue(2, 42), Err(ClearAudioError::NoPeer));
    for _ in 0..8 {
        peers.send_control(OutboundTarget::ToPeer(1), message("fill")).unwrap();
    }
    assert_eq!(peers.clear_audio_queue(1, 43), Err(ClearAudioError::Waits));
    peers.get(1).unwrap().drop_receivers();
    assert_eq!(peers.clear_audio_queue(1, 44), Err(ClearAudioError::Disconnected));
}

#[test]
fn removed_peer_takes_everything_along() {
    let mut peers = peers_of(&[1, 2]);
    peers.send_control(OutboundTarget::Broadcast, message("late")).unwrap();
    let mut removed = peers.remove_peer(1).unwrap();
    assert_eq!(removed.remaining_peers, 1);
    assert!(removed.ws_handle.is_none());
    assert_eq!(removed.outbox.control_sender.sender.try_recv(), Ok(message("late")));
    assert!(peers.media(1).is_none());
    assert_eq!(peers.peer_count(), 1);
    assert_eq!(peers.outbound_peer_count(), 0);
}

#[test]
fn media_registry_gives_each_peer_its_own() {
    let mut media = PeerMediaRegistry::new();
    media.add_peer(1);
    media.add_peer(2);
    media.get(1).unwrap().recorder.started(ArecordProfile::Standard);
    assert_eq!(media.get(1).unwrap().recorder.profile, Some(ArecordProfile::Standard));
    assert_eq!(media.get(2).unwrap().recorder.profile, None);
    assert!(media.get(3).is_none());
    assert!(media.remove_peer(1).is_some());
    assert!(media.remove_peer(1).is_none());
    let left = media.drain();
    assert_eq!(left.len(), 1);
    assert_eq!(left[0].0, 2);
    assert!(media.get(2).is_none());
}

// --- capabilities and commands ----------------------------------------------

#[test]
fn fast_recording_needs_a_successful_preparation() {
    assert!(AppCapabilities::detect_at_startup(&Ok(true)).fast_recording_enabled);
    assert!(!AppCapabilities::detect_at_startup(&Ok(false)).fast_recording_enabled);
    let failed = Err("no such device".to_string());
    assert!(!AppCapabilities::detect_at_startup(&failed).fast_recording_enabled);
}

#[test]
fn commands_depend_on_the_capabilities() {
    let all = [
        ("get_version", Command::GetVersion),
        ("run_shell", Command::RunShell),
        ("xiaoai_exit", Command::XiaoaiExit),
        ("start_play", Command::StartPlay),
        ("stop_play", Command::StopPlay),
        ("start_recording", Command::StartRecording),
        ("stop_recording", Command::StopRecording),
    ];
    let fast = [
        ("fast_recording", Command::FastRecording),
        ("llm_start", Command::LlmStart),
        ("llm_stop", Command::LlmStop),
    ];
    for enabled in [false, true] {
        let mut registry: CommandRegistry<Command> = CommandRegistry::new();
        register_session_commands(
            &mut registry,
            AppCapabilities { fast_recording_enabled: enabled },
        );
        for (name, command) in all {
            assert_eq!(registry.handle(&request(name, None)), Ok(&command));
        }
        for (name, command) in fast {
            let found = registry.handle(&request(name, None));
            if enabled {
                assert_eq!(found, Ok(&command));
            } else {
                assert_eq!(found, Err(format!("command not found: {name}")));
            }
        }
    }
}

#[test]
fn version_is_answered_at_once() {
    let mut peers = peers_of(&[]);
    let step = begin(Command::GetVersion, None, &mut peers);
    assert_eq!(
        step,
        CommandStep::Done(Ok(Response::from_data(Json::Str("1.2.3".to_string()))))
    );
}

#[test]
fn shell_command_needs_a_text() {
    let mut peers = peers_of(&[]);
    let mut run = |payload| begin(Command::RunShell, payload, &mut peers);
    assert_eq!(
        run(Some(Json::Str("ls".to_string()))),
        CommandStep::RunShell("ls".to_string())
    );
    assert_eq!(run(None), CommandStep::Done(Err("empty command".to_string())));
    let others = [
        Json::Null,
        Json::Bool(true),
        Json::Uint(7),
        Json::Int(-7),
        Json::Float("1.5".to_string()),
        Json::Array(vec![]),
        Json::Object(vec![]),
    ];
    for payload in others {
        assert_eq!(run(Some(payload)), CommandStep::Done(Err("refused".to_string())));
    }
}

#[test]
fn shell_payload_is_refused_with_the_words_of_the_parser() {
    let payloads = [
        (Json::Null, serde_json::Value::Null),
        (Json::Bool(true), serde_json::Value::from(true)),
        (Json::Uint(7), serde_json::Value::from(7)),
        (Json::Int(-7), serde_json::Value::from(-7)),
        (Json::Float("1.5".to_string()), serde_json::Value::from(1.5)),
        (Json::Array(vec![]), serde_json::Value::Array(vec![])),
        (Json::Object(vec![]), serde_json::Value::Object(serde_json::Map::new())),
    ];
    let mut peers = peers_of(&[]);
    for (payload, value) in payloads {
        let err = serde_json::from_value::<String>(value).unwrap_err().to_string();
        let request = request("run_shell", Some(payload));
        assert_eq!(
            begin_command(Command::RunShell, by(1), &request, &err, "1.2.3", &mut peers),
            CommandStep::Done(Err(err))
        );
    }
}

#[test]
fn last_member_of_a_name_counts_in_a_format() {
    let format = |rates: &[u64]| {
        let mut members = vec![
            ("pcm".to_string(), Json::Str("noop".to_string())),
            ("channels".to_string(), Json::Uint(1)),
            ("bits_per_sample".to_string(), Json::Uint(16)),
            ("period_size".to_string(), Json::Uint(160)),
            ("buffer_size".to_string(), Json::Uint(480)),
        ];
        for rate in rates {
            members.push(("sample_rate".to_string(), Json::Uint(*rate)));
        }
        Some(Json::Object(members))
    };
    let mut peers = peers_of(&[1]);
    let once = begin(Command::StartPlay, format(&[8000]), &mut peers);
    let twice = begin(Command::StartPlay, format(&[16000, 8000]), &mut peers);
    assert_eq!(once, twice);
    assert_ne!(once, begin(Command::StartPlay, None, &mut peers));
}

#[test]
fn assistant_is_ended_by_a_restart() {
    let mut peers = peers_of(&[]);
    assert_eq!(
        begin(Command::XiaoaiExit, None, &mut peers),
        CommandStep::RunShell("/etc/init.d/mico_aivs_lab restart >/dev/null 2>&1".to_string())
    );
}

#[test]
fn script_result_is_the_answer() {
    let result = CommandResult {
        stdout: "out".to_string(),
        stderr: "err".to_string(),
        exit_code: -1,
    };
    let response = shell_finished(Ok(result)).unwrap();
    assert_eq!(response.id, "0");
    assert_eq!(response.code, None);
    assert_eq!(
        response.data,
        Some(Json::Object(vec![
            ("exit_code".to_string(), Json::Int(-1)),
            ("stderr".to_string(), Json::Str("err".to_string())),
            ("stdout".to_string(), Json::Str("out".to_string())),
        ]))
    );
    assert_eq!(shell_finished(Err("gone".to_string())), Err("gone".to_string()));
}

#[test]
fn commands_that_need_media_need_the_peer() {
    for command in [
        Command::StartPlay,
        Command::StopPlay,
        Command::StartRecording,
        Command::FastRecording,
        Command::LlmStart,
        Command::LlmStop,
        Command::StopRecording,
    ] {
        let mut peers = peers_of(&[2]);
        assert_eq!(
            begin(command, None, &mut peers),
            CommandStep::Done(Err("peer context not found: 1".to_string()))
        );
    }
}

#[test]
fn player_is_started_and_stopped() {
    let mut peers = peers_of(&[1, 2]);
    let format = Json::Object(vec![
        ("pcm".to_string(), Json::Str("noop".to_string())),
        ("channels".to_string(), Json::Uint(1)),
        ("bits_per_sample".to_string(), Json::Uint(16)),
        ("sample_rate".to_string(), Json::Uint(24000)),
        ("period_size".to_string(), Json::Uint(360)),
        ("buffer_size".to_string(), Json::Uint(1440)),
    ]);
    let step = begin(Command::StartPlay, Some(format), &mut peers);
    let CommandStep::LaunchPlayer { peer_id, start } = step else {
        panic!("a player has to be launched");
    };
    assert_eq!(peer_id, 1);
    assert_eq!(start.stop, PlayerStop { join_task: false, kill_child: false });
    assert!(start.args.contains(&"24000".to_string()));

    assert!(player_launched(&mut peers, 1, Err("no aplay".to_string())).is_err());
    assert_eq!(
        peers.media(1).unwrap().player.enqueue(vec![1]),
        Enqueued::NotStarted
    );
    let launched = player_launched(&mut peers, 1, Ok(()));
    assert_eq!(ok(launched), (Some(0), Some("success".to_string())));
    assert_eq!(peers.media(1).unwrap().player.enqueue(vec![1]), Enqueued::Queued);
    assert_eq!(
        peers.media(2).unwrap().player.enqueue(vec![1]),
        Enqueued::NotStarted
    );

    let step = begin(Command::StopPlay, None, &mut peers);
    assert_eq!(
        step,
        CommandStep::HaltPlayer {
            peer_id: 1,
            stop: PlayerStop { join_task: true, kill_child: true },
        }
    );
    assert_eq!(ok(halted()), (Some(0), Some("success".to_string())));
    assert_eq!(
        begin(Command::StopPlay, None, &mut peers),
        CommandStep::HaltPlayer {
            peer_id: 1,
            stop: PlayerStop { join_task: false, kill_child: false },
        }
    );
}

#[test]
fn recording_is_started_switched_and_stopped() {
    let mut peers = peers_of(&[1, 2]);
    let step = begin(Command::StartRecording, None, &mut peers);
    let CommandStep::LaunchRecorder { peer_id, stop, plan, then } = step else {
        panic!("a recorder has to be launched");
    };
    assert_eq!(peer_id, 1);
    assert_eq!(stop, RecorderStop { kill_child: false, join_task: false });
    assert_eq!(plan.profile, ArecordProfile::Standard);
    assert_eq!(then, AfterRecording::Reply);
    assert_eq!(
        recorder_launched(&mut peers, 1, plan.profile, then, Err("no arecord".to_string())),
        CommandStep::Done(Err("no arecord".to_string()))
    );
    assert_eq!(peers.media(1).unwrap().recorder.profile, None);
    let done = recorder_launched(&mut peers, 1, plan.profile, then, Ok(()));
    assert_eq!(done, CommandStep::Done(Ok(Response::success())));

    assert_eq!(
        begin(Command::StartRecording, None, &mut peers),
        CommandStep::Done(Ok(Response::success()))
    );

    let step = begin(Command::LlmStart, None, &mut peers);
    let CommandStep::LaunchRecorder { stop, plan, then, .. } = step else {
        panic!("the mode has to change");
    };
    assert_eq!(stop, RecorderStop { kill_child: true, join_task: true });
    assert_eq!(plan.profile, ArecordProfile::FastLlm);
    assert_eq!(then, AfterRecording::ClearAudio(ClearReply::LlmStart));
    assert_eq!(
        recorder_launched(&mut peers, 1, plan.profile, then, Ok(())),
        CommandStep::ClearAudio { peer_id: 1, reply: ClearReply::LlmStart }
    );
    assert_eq!(
        begin(Command::LlmStart, None, &mut peers),
        CommandStep::ClearAudio { peer_id: 1, reply: ClearReply::LlmStart }
    );

    let step = begin(Command::LlmStop, None, &mut peers);
    let CommandStep::LaunchRecorder { plan, then, .. } = step else {
        panic!("the mode has to change back");
    };
    assert_eq!(plan.profile, ArecordProfile::FastKws);
    assert_eq!(then, AfterRecording::ClearAudio(ClearReply::LlmStop));
    recorder_launched(&mut peers, 1, plan.profile, then, Ok(()));
    assert_eq!(
        begin(Command::FastRecording, None, &mut peers),
        CommandStep::Done(Ok(Response::success()))
    );

    assert_eq!(
        begin(Command::StopRecording, None, &mut peers),
        CommandStep::HaltRecorder {
            peer_id: 1,
            stop: RecorderStop { kill_child: true, join_task: true },
        }
    );
    assert_eq!(peers.media(1).unwrap().recorder.profile, None);
    assert_eq!(peers.media(2).unwrap().recorder.profile, None);
}

#[test]
fn conversation_answers_once_the_audio_is_gone() {
    assert_eq!(
        ok(audio_cleared(ClearReply::LlmStart, Ok(3))),
        (Some(0), Some("llm_start_ok".to_string()))
    );
    assert_eq!(
        ok(audio_cleared(ClearReply::LlmStop, Ok(0))),
        (Some(0), Some("llm_stop_ok".to_string()))
    );
    let failures = [
        (ClearFailure::NoPeer(4), "peer context not found: 4"),
        (
            ClearFailure::NotQueued("sending on a closed channel".to_string()),
            "failed to queue audio clear command: sending on a closed channel",
        ),
        (
            ClearFailure::NoAnswer("timed out waiting on channel".to_string()),
            "timed out waiting for audio queue clear: timed out waiting on channel",
        ),
    ];
    for (failure, text) in failures {
        assert_eq!(audio_cleared(ClearReply::LlmStop, Err(failure)), Err(text.to_string()));
    }
}

// --- the session ------------------------------------------------------------

#[test]
fn peer_joins_and_leaves_a_session() {
    let mut session = SessionRuntime::new(7);
    assert_eq!(session.session_id, 7);
    session.attach_peer(1, PeerSource::Listener);
    session.attach_peer(2, outbound());
    assert!(session.take_handle(1).is_none());
    assert_eq!(session.attached(1, Ok(())), Ok(()));
    assert_eq!(session.attached(2, Ok(())), Ok(()));
    let outbox = session.peers.get(1).unwrap();
    assert_eq!(outbox.control_sender.sender.capacity, CONTROL_QUEUE_CAPACITY);
    assert_eq!(outbox.audio_sender.sender.capacity, AUDIO_QUEUE_CAPACITY);

    let (mut handle, offered) = session.begin_departure(2).unwrap();
    assert!(offered);
    assert_eq!(next_for(&mut session.peers, 2), Ok(OutboundControl::Close));
    assert!(session.begin_departure(2).is_none());

    assert!(session.force_close(2, &mut handle));
    assert!(session.peers.get(2).unwrap().write_signal.closed);
    assert!(!session.force_close(2, &mut handle));
    assert!(!session.peers.get(1).unwrap().write_signal.closed);

    let gone = session.finish_departure(2).unwrap();
    assert_eq!(gone.source, outbound());
    assert_eq!(gone.remaining_peers, 1);
    assert_eq!(gone.recorder, RecorderStop { kill_child: false, join_task: false });
    assert_eq!(gone.player, PlayerStop { join_task: false, kill_child: false });
    assert!(session.finish_departure(2).is_none());
    assert_eq!(session.peers.hub.peers.peer_ids(), vec![1]);
}

#[test]
fn peer_that_cannot_be_started_is_taken_out() {
    let mut session = SessionRuntime::new(1);
    session.attach_peer(1, PeerSource::Listener);
    assert_eq!(
        session.attached(1, Err("no runtime".to_string())),
        Err("no runtime".to_string())
    );
    assert_eq!(session.peers.peer_count(), 0);
    assert_eq!(session.attached(1, Ok(())), Err("peer context not found: 1".to_string()));
}

#[test]
fn running_media_is_named_when_a_peer_leaves() {
    let mut session = SessionRuntime::new(1);
    session.attach_peer(1, PeerSource::Listener);
    session.attached(1, Ok(())).unwrap();
    let media = session.peers.media(1).unwrap();
    media.recorder.started(ArecordProfile::FastKws);
    media.player.started();
    let gone = session.finish_departure(1).unwrap();
    assert_eq!(gone.recorder, RecorderStop { kill_child: true, join_task: true });
    assert_eq!(gone.player, PlayerStop { join_task: true, kill_child: true });
    assert_eq!(gone.remaining_peers, 0);
}

#[test]
fn session_is_shut_down_peer_by_peer() {
    let mut session = SessionRuntime::new(1);
    session.attach_peer(4, outbound());
    session.attach_peer(3, PeerSource::Listener);
    let (summary, ids) = session.shutdown();
    assert_eq!(summary, SessionShutdownSummary { closed_outbound_peers: 1 });
    assert_eq!(ids, vec![4, 3]);
    assert_eq!(next_for(&mut session.peers, 3), Ok(OutboundControl::Close));
    assert_eq!(next_for(&mut session.peers, 4), Ok(OutboundControl::Close));
}

// --- the supervisor ---------------------------------------------------------

fn supervisor() -> AppSupervisor {
    AppSupervisor::new(RunConfig {
        listen_enabled: true,
        server_url: Some("ws://server".to_string()),
        ws_token: None,
        debug_enabled: false,
    })
}

#[test]
fn joining_peer_leaves_the_others_alone() {
    let mut app = supervisor();
    let mut barrier = ConnectServerStatus::new();
    app.run_forever(SupervisorEvent::PendingPeer(outbound()), &mut barrier);
    let spawned = SupervisorEvent::PeerSpawned { peer_id: 1, source: outbound(), spawned: Ok(()) };
    app.run_forever(spawned, &mut barrier);
    let peers = &mut app.session.as_mut().unwrap().peers;
    begin(Command::StartPlay, None, peers);
    player_launched(peers, 1, Ok(())).unwrap();

    let pending = SupervisorEvent::PendingPeer(PeerSource::Listener);
    let action = app.run_forever(pending, &mut barrier);
    assert_eq!(action, SupervisorAction::SpawnPeer { new_session: None, peer_id: 2 });
    let peers = &mut app.session.as_mut().unwrap().peers;
    assert_eq!(peers.media(1).unwrap().player.enqueue(vec![1]), Enqueued::Queued);
    assert_eq!(peers.media(2).unwrap().player.enqueue(vec![1]), Enqueued::NotStarted);

    // The second peer cannot start; the first goes on playing and can still leave.
    let failed = SupervisorEvent::PeerSpawned {
        peer_id: 2,
        source: PeerSource::Listener,
        spawned: Err("no task".to_string()),
    };
    let action = app.run_forever(failed, &mut barrier);
    assert!(matches!(action, SupervisorAction::AttachFailed { shut_down: false, .. }));
    let peers = &mut app.session.as_mut().unwrap().peers;
    assert_eq!(peers.media(1).unwrap().player.enqueue(vec![2]), Enqueued::Queued);
    assert!(peers.media(2).is_none());
    let exit = SupervisorEvent::PeerTaskExited(PeerTaskExit {
        session_id: 1,
        peer_id: 1,
        source: outbound(),
        task_name: "reader".to_string(),
        result: Ok(()),
    });
    let action = app.run_forever(exit, &mut barrier);
    assert_eq!(action, SupervisorAction::DepartPeer { peer_id: 1 });
    assert!(app.session.as_mut().unwrap().finish_departure(1).is_some());
}

#[test]
fn session_begins_with_its_first_peer_and_ends_with_its_last() {
    let mut app = supervisor();
    let mut barrier = ConnectServerStatus::new();
    barrier.mark_connected();

    let action = app.run_forever(SupervisorEvent::PendingPeer(outbound()), &mut barrier);
    assert_eq!(action, SupervisorAction::SpawnPeer { new_session: Some(1), peer_id: 1 });
    let spawned = SupervisorEvent::PeerSpawned { peer_id: 1, source: outbound(), spawned: Ok(()) };
    let action = app.run_forever(spawned, &mut barrier);
    assert_eq!(action, SupervisorAction::Wait { wake_connector: false });

    let pending = SupervisorEvent::PendingPeer(PeerSource::Listener);
    let action = app.run_forever(pending, &mut barrier);
    assert_eq!(action, SupervisorAction::SpawnPeer { new_session: None, peer_id: 2 });

    let exit = |peer_id, source| {
        SupervisorEvent::PeerTaskExited(PeerTaskExit {
            session_id: 1,
            peer_id,
            source,
            task_name: "reader".to_string(),
            result: Ok(()),
        })
    };
    let action = app.run_forever(exit(1, outbound()), &mut barrier);
    assert_eq!(action, SupervisorAction::DepartPeer { peer_id: 1 });
    assert!(barrier.active);
    let gone = app.session.as_mut().unwrap().finish_departure(1);
    let action = app.run_forever(SupervisorEvent::PeerDeparted(gone), &mut barrier);
    assert_eq!(action, SupervisorAction::Wait { wake_connector: true });
    assert!(!barrier.active);

    let gone = app.session.as_mut().unwrap().finish_departure(1);
    let action = app.run_forever(SupervisorEvent::PeerDeparted(gone), &mut barrier);
    assert_eq!(action, SupervisorAction::Wait { wake_connector: false });

    let gone = app.session.as_mut().unwrap().finish_departure(2);
    let action = app.run_forever(SupervisorEvent::PeerDeparted(gone), &mut barrier);
    assert_eq!(action, SupervisorAction::ShutDown { wake_connector: false });
    let (summary, _) = app.session.as_mut().unwrap().shutdown();
    let action = app.run_forever(SupervisorEvent::SessionEnded(summary), &mut barrier);
    assert_eq!(action, SupervisorAction::Closed { wake_connector: false });
    assert!(app.session.is_none());

    let pending = SupervisorEvent::PendingPeer(PeerSource::Listener);
    let action = app.run_forever(pending, &mut barrier);
    assert_eq!(action, SupervisorAction::SpawnPeer { new_session: Some(2), peer_id: 3 });
}

#[test]
fn events_of_another_session_change_nothing() {
    let mut app = supervisor();
    let mut barrier = ConnectServerStatus::new();
    app.run_forever(SupervisorEvent::PendingPeer(PeerSource::Listener), &mut barrier);
    barrier.mark_connected();
    let stale = PeerTaskExit {
        session_id: 9,
        peer_id: 1,
        source: outbound(),
        task_name: "writer".to_string(),
        result: Ok(()),
    };
    let action = app.run_forever(SupervisorEvent::PeerTaskExited(stale), &mut barrier);
    assert_eq!(action, SupervisorAction::Wait { wake_connector: true });
    let router = RouterExit { session_id: 9, result: Ok(()) };
    let action = app.run_forever(SupervisorEvent::RouterExited(router), &mut barrier);
    assert_eq!(action, SupervisorAction::Wait { wake_connector: false });
    assert_eq!(app.session.as_ref().unwrap().peers.peer_count(), 1);
}

#[test]
fn new_peer_gets_a_number_of_its_own() {
    let mut app = supervisor();
    let mut barrier = ConnectServerStatus::new();
    for expected in 1..=4 {
        let pending = SupervisorEvent::PendingPeer(PeerSource::Listener);
        let action = app.run_forever(pending, &mut barrier);
        assert!(matches!(action, SupervisorAction::SpawnPeer { peer_id, .. } if peer_id == expected));
    }
    assert_eq!(app.session.as_ref().unwrap().peers.hub.peers.peer_ids(), vec![1, 2, 3, 4]);
}

#[test]
fn session_does_not_outlive_its_router() {
    let mut app = supervisor();
    let mut barrier = ConnectServerStatus::new();
    app.run_forever(SupervisorEvent::PendingPeer(PeerSource::Listener), &mut barrier);
    let router = RouterExit { session_id: 1, result: Err("broken".to_string()) };
    let action = app.run_forever(SupervisorEvent::RouterExited(router), &mut barrier);
    assert_eq!(action, SupervisorAction::ShutDown { wake_connector: false });
    barrier.mark_connected();
    let summary = SessionShutdownSummary { closed_outbound_peers: 1 };
    let action = app.run_forever(SupervisorEvent::SessionEnded(summary), &mut barrier);
    assert_eq!(action, SupervisorAction::Closed { wake_connector: true });
    assert!(!barrier.active);
}

#[test]
fn failed_start_lets_the_connector_go_on() {
    let mut app = supervisor();
    let mut barrier = ConnectServerStatus::new();
    barrier.mark_connected();
    app.run_forever(SupervisorEvent::PendingPeer(outbound()), &mut barrier);
    let failed = SupervisorEvent::PeerSpawned {
        peer_id: 1,
        source: outbound(),
        spawned: Err("no socket".to_string()),
    };
    let action = app.run_forever(failed, &mut barrier);
    assert_eq!(
        action,
        SupervisorAction::AttachFailed {
            err: "no socket".to_string(),
            wake_connector: true,
            shut_down: true,
        }
    );
    assert!(!barrier.active);
    assert_eq!(app.session.as_ref().unwrap().peers.peer_count(), 0);

    let late = SupervisorEvent::PeerSpawned {
        peer_id: 1,
        source: PeerSource::Listener,
        spawned: Ok(()),
    };
    assert_eq!(
        app.run_forever(late, &mut barrier),
        SupervisorAction::AttachFailed {
            err: "peer context not found: 1".to_string(),
            wake_connector: false,
            shut_down: true,
        }
    );
}

#[test]
fn ends_of_tasks_are_logged() {
    let mut exit = PeerTaskExit {
        session_id: 3,
        peer_id: 5,
        source: PeerSource::Listener,
        task_name: "ws-reader".to_string(),
        result: Ok(()),
    };
    assert_eq!(log_peer_task_exit(&exit), "Peer task exited: session=3, peer=5, task=ws-reader");
    exit.result = Err("reset".to_string());
    assert_eq!(
        log_peer_task_exit(&exit),
        "Peer task failed: session=3, peer=5, task=ws-reader, err=reset"
    );
    let mut router = RouterExit { session_id: 3, result: Ok(()) };
    assert_eq!(log_router_exit(&router), "Router exited for session 3");
    router.result = Err("closed".to_string());
    assert_eq!(log_router_exit(&router), "Router failed for session 3: closed");
}

#[test]
fn numbers_are_given_out_in_order() {
    let mut app = supervisor();
    assert_eq!(app.allocate_session_id(), 1);
    assert_eq!(app.allocate_session_id(), 2);
    assert_eq!(app.allocate_peer_id(), 1);
    assert_eq!(app.allocate_peer_id(), 2);
    app.next_peer_id = u64::MAX;
    assert_eq!(app.allocate_peer_id(), u64::MAX);
    assert_eq!(app.allocate_peer_id(), u64::MAX);
}

#[test]
fn monitor_that_fails_is_named() {
    assert_eq!(join_monitor_thread("kws", &MonitorExit::Returned(Ok(()))), None);
    assert_eq!(
        join_monitor_thread("playing", &MonitorExit::Returned(Err("no ubus".to_string()))),
        Some("Monitor thread playing exited with error: no ubus".to_string())
    );
    assert_eq!(
        join_monitor_thread("instruction", &MonitorExit::Panicked),
        Some("Monitor thread instruction panicked".to_string())
    );
}

// --- the ways in ------------------------------------------------------------

#[test]
fn connector_makes_one_connection_at_a_time() {
    let mut phase = ConnectorPhase::Waiting;
    let mut barrier = ConnectServerStatus::new();
    let mut step = |barrier: &mut ConnectServerStatus, event| connector_step(&mut phase, barrier, event);
    assert_eq!(step(&mut barrier, ConnectorEvent::Resumed), ConnectorAction::Connect);
    assert_eq!(step(&mut barrier, ConnectorEvent::Connected(false)), ConnectorAction::Rest);
    assert_eq!(step(&mut barrier, ConnectorEvent::Resumed), ConnectorAction::Connect);
    assert_eq!(step(&mut barrier, ConnectorEvent::Connected(true)), ConnectorAction::Report);
    assert!(barrier.active);
    assert_eq!(step(&mut barrier, ConnectorEvent::Reported(true)), ConnectorAction::Wait);
    assert_eq!(step(&mut barrier, ConnectorEvent::Resumed), ConnectorAction::Wait);
    assert!(barrier.mark_disconnected());
    assert!(!barrier.mark_disconnected());
    assert!(barrier.wait_until_inactive());
    assert_eq!(step(&mut barrier, ConnectorEvent::Resumed), ConnectorAction::Connect);
    assert_eq!(step(&mut barrier, ConnectorEvent::Connected(true)), ConnectorAction::Report);
    assert_eq!(step(&mut barrier, ConnectorEvent::Reported(false)), ConnectorAction::Stop);
    assert!(!barrier.active);
    assert_eq!(step(&mut barrier, ConnectorEvent::Resumed), ConnectorAction::Stop);
}

#[test]
fn listener_starts_over_after_a_failure() {
    let mut phase = ListenerPhase::Binding;
    let mut step = |event| listener_step(&mut phase, event);
    assert_eq!(step(ListenerEvent::Resumed), ListenerAction::Bind);
    assert_eq!(step(ListenerEvent::Bound(false)), ListenerAction::Rest);
    assert_eq!(step(ListenerEvent::Resumed), ListenerAction::Bind);
    assert_eq!(step(ListenerEvent::Bound(true)), ListenerAction::Accept);
    assert_eq!(step(ListenerEvent::Accepted(true)), ListenerAction::Upgrade);
    assert_eq!(step(ListenerEvent::Upgraded(false)), ListenerAction::Accept);
    assert_eq!(step(ListenerEvent::Accepted(true)), ListenerAction::Upgrade);
    assert_eq!(step(ListenerEvent::Upgraded(true)), ListenerAction::Report);
    assert_eq!(step(ListenerEvent::Reported(true)), ListenerAction::Accept);
    assert_eq!(step(ListenerEvent::Accepted(false)), ListenerAction::Rest);
    assert_eq!(step(ListenerEvent::Resumed), ListenerAction::Bind);
    assert_eq!(listen_addr(), "0.0.0.0:4399");
    assert_eq!(RETRY_DELAY_SECS, 1);
}
