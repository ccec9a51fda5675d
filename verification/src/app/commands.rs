//! The commands that a peer can have carried out.
//!
//! A command is begun here and finished here; what lies between, such as running
//! a script or starting a process, is asked for with a [`CommandStep`].

use crate::app::capabilities::AppCapabilities;
use crate::app::peer_context::{missing_peer, missing_peer_text, PeerContextRegistry};
use crate::app::peer_media::PeerMedia;
use crate::audio::config::{
    config_of, config_or_default, default_config, law_format_is_read_by_name, AudioConfig,
    AudioConfigView,
};
use crate::audio::player::{aplay_args, PlayerStart, PlayerStop};
use crate::audio::recorder::{
    arecord_args, fast_config, has_option, law_arecord_is_told_the_format, running_recorder, starts,
    stopped_recorder, ArecordProfile, AudioRecorder,
    FastRecordingMode, RecorderStart, RecorderStop, RecordingPlan,
};
use crate::protocol::data::{Request, Response, ResponseView};
use crate::protocol::json::{
    law_contents_have_the_shape_of_the_value, member, opt_json, Json, JsonView,
};
use crate::protocol::registry::{CommandContext, CommandRegistry};
use crate::protocol::settled::{
    law_last_member_of_a_name_is_kept, settle, settled, settled_members,
};
use crate::shell::command::{result_json, CommandResult};
use crate::text::{decimal, opt_text, texts};
use crate::transport::control::PeerId;
use vstd::prelude::*;

verus! {

/// Everything that a peer can ask for.
#[derive(Debug, Clone, Copy, PartialEq, Eq, Structural)]
pub enum Command {
    GetVersion,
    RunShell,
    XiaoaiExit,
    StartPlay,
    StopPlay,
    StartRecording,
    FastRecording,
    LlmStart,
    LlmStop,
    StopRecording,
}

/// The commands of a session under their names. The fast recordings are there
/// only where the device can do them.
pub open spec fn session_commands(
    before: Map<Seq<char>, Command>,
    capabilities: AppCapabilities,
) -> Map<Seq<char>, Command> {
    let basic = before.insert("get_version"@, Command::GetVersion).insert(
        "run_shell"@,
        Command::RunShell,
    ).insert("xiaoai_exit"@, Command::XiaoaiExit).insert("start_play"@, Command::StartPlay).insert(
        "stop_play"@,
        Command::StopPlay,
    ).insert("start_recording"@, Command::StartRecording);
    let all = if capabilities.fast_recording_enabled {
        basic.insert("fast_recording"@, Command::FastRecording).insert(
            "llm_start"@,
            Command::LlmStart,
        ).insert("llm_stop"@, Command::LlmStop)
    } else {
        basic
    };
    all.insert("stop_recording"@, Command::StopRecording)
}

/// Registers the commands of a session; see [`session_commands`].
pub fn register_session_commands(
    registry: &mut CommandRegistry<Command>,
    capabilities: AppCapabilities,
)
    ensures
        final(registry)@ == session_commands(old(registry)@, capabilities),
{
    registry.register("get_version", Command::GetVersion);
    registry.register("run_shell", Command::RunShell);
    registry.register("xiaoai_exit", Command::XiaoaiExit);
    registry.register("start_play", Command::StartPlay);
    registry.register("stop_play", Command::StopPlay);
    registry.register("start_recording", Command::StartRecording);
    if capabilities.fast_recording_enabled {
        registry.register("fast_recording", Command::FastRecording);
        registry.register("llm_start", Command::LlmStart);
        registry.register("llm_stop", Command::LlmStop);
    }
    registry.register("stop_recording", Command::StopRecording);
}

/// Without the capability, none of the commands that need it is there; with it,
/// all of them are. The others do not depend on it.
pub proof fn law_fast_commands_need_the_capability(capabilities: AppCapabilities)
    ensures
        ({
            let commands = session_commands(Map::empty(), capabilities);
            &&& commands.contains_key("fast_recording"@) == capabilities.fast_recording_enabled
            &&& commands.contains_key("llm_start"@) == capabilities.fast_recording_enabled
            &&& commands.contains_key("llm_stop"@) == capabilities.fast_recording_enabled
            &&& commands.contains_key("get_version"@)
            &&& commands.contains_key("run_shell"@)
            &&& commands.contains_key("xiaoai_exit"@)
            &&& commands.contains_key("start_play"@)
            &&& commands.contains_key("stop_play"@)
            &&& commands.contains_key("start_recording"@)
            &&& commands.contains_key("stop_recording"@)
            &&& forall|name: Seq<char>|
                name != "fast_recording"@ && name != "llm_start"@ && name != "llm_stop"@
                    ==> commands.contains_key(name) == #[trigger] session_commands(
                    Map::empty(),
                    AppCapabilities { fast_recording_enabled: false },
                ).contains_key(name)
        }),
{
    reveal_strlit("get_version");
    reveal_strlit("run_shell");
    reveal_strlit("xiaoai_exit");
    reveal_strlit("start_play");
    reveal_strlit("stop_play");
    reveal_strlit("start_recording");
    reveal_strlit("fast_recording");
    reveal_strlit("llm_start");
    reveal_strlit("llm_stop");
    reveal_strlit("stop_recording");
    assert("fast_recording"@.len() == 14 && "stop_recording"@.len() == 14);
    assert("fast_recording"@[0] == 'f' && "stop_recording"@[0] == 's');
    assert("llm_start"@.len() == 9 && "run_shell"@.len() == 9 && "stop_play"@.len() == 9);
    assert("llm_start"@[0] == 'l' && "run_shell"@[0] == 'r' && "stop_play"@[0] == 's');
    assert("llm_stop"@.len() == 8);
    assert("get_version"@.len() == 11 && "xiaoai_exit"@.len() == 11);
    assert("start_play"@.len() == 10 && "start_recording"@.len() == 15);
}

/// What a conversation command answers once the old audio is gone.
#[derive(Debug, Clone, Copy, PartialEq, Eq, Structural)]
pub enum ClearReply {
    LlmStart,
    LlmStop,
}

/// What follows once a recording runs.
#[derive(Debug, Clone, Copy, PartialEq, Eq, Structural)]
pub enum AfterRecording {
    /// The command has succeeded.
    Reply,
    /// The audio of the recording before it is thrown away first.
    ClearAudio(ClearReply),
}

/// What has to be done next for a command.
#[derive(Debug, PartialEq, Eq)]
pub enum CommandStep {
    /// The command is done.
    Done(Result<Response, String>),
    /// Run this script, then [`shell_finished`].
    RunShell(String),
    /// Start a player, then [`player_launched`].
    LaunchPlayer { peer_id: PeerId, start: PlayerStart },
    /// Stop a player, then [`halted`].
    HaltPlayer { peer_id: PeerId, stop: PlayerStop },
    /// Stop a recording and start another, then [`recorder_launched`].
    LaunchRecorder {
        peer_id: PeerId,
        stop: RecorderStop,
        plan: RecordingPlan,
        then: AfterRecording,
    },
    /// Stop a recording, then [`halted`].
    HaltRecorder { peer_id: PeerId, stop: RecorderStop },
    /// Have the peer's writer throw its audio away and wait for its answer, then
    /// [`audio_cleared`].
    ClearAudio { peer_id: PeerId, reply: ClearReply },
}

/// The script that ends whatever the assistant does.
pub open spec fn xiaoai_exit_script() -> Seq<char> {
    "/etc/init.d/mico_aivs_lab restart >/dev/null 2>&1"@
}

/// The script of a `run_shell` request: its payload, which has to be a text.
/// `refusal` is what the parser says against a payload that is none.
pub open spec fn script_of(payload: Option<JsonView>, refusal: Seq<char>) -> Result<
    Seq<char>,
    Seq<char>,
> {
    match payload {
        None => Err("empty command"@),
        Some(JsonView::Str(script)) => Ok(script),
        Some(_) => Err(refusal),
    }
}

fn read_script(payload: &Option<Json>, refusal: &str) -> (r: Result<String, String>)
    ensures
        match r {
            Ok(script) => script_of(opt_json(*payload), refusal@) == Ok::<Seq<char>, Seq<char>>(
                script@,
            ),
            Err(err) => script_of(opt_json(*payload), refusal@) == Err::<Seq<char>, Seq<char>>(
                err@,
            ),
        },
{
    match payload {
        None => Err("empty command".to_string()),
        Some(Json::Str(script)) => Ok(script.clone()),
        Some(json) => {
            assert(!(json@ is Str));
            Err(refusal.to_string())
        },
    }
}

/// The sound format that a payload asks for, where the last member of a name counts;
/// a payload that is no format counts as none.
pub open spec fn payload_config(payload: Option<JsonView>) -> AudioConfigView {
    match payload {
        Some(json) => match config_of(settled(json)) {
            Some(config) => config,
            None => default_config(),
        },
        None => default_config(),
    }
}

fn read_config(payload: &Option<Json>) -> (r: Option<AudioConfig>)
    ensures
        config_or_default(r) == payload_config(
            opt_json(*payload),
        ),
{
    match payload {
        Some(json) => AudioConfig::from_value(&settle(json)),
        None => None,
    }
}

/// The step is done, with an error of this text.
pub open spec fn fails_with(step: CommandStep, text: Seq<char>) -> bool {
    step matches CommandStep::Done(Err(err)) && err@ == text
}

/// The step is done, with this response.
pub open spec fn succeeds_with(step: CommandStep, response: ResponseView) -> bool {
    step matches CommandStep::Done(Ok(r)) && r@ == response
}

/// The answer of a command that has nothing to say.
pub open spec fn success_response() -> ResponseView {
    ResponseView { id: "0"@, code: Some(0i32), msg: Some("success"@), data: None }
}

/// Only the media of one peer changed, if anything did.
pub open spec fn touches_only(
    before: PeerContextRegistry,
    after: PeerContextRegistry,
    peer_id: PeerId,
) -> bool {
    &&& after.hub == before.hub
    &&& after.ws_handles == before.ws_handles
    &&& before.has(peer_id) ==> after.media@ == before.media@.insert(peer_id, after.media@[peer_id])
    &&& !before.has(peer_id) ==> after.media@ == before.media@
}

/// How starting a recording reads as a step.
pub open spec fn recording_step(
    peer_id: PeerId,
    before: AudioRecorder,
    requested: AudioConfigView,
    profile: ArecordProfile,
    then: AfterRecording,
    step: CommandStep,
    after: AudioRecorder,
) -> bool {
    if before.profile == Some(profile) {
        after == before && match then {
            AfterRecording::Reply => succeeds_with(step, success_response()),
            AfterRecording::ClearAudio(reply) => step == (CommandStep::ClearAudio {
                peer_id,
                reply,
            }),
        }
    } else {
        step matches CommandStep::LaunchRecorder { peer_id: peer, stop, plan, then: next } && peer
            == peer_id && next == then && starts(
            before,
            requested,
            profile,
            RecorderStart::Launch { stop, plan },
            after,
        )
    }
}

/// What a command of a peer that is there begins with, and what it does to the
/// peer's media.
pub open spec fn begins_with_media(
    command: Command,
    peer_id: PeerId,
    payload: Option<JsonView>,
    before: PeerMedia,
    step: CommandStep,
    after: PeerMedia,
) -> bool {
    match command {
        Command::StartPlay => {
            &&& after.recorder == before.recorder
            &&& !after.player.is_started()
            &&& after.player.is_read() == before.player.is_read()
            &&& after.player.waiting() == before.player.waiting()
            &&& step matches CommandStep::LaunchPlayer { peer_id: peer, start } && peer == peer_id
                && start.stop == (PlayerStop {
                join_task: before.player.task,
                kill_child: before.player.child,
            }) && texts(start.args@) == aplay_args(payload_config(payload))
        },
        Command::StopPlay => {
            &&& after.recorder == before.recorder
            &&& !after.player.is_started()
            &&& after.player.is_read() == before.player.is_read()
            &&& after.player.waiting() == before.player.waiting()
            &&& step == (CommandStep::HaltPlayer {
                peer_id,
                stop: PlayerStop {
                    join_task: before.player.task,
                    kill_child: before.player.child,
                },
            })
        },
        Command::StartRecording => after.player == before.player && recording_step(
            peer_id,
            before.recorder,
            payload_config(payload),
            ArecordProfile::Standard,
            AfterRecording::Reply,
            step,
            after.recorder,
        ),
        Command::FastRecording => after.player == before.player && recording_step(
            peer_id,
            before.recorder,
            fast_config(FastRecordingMode::Kws),
            ArecordProfile::FastKws,
            AfterRecording::Reply,
            step,
            after.recorder,
        ),
        Command::LlmStart => after.player == before.player && recording_step(
            peer_id,
            before.recorder,
            fast_config(FastRecordingMode::LlmRaw),
            ArecordProfile::FastLlm,
            AfterRecording::ClearAudio(ClearReply::LlmStart),
            step,
            after.recorder,
        ),
        Command::LlmStop => after.player == before.player && recording_step(
            peer_id,
            before.recorder,
            fast_config(FastRecordingMode::Kws),
            ArecordProfile::FastKws,
            AfterRecording::ClearAudio(ClearReply::LlmStop),
            step,
            after.recorder,
        ),
        Command::StopRecording => {
            &&& after.player == before.player
            &&& after.recorder == stopped_recorder()
            &&& step == (CommandStep::HaltRecorder {
                peer_id,
                stop: RecorderStop {
                    kill_child: before.recorder.child,
                    join_task: before.recorder.task,
                },
            })
        },
        _ => false,
    }
}

/// Whether a command works on the media of the peer that asked for it.
pub open spec fn needs_media(command: Command) -> bool {
    command != Command::GetVersion && command != Command::RunShell && command != Command::XiaoaiExit
}

/// What a command begins with. `refusal` is what the parser says against a payload
/// that is no text.
pub open spec fn begins(
    command: Command,
    context: CommandContext,
    payload: Option<JsonView>,
    refusal: Seq<char>,
    version: Seq<char>,
    before: PeerContextRegistry,
    step: CommandStep,
    after: PeerContextRegistry,
) -> bool {
    let peer_id = context.peer_id;
    if !needs_media(command) {
        after == before && match command {
            Command::GetVersion => succeeds_with(
                step,
                ResponseView {
                    id: "0"@,
                    code: None,
                    msg: None,
                    data: Some(JsonView::Str(version)),
                },
            ),
            Command::RunShell => match script_of(payload, refusal) {
                Ok(script) => step matches CommandStep::RunShell(text) && text@ == script,
                Err(err) => fails_with(step, err),
            },
            _ => step matches CommandStep::RunShell(text) && text@ == xiaoai_exit_script(),
        }
    } else if !before.has(peer_id) {
        after == before && fails_with(step, missing_peer_text(peer_id))
    } else {
        touches_only(before, after, peer_id) && begins_with_media(
            command,
            peer_id,
            payload,
            before.media@[peer_id],
            step,
            after.media@[peer_id],
        )
    }
}

fn recorder_step(peer_id: PeerId, start: RecorderStart, then: AfterRecording) -> (r: CommandStep)
    ensures
        match start {
            RecorderStart::AlreadyRunning => match then {
                AfterRecording::Reply => succeeds_with(r, success_response()),
                AfterRecording::ClearAudio(reply) => r == (CommandStep::ClearAudio {
                    peer_id,
                    reply,
                }),
            },
            RecorderStart::Launch { stop, plan } => r == (CommandStep::LaunchRecorder {
                peer_id,
                stop,
                plan,
                then,
            }),
        },
{
    match start {
        RecorderStart::AlreadyRunning => after_recording(peer_id, then),
        RecorderStart::Launch { stop, plan } => CommandStep::LaunchRecorder {
            peer_id,
            stop,
            plan,
            then,
        },
    }
}

fn after_recording(peer_id: PeerId, then: AfterRecording) -> (r: CommandStep)
    ensures
        match then {
            AfterRecording::Reply => succeeds_with(r, success_response()),
            AfterRecording::ClearAudio(reply) => r == (CommandStep::ClearAudio { peer_id, reply }),
        },
{
    match then {
        AfterRecording::Reply => CommandStep::Done(Ok(Response::success())),
        AfterRecording::ClearAudio(reply) => CommandStep::ClearAudio { peer_id, reply },
    }
}

/// Begins a command that works on the media of a peer.
fn begin_with_media(
    command: Command,
    peer_id: PeerId,
    payload: &Option<Json>,
    media: &mut PeerMedia,
) -> (r: CommandStep)
    requires
        needs_media(command),
        old(media).wf(),
    ensures
        final(media).wf(),
        begins_with_media(
            command,
            peer_id,
            opt_json(*payload),
            *old(media),
            r,
            *final(media),
        ),
{
    match command {
        Command::StartPlay => {
            let start = media.player.start(read_config(payload));
            CommandStep::LaunchPlayer { peer_id, start }
        },
        Command::StopPlay => {
            let stop = media.player.stop();
            CommandStep::HaltPlayer { peer_id, stop }
        },
        Command::StartRecording => {
            let start = media.recorder.start_recording(read_config(payload));
            recorder_step(peer_id, start, AfterRecording::Reply)
        },
        Command::FastRecording => {
            let start = media.recorder.start_fast_recording();
            recorder_step(peer_id, start, AfterRecording::Reply)
        },
        Command::LlmStart => {
            let start = media.recorder.switch_to_llm_start_audio();
            recorder_step(peer_id, start, AfterRecording::ClearAudio(ClearReply::LlmStart))
        },
        Command::LlmStop => {
            let start = media.recorder.switch_to_llm_stop_audio();
            recorder_step(peer_id, start, AfterRecording::ClearAudio(ClearReply::LlmStop))
        },
        _ => {
            let stop = media.recorder.stop_recording();
            CommandStep::HaltRecorder { peer_id, stop }
        },
    }
}

/// Begins a command; see [`begins`].
pub fn begin_command(
    command: Command,
    context: CommandContext,
    request: &Request,
    refusal: &str,
    version: &str,
    peers: &mut PeerContextRegistry,
) -> (r: CommandStep)
    requires
        old(peers).wf(),
    ensures
        final(peers).wf(),
        begins(
            command,
            context,
            request@.payload,
            refusal@,
            version@,
            *old(peers),
            r,
            *final(peers),
        ),
{
    match command {
        Command::GetVersion => {
            return CommandStep::Done(Ok(Response::from_data(Json::Str(version.to_string()))));
        },
        Command::RunShell => {
            return match read_script(&request.payload, refusal) {
                Ok(script) => CommandStep::RunShell(script),
                Err(err) => CommandStep::Done(Err(err)),
            };
        },
        Command::XiaoaiExit => {
            return CommandStep::RunShell(
                "/etc/init.d/mico_aivs_lab restart >/dev/null 2>&1".to_string(),
            );
        },
        _ => {},
    }
    match peers.media(context.peer_id) {
        Some(media) => begin_with_media(command, context.peer_id, &request.payload, media),
        None => CommandStep::Done(Err(missing_peer(context.peer_id))),
    }
}

/// The outcome of a command that ran a script: the result of the script, also if
/// the script failed.
pub fn shell_finished(result: Result<CommandResult, String>) -> (r: Result<Response, String>)
    ensures
        match result {
            Ok(result) => r matches Ok(response) && response@ == (ResponseView {
                id: "0"@,
                code: None,
                msg: None,
                data: Some(result_json(result@)),
            }),
            Err(err) => r == Err::<Response, String>(err),
        },
{
    match result {
        Ok(result) => Ok(Response::from_data(result.to_value())),
        Err(err) => Err(err),
    }
}

/// The outcome of a command that only had something stopped.
pub fn halted() -> (r: Result<Response, String>)
    ensures
        r matches Ok(response) && response@ == success_response(),
{
    Ok(Response::success())
}

/// The outcome of a command that started a player. Only a player that was
/// started takes blocks in.
pub fn player_launched(
    peers: &mut PeerContextRegistry,
    peer_id: PeerId,
    launched: Result<(), String>,
) -> (r: Result<Response, String>)
    requires
        old(peers).wf(),
        old(peers).has(peer_id) ==> !old(peers).media@[peer_id].player.is_started(),
    ensures
        final(peers).wf(),
        touches_only(*old(peers), *final(peers), peer_id),
        match launched {
            Ok(()) => {
                &&& r matches Ok(response) && response@ == success_response()
                &&& old(peers).has(peer_id) ==> {
                    let after = final(peers).media@[peer_id];
                    &&& after.player.is_started()
                    &&& after.player.is_read()
                    &&& after.player.waiting().len() == 0
                    &&& after.recorder == old(peers).media@[peer_id].recorder
                }
            },
            Err(err) => r == Err::<Response, String>(err) && *final(peers) == *old(peers),
        },
{
    match launched {
        Ok(()) => {
            match peers.media(peer_id) {
                Some(media) => {
                    media.player.started();
                },
                None => {},
            }
            Ok(Response::success())
        },
        Err(err) => {
            assert(old(peers).media@.insert(peer_id, old(peers).media@[peer_id])
                =~= old(peers).media@ || !old(peers).has(peer_id));
            Err(err)
        },
    }
}

/// What follows once a recording was started, or could not be.
pub fn recorder_launched(
    peers: &mut PeerContextRegistry,
    peer_id: PeerId,
    profile: ArecordProfile,
    then: AfterRecording,
    launched: Result<(), String>,
) -> (r: CommandStep)
    requires
        old(peers).wf(),
    ensures
        final(peers).wf(),
        touches_only(*old(peers), *final(peers), peer_id),
        match launched {
            Ok(()) => {
                &&& match then {
                    AfterRecording::Reply => succeeds_with(r, success_response()),
                    AfterRecording::ClearAudio(reply) => r == (CommandStep::ClearAudio {
                        peer_id,
                        reply,
                    }),
                }
                &&& old(peers).has(peer_id) ==> {
                    let after = final(peers).media@[peer_id];
                    &&& after.recorder == running_recorder(profile)
                    &&& after.player == old(peers).media@[peer_id].player
                }
            },
            Err(err) => fails_with(r, err@) && *final(peers) == *old(peers),
        },
{
    match launched {
        Ok(()) => {
            match peers.media(peer_id) {
                Some(media) => {
                    media.recorder.started(profile);
                },
                None => {},
            }
            after_recording(peer_id, then)
        },
        Err(err) => {
            assert(old(peers).media@.insert(peer_id, old(peers).media@[peer_id])
                =~= old(peers).media@ || !old(peers).has(peer_id));
            CommandStep::Done(Err(err))
        },
    }
}

/// Why the audio of a peer was not cleared.
#[derive(Debug, PartialEq, Eq)]
pub enum ClearFailure {
    /// The peer is gone.
    NoPeer(PeerId),
    /// The request could not be queued, with the reason.
    NotQueued(String),
    /// No answer came in time, with the reason.
    NoAnswer(String),
}

/// The message of a conversation command that succeeded.
pub open spec fn clear_reply_text(reply: ClearReply) -> Seq<char> {
    match reply {
        ClearReply::LlmStart => "llm_start_ok"@,
        ClearReply::LlmStop => "llm_stop_ok"@,
    }
}

/// The text of a failure to clear the audio of a peer.
pub open spec fn clear_failure_text(failure: ClearFailure) -> Seq<char> {
    match failure {
        ClearFailure::NoPeer(peer_id) => missing_peer_text(peer_id),
        ClearFailure::NotQueued(err) => "failed to queue audio clear command: "@ + err@,
        ClearFailure::NoAnswer(err) => "timed out waiting for audio queue clear: "@ + err@,
    }
}

/// The outcome of a conversation command, once the old audio was cleared or could
/// not be.
pub fn audio_cleared(reply: ClearReply, cleared: Result<usize, ClearFailure>) -> (r: Result<
    Response,
    String,
>)
    ensures
        match cleared {
            Ok(_) => r matches Ok(response) && response@ == (ResponseView {
                id: "0"@,
                code: Some(0i32),
                msg: Some(clear_reply_text(reply)),
                data: None,
            }),
            Err(failure) => r matches Err(err) && err@ == clear_failure_text(failure),
        },
{
    match cleared {
        Ok(_) => match reply {
            ClearReply::LlmStart => Ok(Response::success_msg("llm_start_ok")),
            ClearReply::LlmStop => Ok(Response::success_msg("llm_stop_ok")),
        },
        Err(ClearFailure::NoPeer(peer_id)) => Err(missing_peer(peer_id)),
        Err(ClearFailure::NotQueued(err)) => {
            let mut text = "failed to queue audio clear command: ".to_string();
            text.append(err.as_str());
            Err(text)
        },
        Err(ClearFailure::NoAnswer(err)) => {
            let mut text = "timed out waiting for audio queue clear: ".to_string();
            text.append(err.as_str());
            Err(text)
        },
    }
}

/// A command of one peer never touches the media of another.
pub proof fn law_commands_stay_with_their_peer(
    command: Command,
    context: CommandContext,
    payload: Option<JsonView>,
    refusal: Seq<char>,
    version: Seq<char>,
    before: PeerContextRegistry,
    step: CommandStep,
    after: PeerContextRegistry,
    other: PeerId,
)
    requires
        begins(command, context, payload, refusal, version, before, step, after),
        before.media@.contains_key(other),
        other != context.peer_id,
    ensures
        after.media@.contains_key(other),
        after.media@[other] == before.media@[other],
        after.hub == before.hub,
{
}

/// A conversation begins with the recording and only then has the old audio
/// cleared: no step of `llm_start` or `llm_stop` answers before that.
pub proof fn law_conversation_clears_audio_last(
    command: Command,
    context: CommandContext,
    payload: Option<JsonView>,
    refusal: Seq<char>,
    version: Seq<char>,
    before: PeerContextRegistry,
    step: CommandStep,
    after: PeerContextRegistry,
)
    requires
        begins(command, context, payload, refusal, version, before, step, after),
        command == Command::LlmStart || command == Command::LlmStop,
        before.has(context.peer_id),
    ensures
        step is ClearAudio || (step matches CommandStep::LaunchRecorder { then, .. }
            && then is ClearAudio),
{
}

/// Every command is found under its name, and whatever else was registered stays.
pub proof fn law_commands_are_registered_by_name(
    before: Map<Seq<char>, Command>,
    capabilities: AppCapabilities,
    other: Seq<char>,
)
    ensures
        ({
            let all = session_commands(before, capabilities);
            let fast = capabilities.fast_recording_enabled;
            &&& all.contains_pair("get_version"@, Command::GetVersion)
            &&& all.contains_pair("run_shell"@, Command::RunShell)
            &&& all.contains_pair("xiaoai_exit"@, Command::XiaoaiExit)
            &&& all.contains_pair("start_play"@, Command::StartPlay)
            &&& all.contains_pair("stop_play"@, Command::StopPlay)
            &&& all.contains_pair("start_recording"@, Command::StartRecording)
            &&& all.contains_pair("stop_recording"@, Command::StopRecording)
            &&& fast ==> all.contains_pair("fast_recording"@, Command::FastRecording)
            &&& fast ==> all.contains_pair("llm_start"@, Command::LlmStart)
            &&& fast ==> all.contains_pair("llm_stop"@, Command::LlmStop)
            &&& other != "get_version"@ && other != "run_shell"@ && other != "xiaoai_exit"@ && other
                != "start_play"@ && other != "stop_play"@ && other != "start_recording"@ && other
                != "stop_recording"@ && (!fast || (other != "fast_recording"@ && other
                != "llm_start"@ && other != "llm_stop"@)) ==> all.contains_key(other)
                == before.contains_key(other) && (before.contains_key(other) ==> all[other]
                == before[other])
        }),
{
    reveal_strlit("get_version");
    reveal_strlit("run_shell");
    reveal_strlit("xiaoai_exit");
    reveal_strlit("start_play");
    reveal_strlit("stop_play");
    reveal_strlit("start_recording");
    reveal_strlit("fast_recording");
    reveal_strlit("llm_start");
    reveal_strlit("llm_stop");
    reveal_strlit("stop_recording");
    assert("fast_recording"@[0] == 'f' && "stop_recording"@[0] == 's');
    assert("llm_start"@[0] == 'l' && "run_shell"@[0] == 'r' && "stop_play"@[0] == 's');
    assert("get_version"@[0] == 'g' && "xiaoai_exit"@[0] == 'x');
    assert("fast_recording"@.len() == 14 && "stop_recording"@.len() == 14);
    assert("llm_start"@.len() == 9 && "run_shell"@.len() == 9 && "stop_play"@.len() == 9);
    assert("llm_stop"@.len() == 8);
    assert("get_version"@.len() == 11 && "xiaoai_exit"@.len() == 11);
    assert("start_play"@.len() == 10 && "start_recording"@.len() == 15);
}

proof fn lemma_payload_format(members: Seq<(Seq<char>, JsonView)>, config: AudioConfigView)
    requires
        is_format(members, config),
    ensures
        payload_config(Some(JsonView::Object(members))) == config,
{
    law_last_member_of_a_name_is_kept(members, "pcm"@);
    law_last_member_of_a_name_is_kept(members, "channels"@);
    law_last_member_of_a_name_is_kept(members, "bits_per_sample"@);
    law_last_member_of_a_name_is_kept(members, "sample_rate"@);
    law_last_member_of_a_name_is_kept(members, "period_size"@);
    law_last_member_of_a_name_is_kept(members, "buffer_size"@);
    law_format_is_read_by_name(settled_members(members), config);
}

/// The members name each field of a format, the last of a name being that of the format.
pub open spec fn is_format(members: Seq<(Seq<char>, JsonView)>, config: AudioConfigView) -> bool {
    &&& member(members, "pcm"@) == Some(JsonView::Str(config.pcm))
    &&& member(members, "channels"@) == Some(JsonView::Uint(config.channels as u64))
    &&& member(members, "bits_per_sample"@) == Some(JsonView::Uint(config.bits_per_sample as u64))
    &&& member(members, "sample_rate"@) == Some(JsonView::Uint(config.sample_rate as u64))
    &&& member(members, "period_size"@) == Some(JsonView::Uint(config.period_size as u64))
    &&& member(members, "buffer_size"@) == Some(JsonView::Uint(config.buffer_size as u64))
}

/// A peer hears in the format that it asked for: a `start_recording` whose payload is a format is
/// answered by a recording in that format, and a `start_play` by a player for it, whatever ran
/// before. Only where a standard recording runs already is it left alone.
pub proof fn law_format_of_the_payload_is_used(
    context: CommandContext,
    members: Seq<(Seq<char>, JsonView)>,
    config: AudioConfigView,
    refusal: Seq<char>,
    version: Seq<char>,
    before: PeerContextRegistry,
    step: CommandStep,
    after: PeerContextRegistry,
)
    requires
        before.has(context.peer_id),
        is_format(members, config),
    ensures
        begins(
            Command::StartRecording,
            context,
            Some(JsonView::Object(members)),
            refusal,
            version,
            before,
            step,
            after,
        ) && before.media@[context.peer_id].recorder.profile != Some(ArecordProfile::Standard) ==> (
        step matches CommandStep::LaunchRecorder { peer_id, plan, then, .. } && peer_id
            == context.peer_id && then is Reply && plan.profile == ArecordProfile::Standard
            && plan.requested@ == config && texts(plan.args@) == arecord_args(
            AudioConfigView {
                bits_per_sample: if config.bits_per_sample == 16 {
                    32
                } else {
                    config.bits_per_sample
                },
                ..config
            },
            ArecordProfile::Standard,
        )),
        begins(
            Command::StartPlay,
            context,
            Some(JsonView::Object(members)),
            refusal,
            version,
            before,
            step,
            after,
        ) ==> (step matches CommandStep::LaunchPlayer { peer_id, start } && peer_id
            == context.peer_id && texts(start.args@) == aplay_args(config)),
{
    lemma_payload_format(members, config);
}

/// Without a payload, or with one that is no format, the usual format is used: one channel, 32 bits
/// and 48000 samples a second.
pub proof fn law_usual_format_is_used_otherwise(payload: Option<JsonView>)
    ensures
        payload is None || config_of(settled(payload->0)) is None ==> payload_config(payload) == (
        AudioConfigView {
            pcm: "noop"@,
            channels: 1,
            bits_per_sample: 32,
            sample_rate: 48000,
            period_size: 384,
            buffer_size: 6144,
        }),
        payload matches Some(json) ==> (config_of(settled(json)) matches Some(config)
            ==> payload_config(payload) == config),
{
}

/// Commands that record stop a recording of another kind, start their own and answer when it runs;
/// one that runs already is left alone. The conversation commands have the old audio cleared before
/// they answer.
pub proof fn law_recording_commands_record(
    command: Command,
    context: CommandContext,
    payload: Option<JsonView>,
    refusal: Seq<char>,
    version: Seq<char>,
    before: PeerContextRegistry,
    step: CommandStep,
    after: PeerContextRegistry,
)
    requires
        before.has(context.peer_id),
        begins(command, context, payload, refusal, version, before, step, after),
    ensures
        ({
            let peer = context.peer_id;
            let (old_recorder, profile) = (
                before.media@[peer].recorder,
                match command {
                    Command::StartRecording => Some(ArecordProfile::Standard),
                    Command::FastRecording => Some(ArecordProfile::FastKws),
                    Command::LlmStart => Some(ArecordProfile::FastLlm),
                    Command::LlmStop => Some(ArecordProfile::FastKws),
                    _ => None,
                },
            );
            let reply = match command {
                Command::LlmStart => Some(ClearReply::LlmStart),
                Command::LlmStop => Some(ClearReply::LlmStop),
                _ => None,
            };
            &&& profile is Some ==> after.media@[peer].player == before.media@[peer].player
            &&& profile is Some && old_recorder.profile == profile ==> {
                &&& after.media@[peer].recorder == old_recorder
                &&& reply is None ==> answers_success(step)
                &&& reply is Some ==> step == (CommandStep::ClearAudio {
                    peer_id: peer,
                    reply: reply->0,
                })
            }
            &&& profile is Some && old_recorder.profile != profile ==> (
            step matches CommandStep::LaunchRecorder { peer_id, stop, plan, then } && peer_id == peer
                && stop.kill_child == old_recorder.child && stop.join_task == old_recorder.task
                && plan.profile == profile->0 && (reply is None ==> then is Reply) && (reply is Some
                ==> then == AfterRecording::ClearAudio(reply->0)) && (command
                != Command::StartRecording ==> plan.requested@.channels == (if command
                == Command::LlmStart {
                2u16
            } else {
                1u16
            }) && plan.requested@.bits_per_sample == 16 && plan.requested@.sample_rate == 16000
                && plan.capture@ == plan.requested@))
            &&& command == Command::StopRecording ==> (step matches CommandStep::HaltRecorder {
                peer_id,
                stop,
            } && peer_id == peer && stop.kill_child == old_recorder.child && stop.join_task
                == old_recorder.task && after.media@[peer].recorder.profile is None
                && !after.media@[peer].recorder.child)
            &&& command == Command::StopPlay ==> (step matches CommandStep::HaltPlayer {
                peer_id,
                stop,
            } && peer_id == peer && stop.join_task == before.media@[peer].player.task
                && stop.kill_child == before.media@[peer].player.child
                && !after.media@[peer].player.is_started())
            &&& command == Command::StartPlay ==> (step matches CommandStep::LaunchPlayer {
                peer_id,
                start,
            } && peer_id == peer && start.stop.join_task == before.media@[peer].player.task
                && start.stop.kill_child == before.media@[peer].player.child)
        }),
{
}

/// The step answers with success and nothing else.
pub open spec fn answers_success(step: CommandStep) -> bool {
    step matches CommandStep::Done(Ok(response)) && response.code == Some(0i32) && (
    response.msg matches Some(msg) && msg@ == "success"@) && response.data is None
}

/// The commands without media: the version is answered as it is, the text of a `run_shell` is run as
/// it is, and a payload that is no text is refused with the parser's words. A peer that is gone is
/// told so.
pub proof fn law_plain_commands_answer(
    command: Command,
    context: CommandContext,
    payload: Option<JsonView>,
    refusal: Seq<char>,
    version: Seq<char>,
    before: PeerContextRegistry,
    step: CommandStep,
    after: PeerContextRegistry,
)
    requires
        begins(command, context, payload, refusal, version, before, step, after),
    ensures
        command == Command::GetVersion ==> (step matches CommandStep::Done(Ok(response)) && (
        response.data matches Some(Json::Str(text)) && text@ == version)),
        command == Command::RunShell ==> match payload {
            Some(JsonView::Str(script)) => step matches CommandStep::RunShell(text) && text@
                == script,
            Some(_) => step matches CommandStep::Done(Err(err)) && err@ == refusal,
            None => step matches CommandStep::Done(Err(err)) && err@ == "empty command"@,
        },
        command == Command::XiaoaiExit ==> (step matches CommandStep::RunShell(text) && text@
            == "/etc/init.d/mico_aivs_lab restart >/dev/null 2>&1"@),
        command != Command::GetVersion && command != Command::RunShell && command
            != Command::XiaoaiExit && !before.has(context.peer_id) ==> (step matches CommandStep::Done(
            Err(err),
        ) && err@ == "peer context not found: "@ + decimal(context.peer_id as nat)),
        command == Command::GetVersion || command == Command::RunShell || command
            == Command::XiaoaiExit || !before.has(context.peer_id) ==> after == before,
{
    if let CommandStep::Done(Ok(response)) = step {
        if let Some(json) = response.data {
            law_contents_have_the_shape_of_the_value(json);
        }
    }
}

/// What a conversation command says when all went well, and why it did not.
pub proof fn law_conversation_answers(reply: ClearReply, failure: ClearFailure)
    ensures
        clear_reply_text(reply) == if reply == ClearReply::LlmStart {
            "llm_start_ok"@
        } else {
            "llm_stop_ok"@
        },
        clear_failure_text(failure) == match failure {
            ClearFailure::NoPeer(peer_id) => "peer context not found: "@ + decimal(peer_id as nat),
            ClearFailure::NotQueued(err) => "failed to queue audio clear command: "@ + err@,
            ClearFailure::NoAnswer(err) => "timed out waiting for audio queue clear: "@ + err@,
        },
        success_response().code == Some(0i32),
        success_response().msg == Some("success"@),
{
}

/// The payload of a request is the object with these members.
pub open spec fn asks_for(request: Request, members: Seq<(Seq<char>, JsonView)>) -> bool {
    opt_json(request.payload) == Some(JsonView::Object(members))
}

/// A `start_recording` of a peer that is there launches `arecord` with the device, the rate and the
/// channels that its payload names, and delivers the format that it names, whatever the format is,
/// unless a standard recording runs already. A `start_play` launches `aplay` with them.
pub proof fn law_recording_starts_in_the_format_of_the_request(
    command: Command,
    context: CommandContext,
    request: &Request,
    texts_given: (&str, &str),
    peers: &mut PeerContextRegistry,
    members: Seq<(Seq<char>, JsonView)>,
    config: AudioConfigView,
    r: CommandStep,
)
    requires
        call_ensures(
            begin_command,
            (command, context, request, texts_given.0, texts_given.1, peers),
            r,
        ),
        old(peers).has(context.peer_id),
        asks_for(*request, members),
        is_format(members, config),
    ensures
        command == Command::StartRecording && old(peers).media@[context.peer_id].recorder.profile
            != Some(ArecordProfile::Standard) ==> (r matches CommandStep::LaunchRecorder {
            peer_id,
            plan,
            ..
        } && peer_id == context.peer_id && plan.requested@ == config && has_option(
            texts(plan.args@),
            "-D"@,
            config.pcm,
        ) && has_option(texts(plan.args@), "-r"@, decimal(config.sample_rate as nat)) && has_option(
            texts(plan.args@),
            "-c"@,
            decimal(config.channels as nat),
        ) && has_option(texts(plan.args@), "--period-size"@, decimal(config.period_size as nat))
            && has_option(texts(plan.args@), "--buffer-size"@, decimal(config.buffer_size as nat))
            && plan.capture@.bits_per_sample == (if config.bits_per_sample == 16 {
            32
        } else {
            config.bits_per_sample
        })),
        command == Command::StartPlay ==> (r matches CommandStep::LaunchPlayer { peer_id, start }
            && peer_id == context.peer_id && texts(start.args@) == aplay_args(config)),
{
    lemma_payload_format(members, config);
    law_arecord_is_told_the_format(
        AudioConfigView {
            bits_per_sample: if config.bits_per_sample == 16 {
                32
            } else {
                config.bits_per_sample
            },
            ..config
        },
        ArecordProfile::Standard,
    );
}

/// Commands begin, go on and end as the laws about them say; only the media of the peer that asked
/// change by that.
pub proof fn law_commands_are_carried_out(
    command: Command,
    context: CommandContext,
    request: &Request,
    given: (&str, &str),
    peers: &mut PeerContextRegistry,
    step: CommandStep,
    registry: &mut CommandRegistry<Command>,
    capabilities: AppCapabilities,
)
    ensures
        call_ensures(begin_command, (command, context, request, given.0, given.1, peers), step) ==> begins(
            command,
            context,
            opt_json(request.payload),
            given.0@,
            given.1@,
            *old(peers),
            step,
            *final(peers),
        ),
        call_ensures(register_session_commands, (registry, capabilities), ()) ==> final(registry)@
            == session_commands(old(registry)@, capabilities),
{
}

/// A command that ran something answers with what came of it, or with the reason why nothing did.
pub proof fn law_commands_answer_what_came_of_them(
    result: Result<CommandResult, String>,
    reply: ClearReply,
    cleared: Result<usize, ClearFailure>,
    r: Result<Response, String>,
)
    ensures
        call_ensures(shell_finished, (result,), r) ==> match result {
            Ok(ended) => r matches Ok(response) && response.code is None && response.msg is None
                && opt_json(response.data) == Some(result_json(ended@)),
            Err(err) => r == Err::<Response, String>(err),
        },
        call_ensures(halted, (), r) ==> answers_success(CommandStep::Done(r)),
        call_ensures(audio_cleared, (reply, cleared), r) ==> match cleared {
            Ok(_) => r matches Ok(response) && response.code == Some(0i32) && opt_text(response.msg)
                == Some(clear_reply_text(reply)) && response.data is None,
            Err(failure) => r matches Err(err) && err@ == clear_failure_text(failure),
        },
{
}

/// A player or a recording that was launched runs, for the peer that asked and in its profile; one that
/// was not leaves everything as it is and tells why.
pub proof fn law_launched_media_run(
    peers: &mut PeerContextRegistry,
    peer_id: PeerId,
    other: PeerId,
    profile: ArecordProfile,
    after: AfterRecording,
    launched: Result<(), String>,
    r: Result<Response, String>,
    step: CommandStep,
)
    ensures
        call_ensures(player_launched, (peers, peer_id, launched), r) ==> {
            &&& final(peers).hub == old(peers).hub && final(peers).ws_handles == old(peers).ws_handles
            &&& other != peer_id ==> final(peers).media@[other] == old(peers).media@[other]
            &&& launched is Ok ==> answers_success(CommandStep::Done(r)) && (old(peers).has(peer_id)
                ==> final(peers).media@[peer_id].player.is_started() && final(peers).media@[peer_id].player.waiting().len() == 0 && final(peers).media@[peer_id].recorder
                == old(peers).media@[peer_id].recorder)
            &&& launched matches Err(err) ==> r == Err::<Response, String>(err) && *final(peers) == *old(peers)
        },
        call_ensures(recorder_launched, (peers, peer_id, profile, after, launched), step) ==> {
            &&& final(peers).hub == old(peers).hub && final(peers).ws_handles == old(peers).ws_handles
            &&& other != peer_id ==> final(peers).media@[other] == old(peers).media@[other]
            &&& launched is Ok && after is Reply ==> answers_success(step)
            &&& launched is Ok ==> (after matches AfterRecording::ClearAudio(reply) ==> step == (
            CommandStep::ClearAudio { peer_id, reply }))
            &&& launched is Ok && old(peers).has(peer_id) ==> final(peers).media@[peer_id].recorder.profile
                == Some(profile) && final(peers).media@[peer_id].player == old(peers).media@[peer_id].player
            &&& launched matches Err(reason) ==> (step matches CommandStep::Done(Err(err)) && err@
                == reason@) && *final(peers) == *old(peers)
        },
{
}

/// Playing leaves the recording alone and recording the player, and neither loses what waits to be
/// played; nothing but the media of the peer changes.
pub proof fn law_playing_and_recording_do_not_meet(
    command: Command,
    context: CommandContext,
    payload: Option<JsonView>,
    refusal: Seq<char>,
    version: Seq<char>,
    before: PeerContextRegistry,
    step: CommandStep,
    after: PeerContextRegistry,
)
    requires
        before.has(context.peer_id),
        begins(command, context, payload, refusal, version, before, step, after),
    ensures
        ({
            let (was, is) = (before.media@[context.peer_id], after.media@[context.peer_id]);
            &&& command == Command::StartPlay || command == Command::StopPlay ==> is.recorder
                == was.recorder && is.player.waiting() == was.player.waiting() && is.player.is_read()
                == was.player.is_read()
            &&& command == Command::StopRecording || command == Command::StartRecording || command
                == Command::FastRecording || command == Command::LlmStart || command
                == Command::LlmStop ==> is.player == was.player
        }),
        after.hub == before.hub && after.ws_handles == before.ws_handles,
{
}

} // verus!
