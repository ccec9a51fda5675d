//! What becomes of everything that a session is told.

use crate::app::ws_peer_hub::SendControlError;
use crate::audio::player::Enqueued;
use crate::protocol::data::{AppMessage, AppMessageView, Event, Request, Response, ResponseView};
use crate::protocol::json::opt_json;
use crate::protocol::registry::CommandContext;
use crate::text::{opt_text, same};
use crate::transport::control::{
    InboundMessage, OutboundTarget, PeerId, RoutedInbound, RoutedOutbound, SessionControl,
};
use vstd::prelude::*;

verus! {

/// What the router does about a message.
#[derive(Debug, PartialEq, Eq)]
pub enum RouteAction {
    /// Hand this to the peers.
    Dispatch(RoutedOutbound),
    /// Carry this request out, and answer it with [`finish_request`].
    Handle { context: CommandContext, request: Request },
    /// Play this on behalf of the peer.
    Play { peer_id: PeerId, bytes: Vec<u8> },
    /// Nothing.
    Ignore,
    /// End.
    Stop,
}

/// Whether `action` is what the router does about `message`: it passes on what
/// the device has to say, carries out what a peer asks for, plays what a peer
/// wants played, and ignores every other thing a peer says.
pub open spec fn routes(message: SessionControl, action: RouteAction) -> bool {
    match message {
        SessionControl::Outbound(outbound) => action == RouteAction::Dispatch(outbound),
        SessionControl::Inbound(inbound) => match inbound.message {
            InboundMessage::Event(_) => action == RouteAction::Ignore,
            InboundMessage::Response(_) => action == RouteAction::Ignore,
            InboundMessage::Request(request) => action == (RouteAction::Handle {
                context: CommandContext { peer_id: inbound.peer_id },
                request,
            }),
            InboundMessage::Stream(stream) => if stream.tag@ == "play"@ {
                action == (RouteAction::Play { peer_id: inbound.peer_id, bytes: stream.bytes })
            } else {
                action == RouteAction::Ignore
            },
        },
        SessionControl::Close => action == RouteAction::Stop,
    }
}

/// Decides what to do about a message; see [`routes`].
pub fn route(message: SessionControl) -> (r: RouteAction)
    ensures
        routes(message, r),
{
    match message {
        SessionControl::Outbound(outbound) => RouteAction::Dispatch(outbound),
        SessionControl::Inbound(inbound) => match inbound.message {
            InboundMessage::Event(_) => RouteAction::Ignore,
            InboundMessage::Response(_) => RouteAction::Ignore,
            InboundMessage::Request(request) => RouteAction::Handle {
                context: CommandContext { peer_id: inbound.peer_id },
                request,
            },
            InboundMessage::Stream(stream) => {
                if same(stream.tag.as_str(), "play") {
                    RouteAction::Play { peer_id: inbound.peer_id, bytes: stream.bytes }
                } else {
                    RouteAction::Ignore
                }
            },
        },
        SessionControl::Close => RouteAction::Stop,
    }
}

/// The answer to a request, given what came of it. It always carries the id of
/// the request.
pub open spec fn answer(id: Seq<char>, outcome: Result<Response, String>) -> ResponseView {
    match outcome {
        Ok(response) => ResponseView { id, ..response@ },
        Err(err) => ResponseView { id, code: Some(-1i32), msg: Some(err@), data: None },
    }
}

/// Turns what came of a request into the message that answers it, and says who
/// gets it: the peer that asked, and nobody else.
pub fn finish_request(
    context: CommandContext,
    request_id: &str,
    outcome: Result<Response, String>,
) -> (r: (OutboundTarget, AppMessage))
    ensures
        r.0 == OutboundTarget::ToPeer(context.peer_id),
        r.1@ == AppMessageView::Response(answer(request_id@, outcome)),
{
    let response = match outcome {
        Ok(response) => {
            let mut response = response;
            response.id = request_id.to_string();
            response
        },
        Err(err) => Response::from_error(request_id, err.as_str()),
    };
    (OutboundTarget::ToPeer(context.peer_id), AppMessage::Response(response))
}

/// Whatever comes of a request, its answer carries its id, and a failure is told
/// apart by its code.
pub proof fn law_answer_belongs_to_its_request(id: Seq<char>, outcome: Result<Response, String>)
    ensures
        answer(id, outcome).id == id,
        outcome is Err ==> answer(id, outcome).code == Some(-1i32),
        outcome matches Ok(response) ==> answer(id, outcome).code == response.code
            && answer(id, outcome).data == response@.data,
{
}

/// Turns something that the device has to report into the message that says so,
/// and says who gets it: everyone.
pub fn announce(event: Event) -> (r: (OutboundTarget, AppMessage))
    ensures
        is_announcement(r, event),
{
    (OutboundTarget::Broadcast, AppMessage::Event(event))
}

/// Whether a message reports an event to everyone.
pub open spec fn is_announcement(r: (OutboundTarget, AppMessage), event: Event) -> bool {
    r.0 == OutboundTarget::Broadcast && r.1 == AppMessage::Event(event)
}

/// What the router does once it tried to deliver a message or to play a block.
#[derive(Debug, PartialEq, Eq)]
pub enum RouterStep {
    /// Take the next message.
    Next,
    /// Wait for room, then deliver the message to these peers.
    ResumeDelivery(Vec<PeerId>),
    /// Wait for room, then play this block.
    ResumePlaying(Vec<u8>),
    /// End with this error.
    Fail(String),
}

/// What follows a delivery: a peer whose writer is gone ends the router.
pub fn after_dispatch(outcome: Result<(), SendControlError>) -> (r: RouterStep)
    ensures
        match outcome {
            Ok(()) => r == RouterStep::Next,
            Err(SendControlError::Waits { pending }) => r == RouterStep::ResumeDelivery(pending),
            Err(err) => r matches RouterStep::Fail(text) && text@ == err.message_text(),
        },
{
    match outcome {
        Ok(()) => RouterStep::Next,
        Err(SendControlError::Waits { pending }) => RouterStep::ResumeDelivery(pending),
        Err(err) => RouterStep::Fail(err.message()),
    }
}

/// What follows a block that was to be played: a player whose playback has died
/// ends the router; one that was not started does not.
pub fn after_play(outcome: Enqueued) -> (r: RouterStep)
    ensures
        match outcome {
            Enqueued::Queued => r == RouterStep::Next,
            Enqueued::NotStarted => r == RouterStep::Next,
            Enqueued::Waits(bytes) => r == RouterStep::ResumePlaying(bytes),
            Enqueued::Disconnected => r matches RouterStep::Fail(text) && text@
                == "sending on a closed channel"@,
        },
{
    match outcome {
        Enqueued::Queued => RouterStep::Next,
        Enqueued::NotStarted => RouterStep::Next,
        Enqueued::Waits(bytes) => RouterStep::ResumePlaying(bytes),
        Enqueued::Disconnected => RouterStep::Fail("sending on a closed channel".to_string()),
    }
}

/// Of all messages only a close tells the router to end. (It also ends, with an
/// error, when a message or a block cannot be delivered any more.)
pub proof fn law_only_a_close_tells_the_router_to_end(message: SessionControl, action: RouteAction)
    requires
        routes(message, action),
    ensures
        action == RouteAction::Stop <==> message == SessionControl::Close,
{
}

/// A request is carried out on behalf of the peer that made it, whatever it asks for, and a stream
/// for playing is played on behalf of the peer that sent it, with all its bytes. Whatever else a
/// peer says is ignored; what the device says is passed on as it is.
pub proof fn law_requests_and_streams_belong_to_their_peer(
    inbound: RoutedInbound,
    outbound: RoutedOutbound,
    action: RouteAction,
)
    ensures
        routes(SessionControl::Outbound(outbound), action) ==> action == RouteAction::Dispatch(
            outbound,
        ),
        routes(SessionControl::Inbound(inbound), action) ==> match inbound.message {
            InboundMessage::Request(request) => action matches RouteAction::Handle {
                context,
                request: asked,
            } && context.peer_id == inbound.peer_id && asked == request,
            InboundMessage::Stream(stream) => if stream.tag@ == "play"@ {
                action matches RouteAction::Play { peer_id, bytes } && peer_id == inbound.peer_id
                    && bytes@ == stream.bytes@
            } else {
                action is Ignore
            },
            _ => action is Ignore,
        },
{
}

/// A failure is told with its reason and without data; a success with everything that it came with.
pub proof fn law_answer_tells_what_came_of_it(
    id: Seq<char>,
    response: Response,
    err: String,
    event: Event,
    message: (OutboundTarget, AppMessage),
)
    ensures
        answer(id, Err(err)) == (ResponseView {
            id,
            code: Some(-1i32),
            msg: Some(err@),
            data: None,
        }),
        answer(id, Ok(response)).msg == opt_text(response.msg),
        answer(id, Ok(response)).code == response.code,
        answer(id, Ok(response)).data == opt_json(response.data),
        is_announcement(message, event) ==> message.0 == OutboundTarget::Broadcast && message.1
            == AppMessage::Event(event),
{
}

/// The router hands on every message of the device, has every request carried out for the peer that
/// made it, plays every stream for playing with all its bytes, and stops at a close.
pub proof fn law_router_does_as_it_is_told(message: SessionControl, r: RouteAction)
    requires
        call_ensures(route, (message,), r),
    ensures
        match message {
            SessionControl::Outbound(outbound) => r == RouteAction::Dispatch(outbound),
            SessionControl::Close => r is Stop,
            SessionControl::Inbound(inbound) => match inbound.message {
                InboundMessage::Request(asked) => r matches RouteAction::Handle { context, request }
                    && context.peer_id == inbound.peer_id && request == asked,
                InboundMessage::Stream(stream) => if stream.tag@ == "play"@ {
                    r matches RouteAction::Play { peer_id, bytes } && peer_id == inbound.peer_id
                        && bytes@ == stream.bytes@
                } else {
                    r is Ignore
                },
                _ => r is Ignore,
            },
        },
{
}

/// The answer to a request goes to the peer that made it and to nobody else, under the id of the
/// request: with all that came of it, or with the reason why nothing did.
pub proof fn law_request_is_answered_to_its_peer(
    context: CommandContext,
    request_id: &str,
    outcome: Result<Response, String>,
    r: (OutboundTarget, AppMessage),
)
    requires
        call_ensures(finish_request, (context, request_id, outcome), r),
    ensures
        r.0 == OutboundTarget::ToPeer(context.peer_id),
        r.1 matches AppMessage::Response(answered) && answered.id@ == request_id@ && match outcome {
            Ok(response) => answered.code == response.code && opt_text(answered.msg) == opt_text(
                response.msg,
            ) && opt_json(answered.data) == opt_json(response.data),
            Err(err) => answered.code == Some(-1i32) && opt_text(answered.msg) == Some(err@)
                && answered.data is None,
        },
{
}

/// The router goes on after everything that was done; what has to wait is tried again as it is, and
/// only a writer or a playback that is gone ends it.
pub proof fn law_router_goes_on(
    event: Event,
    announced: (OutboundTarget, AppMessage),
    outcome: Result<(), SendControlError>,
    played: Enqueued,
    r: RouterStep,
)
    ensures
        call_ensures(announce, (event,), announced) ==> announced.0 == OutboundTarget::Broadcast
            && announced.1 == AppMessage::Event(event),
        call_ensures(after_dispatch, (outcome,), r) ==> match outcome {
            Ok(()) => r is Next,
            Err(SendControlError::Waits { pending }) => r == RouterStep::ResumeDelivery(pending),
            Err(SendControlError::Disconnected { .. }) => r matches RouterStep::Fail(text) && text@
                == "sending on a closed channel"@,
        },
        call_ensures(after_play, (played,), r) ==> match played {
            Enqueued::Waits(bytes) => r == RouterStep::ResumePlaying(bytes),
            Enqueued::Disconnected => r matches RouterStep::Fail(text) && text@
                == "sending on a closed channel"@,
            _ => r is Next,
        },
{
}

} // verus!
