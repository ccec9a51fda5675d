//! One session: the time during which there are peers.

use crate::app::peer_context::{handle_error_text, PeerContextRegistry};
use crate::app::peer_media::PeerMedia;
use crate::app::peer_table::without;
use crate::app::ws_peer_hub::{offered, outbound_count, with_control, PeerSendersView};
use crate::audio::player::PlayerStop;
use crate::audio::recorder::RecorderStop;
use crate::transport::control::{OutboundView, PeerId, PeerSource, WriteSignal};
use crate::transport::outbox::{
    empty_outbox, OutboxView, PeerOutbox, AUDIO_QUEUE_CAPACITY, CONTROL_QUEUE_CAPACITY,
};
use crate::transport::ws_pump::WsPeerHandle;
use vstd::prelude::*;

verus! {

/// How many messages may wait for the router.
pub const ROUTE_CHANNEL_CAPACITY: usize = 256;

/// How long a peer that was offered a close gets to take it, in milliseconds.
pub const GRACEFUL_CLOSE_MILLIS: u64 = 200;

/// How long a writer that was told to end gets to do so, in milliseconds.
pub const FORCE_CLOSE_MILLIS: u64 = 100;

/// The peers of a session.
pub struct SessionRuntime {
    pub session_id: u64,
    pub peers: PeerContextRegistry,
}

/// What is known of a peer that was brought to an end.
#[derive(Debug, PartialEq, Eq)]
pub struct PeerDeparture {
    pub source: PeerSource,
    /// How many peers the session still has.
    pub remaining_peers: usize,
    /// What has to be done to stop its recording.
    pub recorder: RecorderStop,
    /// What has to be done to stop its player.
    pub player: PlayerStop,
}

/// What is known of a session that was brought to an end.
#[derive(Debug, Clone, Copy, PartialEq, Eq)]
pub struct SessionShutdownSummary {
    /// How many of its peers this process had connected to.
    pub closed_outbound_peers: usize,
}

/// A peer as it is when it joins a session.
pub open spec fn new_peer(source: PeerSource) -> PeerSendersView {
    PeerSendersView {
        source,
        outbox: empty_outbox(CONTROL_QUEUE_CAPACITY, AUDIO_QUEUE_CAPACITY),
    }
}

impl SessionRuntime {
    pub open spec fn wf(&self) -> bool {
        self.peers.wf()
    }

    /// A peer whose reader and writer run.
    pub open spec fn is_attached(&self, peer_id: PeerId) -> bool {
        self.peers.has(peer_id) && self.peers.ws_handles@[peer_id] is Some
    }

    /// A session without peers.
    pub fn new(session_id: u64) -> (r: Self)
        ensures
            r.wf(),
            r.session_id == session_id,
            r.peers.hub@ == Map::<PeerId, PeerSendersView>::empty(),
            r.peers.hub.ids() == Seq::<PeerId>::empty(),
    {
        SessionRuntime { session_id, peers: PeerContextRegistry::new() }
    }

    /// Takes a peer in: from now on it gets its share of what is sent. Its reader
    /// and writer are started next, and [`SessionRuntime::attached`] says what
    /// came of it.
    pub fn attach_peer(&mut self, peer_id: PeerId, source: PeerSource)
        requires
            old(self).wf(),
        ensures
            final(self).wf(),
            final(self).session_id == old(self).session_id,
            final(self).peers.hub@ == old(self).peers.hub@.insert(peer_id, new_peer(source)),
            final(self).peers.hub.ids() == if old(self).peers.has(peer_id) {
                old(self).peers.hub.ids()
            } else {
                old(self).peers.hub.ids().push(peer_id)
            },
            final(self).peers.media@[peer_id].is_idle(),
            final(self).peers.media@ == old(self).peers.media@.insert(
                peer_id,
                final(self).peers.media@[peer_id],
            ),
            final(self).peers.ws_handles@ == old(self).peers.ws_handles@.insert(peer_id, None),
    {
        let outbox = PeerOutbox::new(CONTROL_QUEUE_CAPACITY, AUDIO_QUEUE_CAPACITY);
        self.peers.add_peer(
            peer_id,
            source,
            outbox.control_sender,
            outbox.audio_sender,
            outbox.write_signal,
        );
    }

    /// The reader and writer of a new peer run, or could not be started; in that
    /// case the peer is not part of the session any more.
    pub fn attached(&mut self, peer_id: PeerId, spawned: Result<(), String>) -> (r: Result<
        (),
        String,
    >)
        requires
            old(self).wf(),
        ensures
            final(self).wf(),
            final(self).session_id == old(self).session_id,
            match spawned {
                Ok(()) => {
                    &&& final(self).peers.hub == old(self).peers.hub
                    &&& final(self).peers.media == old(self).peers.media
                    &&& r is Ok <==> old(self).peers.has(peer_id) && !old(self).is_attached(peer_id)
                    &&& r is Ok ==> final(self).is_attached(peer_id)
                        && final(self).peers.ws_handles@ == old(self).peers.ws_handles@.insert(
                        peer_id,
                        Some(WsPeerHandle { close_state: true }),
                    )
                    &&& r matches Err(err) ==> final(self).peers.ws_handles@
                        == old(self).peers.ws_handles@ && err@ == handle_error_text(
                        old(self).peers,
                        peer_id,
                    )
                },
                Err(err) => {
                    &&& r == Err::<(), String>(err)
                    &&& final(self).peers.hub@ == old(self).peers.hub@.remove(peer_id)
                    &&& final(self).peers.hub.ids() == without(old(self).peers.hub.ids(), peer_id)
                    &&& final(self).peers.media@ == old(self).peers.media@.remove(peer_id)
                    &&& final(self).peers.ws_handles@ == old(self).peers.ws_handles@.remove(peer_id)
                },
            },
    {
        match spawned {
            Ok(()) => {
                let mut handle = WsPeerHandle::new();
                let _ = handle.install_close_state();
                self.peers.install_ws_handle(peer_id, handle)
            },
            Err(err) => {
                let _ = self.peers.remove_peer(peer_id);
                Err(err)
            },
        }
    }

    /// Takes the means to end a peer, if they are still there: nobody else can
    /// bring the peer to an end after that.
    pub fn take_handle(&mut self, peer_id: PeerId) -> (r: Option<WsPeerHandle>)
        requires
            old(self).wf(),
        ensures
            final(self).wf(),
            final(self).session_id == old(self).session_id,
            final(self).peers.hub == old(self).peers.hub,
            final(self).peers.media == old(self).peers.media,
            r is Some <==> old(self).is_attached(peer_id),
            r matches Some(handle) ==> Some(handle) == old(self).peers.ws_handles@[peer_id]
                && final(self).peers.ws_handles@ == old(self).peers.ws_handles@.insert(
                peer_id,
                None,
            ),
            r is None ==> final(self).peers.ws_handles@ == old(self).peers.ws_handles@,
    {
        let handle = match self.peers.ws_handles.get(peer_id) {
            Some(Some(handle)) => *handle,
            _ => {
                return None;
            },
        };
        self.peers.ws_handles.insert(peer_id, None);
        assert(self.peers.ws_handles@.dom() =~= old(self).peers.ws_handles@.dom());
        Some(handle)
    }

    /// Begins to bring a peer to an end, by offering it a close. `None` means
    /// that it is not attached, or that it is being brought to an end already.
    /// Otherwise the means to end it are handed out, and `true` with them means
    /// that it was offered a close and gets a moment to take it.
    pub fn begin_departure(&mut self, peer_id: PeerId) -> (r: Option<(WsPeerHandle, bool)>)
        requires
            old(self).wf(),
        ensures
            final(self).wf(),
            final(self).session_id == old(self).session_id,
            final(self).peers.media == old(self).peers.media,
            r is Some <==> old(self).is_attached(peer_id),
            r is None ==> final(self).peers.hub == old(self).peers.hub
                && final(self).peers.ws_handles@ == old(self).peers.ws_handles@,
            final(self).peers.hub.ids() == old(self).peers.hub.ids(),
            r matches Some((handle, offered)) ==> {
                let before = old(self).peers.hub@;
                &&& Some(handle) == old(self).peers.ws_handles@[peer_id]
                &&& final(self).peers.ws_handles@ == old(self).peers.ws_handles@.insert(
                    peer_id,
                    None,
                )
                &&& offered == before[peer_id].outbox.control.accepts()
                &&& final(self).peers.hub@ == if offered {
                    before.insert(peer_id, with_control(before[peer_id], OutboundView::Close))
                } else {
                    before
                }
            },
    {
        match self.take_handle(peer_id) {
            Some(handle) => {
                let offered = self.peers.try_close_peer(peer_id);
                Some((handle, offered))
            },
            None => None,
        }
    }

    /// Tells the writer of a peer to end, if the handle still can; `true` asks
    /// for a moment of patience and then for both tasks to be aborted.
    pub fn force_close(&mut self, peer_id: PeerId, handle: &mut WsPeerHandle) -> (r: bool)
        requires
            old(self).wf(),
        ensures
            final(self).wf(),
            final(self).session_id == old(self).session_id,
            final(self).peers.media == old(self).peers.media,
            final(self).peers.ws_handles == old(self).peers.ws_handles,
            r == old(handle).close_state,
            !final(handle).close_state,
            final(self).peers.hub@.dom() == old(self).peers.hub@.dom(),
            final(self).peers.hub.ids() == old(self).peers.hub.ids(),
            old(self).peers.has(peer_id) ==> final(self).peers.hub@ == old(self).peers.hub@.insert(
                peer_id,
                PeerSendersView {
                    outbox: OutboxView {
                        signal: WriteSignal {
                            closed: r || old(self).peers.hub@[peer_id].outbox.signal.closed,
                            ..old(self).peers.hub@[peer_id].outbox.signal
                        },
                        ..old(self).peers.hub@[peer_id].outbox
                    },
                    ..old(self).peers.hub@[peer_id]
                },
            ),
            !old(self).peers.has(peer_id) ==> final(self).peers.hub@ == old(self).peers.hub@,
    {
        match self.peers.get(peer_id) {
            Some(outbox) => {
                let closing = handle.close(&mut outbox.write_signal);
                assert(old(self).peers.hub@.insert(peer_id, old(self).peers.hub@[peer_id])
                    =~= old(self).peers.hub@);
                closing
            },
            None => {
                let mut unheard = WriteSignal::new();
                handle.close(&mut unheard)
            },
        }
    }

    /// Takes a peer out of the session and says what is left to be stopped.
    pub fn finish_departure(&mut self, peer_id: PeerId) -> (r: Option<PeerDeparture>)
        requires
            old(self).wf(),
        ensures
            final(self).wf(),
            final(self).session_id == old(self).session_id,
            final(self).peers.hub@ == old(self).peers.hub@.remove(peer_id),
            final(self).peers.hub.ids() == without(old(self).peers.hub.ids(), peer_id),
            final(self).peers.media@ == old(self).peers.media@.remove(peer_id),
            final(self).peers.ws_handles@ == old(self).peers.ws_handles@.remove(peer_id),
            r is Some <==> old(self).peers.has(peer_id),
            r matches Some(departure) ==> {
                let media = old(self).peers.media@[peer_id];
                &&& departure.source == old(self).peers.hub@[peer_id].source
                &&& departure.remaining_peers == final(self).peers.hub@.len()
                &&& departure.recorder == (RecorderStop {
                    kill_child: media.recorder.child,
                    join_task: media.recorder.task,
                })
                &&& departure.player == (PlayerStop {
                    join_task: media.player.task,
                    kill_child: media.player.child,
                })
            },
    {
        match self.peers.remove_peer(peer_id) {
            Some(removed) => {
                let mut media: PeerMedia = removed.media;
                let recorder = media.recorder.stop_recording();
                let player = media.player.stop();
                Some(
                    PeerDeparture {
                        source: removed.source,
                        remaining_peers: removed.remaining_peers,
                        recorder,
                        player,
                    },
                )
            },
            None => None,
        }
    }

    /// Begins to bring the session to an end: everyone is offered a close. The
    /// peers are then closed by force and taken out one by one.
    pub fn shutdown(&mut self) -> (r: (SessionShutdownSummary, Vec<PeerId>))
        requires
            old(self).wf(),
        ensures
            final(self).wf(),
            final(self).session_id == old(self).session_id,
            final(self).peers.hub@ == offered(
                old(self).peers.hub@,
                old(self).peers.hub.ids(),
                OutboundView::Close,
            ),
            final(self).peers.hub.ids() == old(self).peers.hub.ids(),
            final(self).peers.media == old(self).peers.media,
            final(self).peers.ws_handles == old(self).peers.ws_handles,
            r.0.closed_outbound_peers == outbound_count(
                old(self).peers.hub@,
                old(self).peers.hub.ids(),
            ),
            r.1@ == old(self).peers.hub.ids(),
    {
        let closed_outbound_peers = self.peers.outbound_peer_count();
        let ids = self.peers.hub.peers.peer_ids();
        self.peers.close_all_peers();
        (SessionShutdownSummary { closed_outbound_peers }, ids)
    }
}

/// A peer can be brought to an end once: after its departure has begun, it is no
/// longer attached, and a second departure does nothing.
pub proof fn law_departure_begins_once(before: SessionRuntime, after: SessionRuntime, peer_id: PeerId)
    requires
        before.is_attached(peer_id),
        after.peers.ws_handles@ == before.peers.ws_handles@.insert(peer_id, None),
    ensures
        !after.is_attached(peer_id),
{
}

/// A new peer has its source and two empty queues with room for 256 messages and 128 frames of
/// audio; its writer has nothing to do yet.
pub proof fn law_new_peer_has_empty_queues(source: PeerSource, session: SessionRuntime, peer_id: PeerId)
    ensures
        new_peer(source).source == source,
        new_peer(source).outbox.control.items.len() == 0,
        new_peer(source).outbox.control.capacity == 256,
        new_peer(source).outbox.control.receiver_alive,
        new_peer(source).outbox.audio.items.len() == 0,
        new_peer(source).outbox.audio.capacity == 128,
        new_peer(source).outbox.audio.receiver_alive,
        !new_peer(source).outbox.signal.is_raised(),
        session.is_attached(peer_id) <==> session.peers.has(peer_id)
            && session.peers.ws_handles@[peer_id] is Some,
{
}

/// A session is begun without peers; a peer that is attached joins with empty queues, and one whose
/// tasks could not be started leaves again.
pub proof fn law_session_takes_peers_in(
    session: &mut SessionRuntime,
    peer_id: PeerId,
    source: PeerSource,
    spawned: Result<(), String>,
    r: Result<(), String>,
    number: u64,
    fresh: SessionRuntime,
    other: PeerId,
)
    ensures
        call_ensures(SessionRuntime::new, (number,), fresh) ==> fresh.session_id == number
            && !fresh.peers.has(other),
        call_ensures(SessionRuntime::attach_peer, (session, peer_id, source), ()) ==> {
            &&& final(session).session_id == old(session).session_id
            &&& final(session).peers.has(peer_id)
            &&& final(session).peers.hub@[peer_id] == new_peer(source)
            &&& final(session).peers.media@[peer_id].is_idle()
            &&& !final(session).is_attached(peer_id)
            &&& other != peer_id ==> final(session).peers.has(other) == old(session).peers.has(other)
                && final(session).peers.hub@[other] == old(session).peers.hub@[other]
        },
        call_ensures(SessionRuntime::attached, (session, peer_id, spawned), r) ==> match spawned {
            Ok(()) => {
                let waited = old(session).peers.has(peer_id) && old(session).peers.ws_handles@[peer_id] is None;
                &&& r is Ok <==> waited
                &&& waited ==> final(session).is_attached(peer_id)
                &&& final(session).peers.hub == old(session).peers.hub
                &&& final(session).peers.media == old(session).peers.media
            },
            Err(err) => {
                &&& r == Err::<(), String>(err)
                &&& !final(session).peers.has(peer_id)
                &&& other != peer_id ==> final(session).peers.has(other) == old(session).peers.has(other)
                    && final(session).peers.hub@[other] == old(session).peers.hub@[other]
            },
        },
{
}

/// A departure begins once, with the offer of a close; what was the peer's is handed over when it
/// ends, and everybody else stays.
pub proof fn law_peer_departs_once(
    session: &mut SessionRuntime,
    peer_id: PeerId,
    handle: &mut WsPeerHandle,
    taken: Option<WsPeerHandle>,
    begun: Option<(WsPeerHandle, bool)>,
    forced: bool,
    gone: Option<PeerDeparture>,
    other: PeerId,
)
    ensures
        call_ensures(SessionRuntime::take_handle, (session, peer_id), taken) ==> {
            &&& taken is Some <==> old(session).peers.has(peer_id) && old(session).peers.ws_handles@[peer_id] is Some
            &&& taken is Some ==> taken == old(session).peers.ws_handles@[peer_id] && !final(session).is_attached(peer_id)
            &&& final(session).peers.hub == old(session).peers.hub
        },
        call_ensures(SessionRuntime::begin_departure, (session, peer_id), begun) ==> {
            &&& begun is Some <==> old(session).is_attached(peer_id)
            &&& begun matches Some((means, offer)) ==> {
                let queue = old(session).peers.hub@[peer_id].outbox.control;
                &&& Some(means) == old(session).peers.ws_handles@[peer_id]
                &&& !final(session).is_attached(peer_id)
                &&& offer <==> queue.receiver_alive && queue.items.len() < queue.capacity
                &&& offer ==> final(session).peers.hub@[peer_id].outbox.control == queue.push(
                    OutboundView::Close,
                )
                &&& other != peer_id ==> final(session).peers.hub@[other] == old(session).peers.hub@[other]
            }
        },
        call_ensures(SessionRuntime::force_close, (session, peer_id, handle), forced) ==> {
            &&& forced <==> old(handle).close_state
            &&& !final(handle).close_state
            &&& old(session).peers.has(peer_id) && forced ==> final(session).peers.hub@[peer_id].outbox.signal.closed
            &&& other != peer_id ==> final(session).peers.hub@[other] == old(session).peers.hub@[other]
        },
        call_ensures(SessionRuntime::finish_departure, (session, peer_id), gone) ==> {
            &&& gone is Some <==> old(session).peers.has(peer_id)
            &&& !final(session).peers.has(peer_id)
            &&& other != peer_id ==> final(session).peers.has(other) == old(session).peers.has(other)
                && final(session).peers.hub@[other] == old(session).peers.hub@[other]
            &&& gone matches Some(departure) ==> {
                let media = old(session).peers.media@[peer_id];
                &&& departure.source == old(session).peers.hub@[peer_id].source
                &&& departure.remaining_peers == final(session).peers.hub@.len()
                &&& departure.recorder.kill_child == media.recorder.child
                    && departure.recorder.join_task == media.recorder.task
                &&& departure.player.kill_child == media.player.child && departure.player.join_task
                    == media.player.task
            }
        },
{
}

/// A session that ends offers everyone a close, and says who is still there and how many of them this
/// process had connected to.
pub proof fn law_session_ends_for_everyone(
    session: &mut SessionRuntime,
    r: (SessionShutdownSummary, Vec<PeerId>),
)
    requires
        call_ensures(SessionRuntime::shutdown, (session,), r),
    ensures
        r.1@ == old(session).peers.hub.ids(),
        r.0.closed_outbound_peers == outbound_count(old(session).peers.hub@, old(session).peers.hub.ids()),
        final(session).peers.hub@ == offered(
            old(session).peers.hub@,
            old(session).peers.hub.ids(),
            OutboundView::Close,
        ),
        final(session).session_id == old(session).session_id,
{
}

/// How much may wait for the router, and how long a close may take.
pub proof fn law_limits_of_a_session()
    ensures
        ROUTE_CHANNEL_CAPACITY == 256,
        GRACEFUL_CLOSE_MILLIS == 200,
        FORCE_CLOSE_MILLIS == 100,
{
}

} // verus!
