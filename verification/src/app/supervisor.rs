//! The life of the process: when a session begins, who joins it, when it ends.

use crate::app::peer_context::handle_error_text;
use crate::app::peer_media::PeerMedia;
use crate::app::peer_table::{lemma_ids_are_keys, without};
use crate::app::session::{new_peer, PeerDeparture, SessionRuntime, SessionShutdownSummary};
use crate::app::ws_ingress::ConnectServerStatus;
use crate::app::ws_peer_hub::PeerSendersView;
use crate::audio::recorder::stopped_recorder;
use crate::config::RunConfig;
use crate::text::{decimal, decimal_of};
use crate::transport::control::{PeerId, PeerSource};
use crate::transport::ws_pump::WsPeerHandle;
use vstd::prelude::*;

verus! {

/// Runs one session at a time, from its first peer to its last.
pub struct AppSupervisor {
    pub run_config: RunConfig,
    pub next_session_id: u64,
    pub next_peer_id: PeerId,
    pub session: Option<SessionRuntime>,
}

/// The number after this one, as long as there is one.
pub open spec fn following(n: u64) -> u64 {
    if n == u64::MAX {
        n
    } else {
        (n + 1) as u64
    }
}

/// The peers in order after one more came; one that is there keeps its place.
pub open spec fn joined(order: Seq<PeerId>, peer_id: PeerId) -> Seq<PeerId> {
    if order.contains(peer_id) {
        order
    } else {
        order.push(peer_id)
    }
}

/// The means to end the peers after the tasks of one of them were started, or
/// could not be. No other peer's change.
pub open spec fn handles_after(app: AppSupervisor, peer_id: PeerId, spawned: bool) -> Map<
    PeerId,
    Option<WsPeerHandle>,
> {
    if !spawned {
        app.handles().remove(peer_id)
    } else if app.awaits(peer_id) {
        app.handles().insert(peer_id, Some(WsPeerHandle { close_state: true }))
    } else {
        app.handles()
    }
}

/// What the exit of a peer's task leads to.
#[derive(Debug, Clone, Copy, PartialEq, Eq, Structural)]
pub enum PeerExitAction {
    /// The task belonged to a session that is over. `wake_connector` tells the
    /// connector to go on.
    Stale { wake_connector: bool },
    /// The peer has to be brought to an end.
    Depart,
}

/// What the departure of a peer leads to.
#[derive(Debug, Clone, Copy, PartialEq, Eq)]
pub struct DepartureAction {
    /// The connector has to be told to go on.
    pub wake_connector: bool,
    /// The session has no peers left and has to be brought to an end.
    pub shut_down: bool,
}

impl AppSupervisor {
    pub open spec fn wf(&self) -> bool {
        self.session matches Some(session) ==> session.wf()
    }

    /// The number of the session that runs.
    pub open spec fn session_id(&self) -> Option<u64> {
        match self.session {
            Some(session) => Some(session.session_id),
            None => None,
        }
    }

    /// The peers of the session that runs.
    pub open spec fn peers(&self) -> Map<PeerId, PeerSendersView> {
        match self.session {
            Some(session) => session.peers.hub@,
            None => Map::empty(),
        }
    }

    /// The players and recorders of the peers of the session that runs.
    pub open spec fn media(&self) -> Map<PeerId, PeerMedia> {
        match self.session {
            Some(session) => session.peers.media@,
            None => Map::empty(),
        }
    }

    /// The means to end each of the peers of the session that runs.
    pub open spec fn handles(&self) -> Map<PeerId, Option<WsPeerHandle>> {
        match self.session {
            Some(session) => session.peers.ws_handles@,
            None => Map::empty(),
        }
    }

    /// The peers of the session that runs, in the order in which they came.
    pub open spec fn peer_order(&self) -> Seq<PeerId> {
        match self.session {
            Some(session) => session.peers.hub.ids(),
            None => Seq::empty(),
        }
    }

    /// A session runs that has no peers.
    pub open spec fn is_deserted(&self) -> bool {
        self.session is Some && self.peer_order().len() == 0
    }

    /// See [`AppSupervisor::is_deserted`].
    fn has_deserted_session(&self) -> (r: bool)
        requires
            self.wf(),
        ensures
            r == self.is_deserted(),
    {
        match &self.session {
            Some(session) => session.peers.peer_count() == 0,
            None => false,
        }
    }

    /// A peer was taken in whose reader and writer are still to be started.
    pub open spec fn awaits(&self, peer_id: PeerId) -> bool {
        self.session matches Some(session) && session.peers.has(peer_id) && !session.is_attached(
            peer_id,
        )
    }

    /// Nothing runs yet.
    pub fn new(run_config: RunConfig) -> (r: Self)
        ensures
            r.wf(),
            r.run_config == run_config,
            r.next_session_id == 1,
            r.next_peer_id == 1,
            r.session is None,
    {
        AppSupervisor { run_config, next_session_id: 1, next_peer_id: 1, session: None }
    }

    /// A peer is there, so there has to be a session. The number of a session
    /// that was begun for it is returned, so that what it needs can be started.
    pub fn start_session(&mut self) -> (r: Option<u64>)
        requires
            old(self).wf(),
        ensures
            final(self).wf(),
            final(self).run_config == old(self).run_config,
            final(self).next_peer_id == old(self).next_peer_id,
            final(self).session is Some,
            old(self).session is Some ==> r is None && final(self).session == old(self).session
                && final(self).next_session_id == old(self).next_session_id,
            old(self).session is None ==> r == Some(old(self).next_session_id)
                && final(self).session_id() == r && final(self).peers() == Map::<
                PeerId,
                PeerSendersView,
            >::empty() && final(self).peer_order() == Seq::<PeerId>::empty()
                && final(self).next_session_id == following(old(self).next_session_id),
            final(self).media() == old(self).media(),
            final(self).handles() == old(self).handles(),
    {
        if self.session.is_some() {
            return None;
        }
        let session_id = self.allocate_session_id();
        self.session = Some(SessionRuntime::new(session_id));
        assert(self.media() =~= old(self).media());
        assert(self.handles() =~= old(self).handles());
        Some(session_id)
    }

    /// The number of the next session.
    pub fn allocate_session_id(&mut self) -> (r: u64)
        ensures
            r == old(self).next_session_id,
            final(self).next_session_id == following(old(self).next_session_id),
            final(self).next_peer_id == old(self).next_peer_id,
            final(self).run_config == old(self).run_config,
            final(self).session == old(self).session,
    {
        let id = self.next_session_id;
        self.next_session_id = self.next_session_id.saturating_add(1);
        id
    }

    /// The number of the next peer.
    pub fn allocate_peer_id(&mut self) -> (r: PeerId)
        ensures
            r == old(self).next_peer_id,
            final(self).next_peer_id == following(old(self).next_peer_id),
            final(self).next_session_id == old(self).next_session_id,
            final(self).run_config == old(self).run_config,
            final(self).session == old(self).session,
    {
        let id = self.next_peer_id;
        self.next_peer_id = self.next_peer_id.saturating_add(1);
        id
    }

    /// Takes a new peer into the session under a number of its own. Its reader
    /// and writer are started next, and [`AppSupervisor::peer_attached`] says
    /// what came of it.
    pub fn admit_peer(&mut self, source: PeerSource) -> (r: PeerId)
        requires
            old(self).wf(),
            old(self).session is Some,
        ensures
            final(self).wf(),
            final(self).run_config == old(self).run_config,
            final(self).next_session_id == old(self).next_session_id,
            r == old(self).next_peer_id,
            final(self).next_peer_id == following(old(self).next_peer_id),
            final(self).session_id() == old(self).session_id(),
            final(self).peers() == old(self).peers().insert(r, new_peer(source)),
            final(self).peer_order() == joined(old(self).peer_order(), r),
            final(self).media()[r].is_idle(),
            final(self).media() == old(self).media().insert(r, final(self).media()[r]),
            final(self).handles() == old(self).handles().insert(r, None),
            final(self).awaits(r),
    {
        let peer_id = self.allocate_peer_id();
        proof {
            let hub = self.session->0.peers.hub;
            lemma_ids_are_keys(hub.peers.entries@);
            assert(hub.ids().contains(peer_id) <==> hub.peers@.contains_key(peer_id));
        }
        match self.session.as_mut() {
            Some(session) => {
                session.attach_peer(peer_id, source);
            },
            None => {},
        }
        peer_id
    }

    /// The reader and writer of a new peer run, or could not be started. In that
    /// case the connector may try again, if it was its peer; the second part of
    /// the result tells whether it has to be woken.
    pub fn peer_attached(
        &mut self,
        peer_id: PeerId,
        source: &PeerSource,
        spawned: Result<(), String>,
        barrier: &mut ConnectServerStatus,
    ) -> (r: (Result<(), String>, bool))
        requires
            old(self).wf(),
        ensures
            final(self).wf(),
            final(self).run_config == old(self).run_config,
            final(self).next_session_id == old(self).next_session_id,
            final(self).next_peer_id == old(self).next_peer_id,
            final(self).session_id() == old(self).session_id(),
            spawned is Ok ==> final(self).peers() == old(self).peers() && final(self).media()
                == old(self).media() && final(self).peer_order() == old(self).peer_order(),
            final(self).handles() == handles_after(*old(self), peer_id, spawned is Ok),
            spawned is Ok ==> (r.0 is Ok <==> old(self).session is None || old(self).awaits(peer_id)),
            r.0 is Ok && old(self).session is Some ==> final(self).session->0.is_attached(peer_id),
            spawned is Ok && old(self).session is Some && r.0 is Err ==> r.0->Err_0@
                == handle_error_text(old(self).session->0.peers, peer_id),
            r.0 is Ok ==> *final(barrier) == *old(barrier) && !r.1,
            spawned is Err ==> r.0 == spawned && final(self).peers() == old(self).peers().remove(
                peer_id,
            ) && final(self).media() == old(self).media().remove(peer_id) && final(self).peer_order()
                == without(old(self).peer_order(), peer_id),
            r.0 is Err ==> r.1 == (*source is OutboundConnect && old(barrier).active)
                && final(barrier).active == (!(*source is OutboundConnect) && old(barrier).active),
    {
        let outcome = match self.session.as_mut() {
            Some(session) => session.attached(peer_id, spawned),
            None => {
                assert(self.peers().remove(peer_id) =~= self.peers());
                assert(self.media().remove(peer_id) =~= self.media());
                assert(self.handles().remove(peer_id) =~= self.handles());
                spawned
            },
        };
        let wake = match &outcome {
            Ok(()) => false,
            Err(_) => {
                if source.is_outbound() {
                    barrier.mark_disconnected()
                } else {
                    false
                }
            },
        };
        (outcome, wake)
    }

    /// A task of a peer ended. If it belonged to a session that is over, all that
    /// is left to do is to let the connector go on, if it was its peer.
    pub fn peer_task_exited(
        &self,
        session_id: u64,
        source: &PeerSource,
        barrier: &mut ConnectServerStatus,
    ) -> (r: PeerExitAction)
        ensures
            self.session_id() == Some(session_id) ==> r == PeerExitAction::Depart && *final(barrier)
                == *old(barrier),
            self.session_id() != Some(session_id) ==> r == (PeerExitAction::Stale {
                wake_connector: *source is OutboundConnect && old(barrier).active,
            }) && final(barrier).active == (!(*source is OutboundConnect) && old(barrier).active),
    {
        let session_matches = match &self.session {
            Some(session) => session.session_id == session_id,
            None => false,
        };
        if session_matches {
            return PeerExitAction::Depart;
        }
        let wake_connector = if source.is_outbound() {
            barrier.mark_disconnected()
        } else {
            false
        };
        PeerExitAction::Stale { wake_connector }
    }

    /// A peer was taken out of the session, or was not in it any more. The
    /// connector may go on if it was its peer, and the session ends with its last
    /// peer.
    pub fn peer_departed(
        &self,
        departure: &Option<PeerDeparture>,
        barrier: &mut ConnectServerStatus,
    ) -> (r: DepartureAction)
        ensures
            match *departure {
                None => r == (DepartureAction { wake_connector: false, shut_down: false })
                    && *final(barrier) == *old(barrier),
                Some(gone) => r == (DepartureAction {
                    wake_connector: gone.source is OutboundConnect && old(barrier).active,
                    shut_down: gone.remaining_peers == 0,
                }) && final(barrier).active == (!(gone.source is OutboundConnect) && old(barrier).active),
            },
    {
        match departure {
            None => DepartureAction { wake_connector: false, shut_down: false },
            Some(gone) => {
                let wake_connector = if gone.source.is_outbound() {
                    barrier.mark_disconnected()
                } else {
                    false
                };
                DepartureAction { wake_connector, shut_down: gone.remaining_peers == 0 }
            },
        }
    }

    /// The router of a session ended. `true` means that it was the session that
    /// runs, which cannot go on without it.
    pub fn router_exited(&self, session_id: u64) -> (r: bool)
        ensures
            r == (self.session_id() == Some(session_id)),
    {
        match &self.session {
            Some(session) => session.session_id == session_id,
            None => false,
        }
    }

    /// The session was brought to an end. The result tells whether the connector
    /// has to be woken.
    pub fn session_ended(
        &mut self,
        summary: SessionShutdownSummary,
        barrier: &mut ConnectServerStatus,
    ) -> (r: bool)
        ensures
            final(self).wf(),
            final(self).session is None,
            final(self).run_config == old(self).run_config,
            final(self).next_session_id == old(self).next_session_id,
            final(self).next_peer_id == old(self).next_peer_id,
            r == (summary.closed_outbound_peers > 0 && old(barrier).active),
            final(barrier).active == (summary.closed_outbound_peers == 0 && old(barrier).active),
    {
        self.session = None;
        if summary.closed_outbound_peers > 0 {
            barrier.mark_disconnected()
        } else {
            false
        }
    }
}

/// A task of a peer ended.
#[derive(Debug, PartialEq, Eq)]
pub struct PeerTaskExit {
    pub session_id: u64,
    pub peer_id: PeerId,
    pub source: PeerSource,
    pub task_name: String,
    pub result: Result<(), String>,
}

/// The router of a session ended.
#[derive(Debug, PartialEq, Eq)]
pub struct RouterExit {
    pub session_id: u64,
    pub result: Result<(), String>,
}

/// What is logged about the end of a peer's task.
pub open spec fn peer_exit_text(exit: PeerTaskExit) -> Seq<char> {
    let what = "session="@ + decimal(exit.session_id as nat) + ", peer="@ + decimal(
        exit.peer_id as nat,
    ) + ", task="@ + exit.task_name@;
    match exit.result {
        Ok(()) => "Peer task exited: "@ + what,
        Err(err) => "Peer task failed: "@ + what + ", err="@ + err@,
    }
}

/// See [`peer_exit_text`].
pub fn log_peer_task_exit(exit: &PeerTaskExit) -> (r: String)
    ensures
        r@ == peer_exit_text(*exit),
{
    let mut what = "session=".to_string();
    what.append(decimal_of(exit.session_id).as_str());
    what.append(", peer=");
    what.append(decimal_of(exit.peer_id).as_str());
    what.append(", task=");
    what.append(exit.task_name.as_str());
    match &exit.result {
        Ok(()) => {
            let mut text = "Peer task exited: ".to_string();
            text.append(what.as_str());
            text
        },
        Err(err) => {
            let mut text = "Peer task failed: ".to_string();
            text.append(what.as_str());
            text.append(", err=");
            text.append(err.as_str());
            text
        },
    }
}

/// What is logged about the end of a router.
pub open spec fn router_exit_text(exit: RouterExit) -> Seq<char> {
    match exit.result {
        Ok(()) => "Router exited for session "@ + decimal(exit.session_id as nat),
        Err(err) => "Router failed for session "@ + decimal(exit.session_id as nat) + ": "@ + err@,
    }
}

/// See [`router_exit_text`].
pub fn log_router_exit(exit: &RouterExit) -> (r: String)
    ensures
        r@ == router_exit_text(*exit),
{
    match &exit.result {
        Ok(()) => {
            let mut text = "Router exited for session ".to_string();
            text.append(decimal_of(exit.session_id).as_str());
            text
        },
        Err(err) => {
            let mut text = "Router failed for session ".to_string();
            text.append(decimal_of(exit.session_id).as_str());
            text.append(": ");
            text.append(err.as_str());
            text
        },
    }
}

/// What the supervisor is told.
#[derive(Debug, PartialEq, Eq)]
pub enum SupervisorEvent {
    /// A peer has shaken hands and wants in.
    PendingPeer(PeerSource),
    /// The reader and writer of a new peer run, or could not be started.
    PeerSpawned { peer_id: PeerId, source: PeerSource, spawned: Result<(), String> },
    /// A task of a peer ended.
    PeerTaskExited(PeerTaskExit),
    /// A peer was brought to an end; `None` if it was gone already.
    PeerDeparted(Option<PeerDeparture>),
    /// The router of a session ended.
    RouterExited(RouterExit),
    /// The session was brought to an end.
    SessionEnded(SessionShutdownSummary),
}

/// What the supervisor wants to have done. Wherever `wake_connector` is set, the
/// connector has to be woken too.
#[derive(Debug, PartialEq, Eq)]
pub enum SupervisorAction {
    /// Wait for the next event.
    Wait { wake_connector: bool },
    /// Start what the new session of this number needs, if one begins, and then
    /// the reader and writer of this peer.
    SpawnPeer { new_session: Option<u64>, peer_id: PeerId },
    /// A peer could not join. `shut_down` means that this leaves the session without
    /// peers, and that it has to be brought to an end.
    AttachFailed { err: String, wake_connector: bool, shut_down: bool },
    /// Bring this peer to an end.
    DepartPeer { peer_id: PeerId },
    /// Bring the session to an end.
    ShutDown { wake_connector: bool },
    /// Say that the connection was closed.
    Closed { wake_connector: bool },
}

/// Whether the barrier is open after the connector's peer went away, if it did.
pub open spec fn barrier_after(source: PeerSource, barrier: ConnectServerStatus) -> bool {
    !(source is OutboundConnect) && barrier.active
}

/// Whether the connector has to be woken after its peer went away, if it did.
pub open spec fn wakes(source: PeerSource, barrier: ConnectServerStatus) -> bool {
    source is OutboundConnect && barrier.active
}

/// Neither the configuration nor the numbers to come changed.
pub open spec fn keeps_numbers(before: AppSupervisor, after: AppSupervisor) -> bool {
    &&& after.run_config == before.run_config
    &&& after.next_session_id == before.next_session_id
    &&& after.next_peer_id == before.next_peer_id
}

/// What an event leads to.
pub open spec fn supervises(
    before: AppSupervisor,
    barrier: ConnectServerStatus,
    event: SupervisorEvent,
    after: AppSupervisor,
    new_barrier: ConnectServerStatus,
    action: SupervisorAction,
) -> bool {
    match event {
        SupervisorEvent::PendingPeer(source) => {
            let peer_id = before.next_peer_id;
            let begins = before.session is None;
            &&& action == (SupervisorAction::SpawnPeer {
                new_session: if begins {
                    Some(before.next_session_id)
                } else {
                    None
                },
                peer_id,
            })
            &&& new_barrier == barrier
            &&& after.run_config == before.run_config
            &&& after.next_peer_id == following(peer_id)
            &&& after.next_session_id == if begins {
                following(before.next_session_id)
            } else {
                before.next_session_id
            }
            &&& after.session_id() == if begins {
                Some(before.next_session_id)
            } else {
                before.session_id()
            }
            &&& after.peers() == before.peers().insert(peer_id, new_peer(source))
            &&& after.peer_order() == joined(before.peer_order(), peer_id)
            &&& after.media()[peer_id].is_idle()
            &&& after.media() == before.media().insert(peer_id, after.media()[peer_id])
            &&& after.handles() == before.handles().insert(peer_id, None)
            &&& after.awaits(peer_id)
        },
        SupervisorEvent::PeerSpawned { peer_id, source, spawned } => {
            &&& keeps_numbers(before, after)
            &&& after.session_id() == before.session_id()
            &&& after.handles() == handles_after(before, peer_id, spawned is Ok)
            &&& match spawned {
                Err(err) => {
                    &&& action == (SupervisorAction::AttachFailed {
                        err,
                        wake_connector: wakes(source, barrier),
                        shut_down: after.is_deserted(),
                    })
                    &&& new_barrier.active == barrier_after(source, barrier)
                    &&& after.peers() == before.peers().remove(peer_id)
                    &&& after.media() == before.media().remove(peer_id)
                    &&& after.peer_order() == without(before.peer_order(), peer_id)
                },
                Ok(()) => {
                    &&& after.peers() == before.peers()
                    &&& after.media() == before.media()
                    &&& after.peer_order() == before.peer_order()
                    &&& if before.session is None || before.awaits(peer_id) {
                        &&& action == (SupervisorAction::Wait { wake_connector: false })
                        &&& new_barrier == barrier
                        &&& after.session matches Some(session) ==> session.is_attached(peer_id)
                    } else {
                        &&& action matches SupervisorAction::AttachFailed {
                            err,
                            wake_connector,
                            shut_down,
                        } && shut_down == after.is_deserted() && wake_connector == wakes(source, barrier) && err@
                            == handle_error_text(before.session->0.peers, peer_id)
                        &&& new_barrier.active == barrier_after(source, barrier)
                    }
                },
            }
        },
        SupervisorEvent::PeerTaskExited(exit) => {
            &&& after == before
            &&& if before.session_id() == Some(exit.session_id) {
                action == (SupervisorAction::DepartPeer { peer_id: exit.peer_id }) && new_barrier
                    == barrier
            } else {
                action == (SupervisorAction::Wait { wake_connector: wakes(exit.source, barrier) })
                    && new_barrier.active == barrier_after(exit.source, barrier)
            }
        },
        SupervisorEvent::PeerDeparted(None) => {
            &&& after == before
            &&& action == (SupervisorAction::Wait { wake_connector: false })
            &&& new_barrier == barrier
        },
        SupervisorEvent::PeerDeparted(Some(gone)) => {
            &&& after == before
            &&& new_barrier.active == barrier_after(gone.source, barrier)
            &&& action == if gone.remaining_peers == 0 {
                SupervisorAction::ShutDown { wake_connector: wakes(gone.source, barrier) }
            } else {
                SupervisorAction::Wait { wake_connector: wakes(gone.source, barrier) }
            }
        },
        SupervisorEvent::RouterExited(exit) => {
            &&& after == before
            &&& new_barrier == barrier
            &&& action == if before.session_id() == Some(exit.session_id) {
                SupervisorAction::ShutDown { wake_connector: false }
            } else {
                SupervisorAction::Wait { wake_connector: false }
            }
        },
        SupervisorEvent::SessionEnded(summary) => {
            &&& keeps_numbers(before, after)
            &&& after.session is None
            &&& action == (SupervisorAction::Closed {
                wake_connector: summary.closed_outbound_peers > 0 && barrier.active,
            })
            &&& new_barrier.active == (summary.closed_outbound_peers == 0 && barrier.active)
        },
    }
}

impl AppSupervisor {
    /// One turn of the loop that the process runs for ever; see [`supervises`].
    pub fn run_forever(&mut self, event: SupervisorEvent, barrier: &mut ConnectServerStatus) -> (r:
        SupervisorAction)
        requires
            old(self).wf(),
        ensures
            final(self).wf(),
            supervises(*old(self), *old(barrier), event, *final(self), *final(barrier), r),
    {
        match event {
            SupervisorEvent::PendingPeer(source) => {
                let new_session = self.start_session();
                let peer_id = self.admit_peer(source);
                SupervisorAction::SpawnPeer { new_session, peer_id }
            },
            SupervisorEvent::PeerSpawned { peer_id, source, spawned } => {
                match self.peer_attached(peer_id, &source, spawned, barrier) {
                    (Ok(()), wake_connector) => SupervisorAction::Wait { wake_connector },
                    (Err(err), wake_connector) => SupervisorAction::AttachFailed {
                        err,
                        wake_connector,
                        shut_down: self.has_deserted_session(),
                    },
                }
            },
            SupervisorEvent::PeerTaskExited(exit) => {
                match self.peer_task_exited(exit.session_id, &exit.source, barrier) {
                    PeerExitAction::Depart => SupervisorAction::DepartPeer { peer_id: exit.peer_id },
                    PeerExitAction::Stale { wake_connector } => SupervisorAction::Wait {
                        wake_connector,
                    },
                }
            },
            SupervisorEvent::PeerDeparted(departure) => {
                let next = self.peer_departed(&departure, barrier);
                if next.shut_down {
                    SupervisorAction::ShutDown { wake_connector: next.wake_connector }
                } else {
                    SupervisorAction::Wait { wake_connector: next.wake_connector }
                }
            },
            SupervisorEvent::RouterExited(exit) => {
                if self.router_exited(exit.session_id) {
                    SupervisorAction::ShutDown { wake_connector: false }
                } else {
                    SupervisorAction::Wait { wake_connector: false }
                }
            },
            SupervisorEvent::SessionEnded(summary) => {
                let wake_connector = self.session_ended(summary, barrier);
                SupervisorAction::Closed { wake_connector }
            },
        }
    }
}

/// Numbers are given out in order and, as long as there are any left, only once:
/// each turn gives a new peer a number that is smaller than every one to come.
pub proof fn law_peer_numbers_grow(
    before: AppSupervisor,
    barrier: ConnectServerStatus,
    event: SupervisorEvent,
    after: AppSupervisor,
    new_barrier: ConnectServerStatus,
    action: SupervisorAction,
)
    requires
        supervises(before, barrier, event, after, new_barrier, action),
        before.next_peer_id < u64::MAX,
    ensures
        before.next_peer_id <= after.next_peer_id,
        before.next_session_id <= after.next_session_id,
        action matches SupervisorAction::SpawnPeer { peer_id, .. } ==> peer_id < after.next_peer_id
            && peer_id == before.next_peer_id,
{
}

/// Every peer has a number below the next one to be given out.
pub open spec fn numbers_are_fresh(app: AppSupervisor) -> bool {
    forall|id: PeerId| #[trigger] app.peers().contains_key(id) ==> id < app.next_peer_id
}

/// No peer takes the place of another: as long as there are numbers left, every
/// turn keeps the numbers of the peers below the next one, so that a new peer gets
/// a number that no peer of the session has.
pub proof fn law_new_peer_replaces_nobody(
    before: AppSupervisor,
    barrier: ConnectServerStatus,
    event: SupervisorEvent,
    after: AppSupervisor,
    new_barrier: ConnectServerStatus,
    action: SupervisorAction,
)
    requires
        supervises(before, barrier, event, after, new_barrier, action),
        numbers_are_fresh(before),
        before.next_peer_id < u64::MAX,
    ensures
        numbers_are_fresh(after),
        action matches SupervisorAction::SpawnPeer { peer_id, .. } ==> !before.peers().contains_key(
            peer_id,
        ) && after.peers().contains_key(peer_id),
{
    assert forall|id: PeerId| #[trigger] after.peers().contains_key(id) implies id
        < after.next_peer_id by {
        match event {
            SupervisorEvent::PendingPeer(_) => {
                if id != before.next_peer_id {
                    assert(before.peers().contains_key(id));
                }
            },
            SupervisorEvent::SessionEnded(_) => {},
            _ => {
                assert(before.peers().contains_key(id));
            },
        }
    }
}

/// A peer that joins, or fails to, touches nobody else: the queues, the media and
/// the means to end every other peer stay as they are.
pub proof fn law_joining_leaves_the_others(
    before: AppSupervisor,
    barrier: ConnectServerStatus,
    event: SupervisorEvent,
    after: AppSupervisor,
    new_barrier: ConnectServerStatus,
    action: SupervisorAction,
    other: PeerId,
)
    requires
        supervises(before, barrier, event, after, new_barrier, action),
        event is PendingPeer ==> other != before.next_peer_id,
        event matches SupervisorEvent::PeerSpawned { peer_id, .. } ==> other != peer_id,
        !(event is SessionEnded),
    ensures
        after.peers().contains_key(other) == before.peers().contains_key(other),
        after.media().contains_key(other) == before.media().contains_key(other),
        after.handles().contains_key(other) == before.handles().contains_key(other),
        before.peers().contains_key(other) ==> after.peers()[other] == before.peers()[other],
        before.media().contains_key(other) ==> after.media()[other] == before.media()[other],
        before.handles().contains_key(other) ==> after.handles()[other] == before.handles()[other],
{
}

/// The session that runs is changed by nothing that belongs to another one.
pub proof fn law_stale_events_leave_the_session(
    before: AppSupervisor,
    barrier: ConnectServerStatus,
    exit: PeerTaskExit,
    router: RouterExit,
    after: AppSupervisor,
    new_barrier: ConnectServerStatus,
    action: SupervisorAction,
)
    requires
        before.session_id() != Some(exit.session_id),
        before.session_id() != Some(router.session_id),
        supervises(
            before,
            barrier,
            SupervisorEvent::PeerTaskExited(exit),
            after,
            new_barrier,
            action,
        ) || supervises(before, barrier, SupervisorEvent::RouterExited(router), after, new_barrier, action),
    ensures
        after == before,
        action is Wait,
{
}

/// A session begins with a peer and ends with its last one: only a peer that
/// wants in begins one; the departure of the last peer has it brought to an end, and
/// so does the failure of the only peer to join; no other turn leaves a session
/// without peers, and after the end there is none.
pub proof fn law_session_lives_with_its_peers(
    before: AppSupervisor,
    barrier: ConnectServerStatus,
    event: SupervisorEvent,
    after: AppSupervisor,
    new_barrier: ConnectServerStatus,
    action: SupervisorAction,
)
    requires
        supervises(before, barrier, event, after, new_barrier, action),
    ensures
        before.session is None && after.session is Some ==> event is PendingPeer,
        before.session is Some && after.session is None ==> event is SessionEnded,
        event matches SupervisorEvent::PeerDeparted(Some(gone)) ==> (action is ShutDown
            <==> gone.remaining_peers == 0),
        action matches SupervisorAction::AttachFailed { shut_down, .. } ==> (shut_down
            <==> after.is_deserted()),
        after.is_deserted() ==> before.is_deserted() || action matches SupervisorAction::AttachFailed {
            shut_down: true,
            ..
        },
        event is PendingPeer ==> after.session is Some && !after.is_deserted(),
{
    if let SupervisorEvent::PendingPeer(_) = event {
        assert(joined(before.peer_order(), before.next_peer_id).len() > 0);
    }
}

/// The barrier opens exactly when the connector's peer is gone, and the connector is
/// woken whenever it opens.
pub proof fn law_barrier_opens_with_a_wake(
    before: AppSupervisor,
    barrier: ConnectServerStatus,
    event: SupervisorEvent,
    after: AppSupervisor,
    new_barrier: ConnectServerStatus,
    action: SupervisorAction,
)
    requires
        supervises(before, barrier, event, after, new_barrier, action),
    ensures
        new_barrier.active ==> barrier.active,
        barrier.active && !new_barrier.active ==> match action {
            SupervisorAction::Wait { wake_connector } => wake_connector,
            SupervisorAction::AttachFailed { wake_connector, .. } => wake_connector,
            SupervisorAction::ShutDown { wake_connector } => wake_connector,
            SupervisorAction::Closed { wake_connector } => wake_connector,
            _ => false,
        },
{
}

/// What a supervisor has is what its session has; without a session there is nothing.
pub proof fn law_supervisor_has_what_its_session_has(app: AppSupervisor, id: PeerId)
    ensures
        app.session is None ==> app.session_id() is None && !app.peers().contains_key(id)
            && !app.media().contains_key(id) && !app.handles().contains_key(id)
            && app.peer_order().len() == 0 && !app.is_deserted() && !app.awaits(id),
        app.session matches Some(session) ==> {
            &&& app.session_id() == Some(session.session_id)
            &&& app.peers() == session.peers.hub@
            &&& app.media() == session.peers.media@
            &&& app.handles() == session.peers.ws_handles@
            &&& app.peer_order() == session.peers.hub.ids()
            &&& app.is_deserted() <==> session.peers.hub.ids().len() == 0
            &&& app.awaits(id) <==> session.peers.hub@.contains_key(id)
                && session.peers.ws_handles@[id] is None
        },
{
}

/// A peer that wants in gets the next number and joins behind everyone else, with empty queues and
/// nobody to end it yet; where no session runs, the next one begins with it. The numbers to come are
/// one higher then, as long as there are any.
pub proof fn law_peer_that_wants_in_joins(
    before: AppSupervisor,
    barrier: ConnectServerStatus,
    source: PeerSource,
    after: AppSupervisor,
    new_barrier: ConnectServerStatus,
    action: SupervisorAction,
)
    requires
        supervises(
            before,
            barrier,
            SupervisorEvent::PendingPeer(source),
            after,
            new_barrier,
            action,
        ),
    ensures
        ({
            let id = before.next_peer_id;
            &&& action matches SupervisorAction::SpawnPeer { new_session, peer_id } && peer_id == id && (
            before.session is Some ==> new_session is None) && (before.session is None
                ==> new_session == Some(before.next_session_id))
            &&& new_barrier == barrier
            &&& after.run_config == before.run_config
            &&& id < u64::MAX ==> after.next_peer_id == id + 1
            &&& before.session is Some ==> after.next_session_id == before.next_session_id
            &&& before.session is None && before.next_session_id < u64::MAX
                ==> after.next_session_id == before.next_session_id + 1
            &&& after.session is Some
            &&& after.session->0.session_id == if before.session is Some {
                before.session->0.session_id
            } else {
                before.next_session_id
            }
            &&& after.session->0.peers.hub@.contains_key(id)
            &&& after.session->0.peers.hub@[id].source == source
            &&& after.session->0.peers.hub@[id].outbox.control.items.len() == 0
            &&& after.session->0.peers.hub@[id].outbox.audio.items.len() == 0
            &&& after.session->0.peers.ws_handles@[id] is None
            &&& after.session->0.peers.media@[id].recorder == stopped_recorder()
            &&& !before.peer_order().contains(id) ==> after.session->0.peers.hub.ids()
                == before.peer_order() + seq![id]
            &&& before.peer_order().contains(id) ==> after.session->0.peers.hub.ids()
                == before.peer_order()
        }),
{
    let id = before.next_peer_id;
    assert(before.peer_order().push(id) =~= before.peer_order() + seq![id]);
}

/// A peer whose tasks could not be started is taken out again, and the reason is passed on; where it
/// was the connector's, the barrier opens and the connector is woken.
pub proof fn law_peer_that_cannot_start_is_taken_out(
    before: AppSupervisor,
    barrier: ConnectServerStatus,
    peer_id: PeerId,
    source: PeerSource,
    reason: String,
    after: AppSupervisor,
    new_barrier: ConnectServerStatus,
    action: SupervisorAction,
)
    requires
        supervises(
            before,
            barrier,
            SupervisorEvent::PeerSpawned { peer_id, source, spawned: Err(reason) },
            after,
            new_barrier,
            action,
        ),
    ensures
        action matches SupervisorAction::AttachFailed { err, wake_connector, .. } && err == reason
            && wake_connector == (source is OutboundConnect && barrier.active),
        source is OutboundConnect ==> !new_barrier.active,
        !(source is OutboundConnect) ==> new_barrier.active == barrier.active,
        after.session is Some <==> before.session is Some,
        before.session matches Some(session) ==> {
            &&& after.session->0.session_id == session.session_id
            &&& after.session->0.peers.hub@ == session.peers.hub@.remove(peer_id)
            &&& after.session->0.peers.media@ == session.peers.media@.remove(peer_id)
            &&& after.session->0.peers.ws_handles@ == session.peers.ws_handles@.remove(peer_id)
            &&& after.session->0.peers.hub.ids() == without(session.peers.hub.ids(), peer_id)
        },
        after.next_peer_id == before.next_peer_id && after.next_session_id == before.next_session_id,
{
}

/// A peer whose tasks run can be brought to an end from then on; nothing else changes. One that is
/// not waited for is an error, and the session stays as it is.
pub proof fn law_peer_that_runs_can_be_ended(
    before: AppSupervisor,
    barrier: ConnectServerStatus,
    peer_id: PeerId,
    source: PeerSource,
    after: AppSupervisor,
    new_barrier: ConnectServerStatus,
    action: SupervisorAction,
)
    requires
        supervises(
            before,
            barrier,
            SupervisorEvent::PeerSpawned { peer_id, source, spawned: Ok(()) },
            after,
            new_barrier,
            action,
        ),
    ensures
        before.session is None ==> after.session is None && new_barrier == barrier && action == (
        SupervisorAction::Wait { wake_connector: false }),
        before.session matches Some(session) ==> {
            let waited = session.peers.hub@.contains_key(peer_id)
                && session.peers.ws_handles@[peer_id] is None;
            &&& after.session->0.session_id == session.session_id
            &&& after.session->0.peers.hub@ == session.peers.hub@
            &&& after.session->0.peers.media@ == session.peers.media@
            &&& after.session->0.peers.hub.ids() == session.peers.hub.ids()
            &&& waited ==> action == (SupervisorAction::Wait { wake_connector: false })
                && new_barrier == barrier && after.session->0.peers.ws_handles@
                == session.peers.ws_handles@.insert(
                peer_id,
                Some(WsPeerHandle { close_state: true }),
            )
            &&& !waited ==> after.session->0.peers.ws_handles@ == session.peers.ws_handles@ && (
            action matches SupervisorAction::AttachFailed { err, wake_connector, .. }
                && wake_connector == (source is OutboundConnect && barrier.active) && err@
                == handle_error_text(session.peers, peer_id)) && new_barrier.active == (
            barrier.active && !(source is OutboundConnect))
        },
{
}

/// A task that ends takes its peer with it, if it belongs to the session that runs, and a router its
/// session. What is left of another session only lets the connector go on.
pub proof fn law_tasks_take_their_peer_with_them(
    before: AppSupervisor,
    barrier: ConnectServerStatus,
    exit: PeerTaskExit,
    router: RouterExit,
    after: AppSupervisor,
    new_barrier: ConnectServerStatus,
    action: SupervisorAction,
)
    ensures
        supervises(
            before,
            barrier,
            SupervisorEvent::PeerTaskExited(exit),
            after,
            new_barrier,
            action,
        ) ==> after == before && if before.session is Some && before.session->0.session_id
            == exit.session_id {
            action == (SupervisorAction::DepartPeer { peer_id: exit.peer_id }) && new_barrier == barrier
        } else {
            action == (SupervisorAction::Wait {
                wake_connector: exit.source is OutboundConnect && barrier.active,
            }) && new_barrier.active == (barrier.active && !(exit.source is OutboundConnect))
        },
        supervises(
            before,
            barrier,
            SupervisorEvent::RouterExited(router),
            after,
            new_barrier,
            action,
        ) ==> after == before && new_barrier == barrier && if before.session is Some
            && before.session->0.session_id == router.session_id {
            action == (SupervisorAction::ShutDown { wake_connector: false })
        } else {
            action == (SupervisorAction::Wait { wake_connector: false })
        },
{
}

/// After the connector's peer has left, and after a session with such a peer has ended, the barrier
/// is open; a peer that connected by itself leaves it as it is. A peer that was gone already changes
/// nothing.
pub proof fn law_departures_open_the_barrier(
    before: AppSupervisor,
    barrier: ConnectServerStatus,
    gone: PeerDeparture,
    summary: SessionShutdownSummary,
    after: AppSupervisor,
    new_barrier: ConnectServerStatus,
    action: SupervisorAction,
)
    ensures
        supervises(
            before,
            barrier,
            SupervisorEvent::PeerDeparted(None),
            after,
            new_barrier,
            action,
        ) ==> after == before && new_barrier == barrier && action == (SupervisorAction::Wait {
            wake_connector: false,
        }),
        supervises(
            before,
            barrier,
            SupervisorEvent::PeerDeparted(Some(gone)),
            after,
            new_barrier,
            action,
        ) ==> {
            let wake = gone.source is OutboundConnect && barrier.active;
            &&& after == before
            &&& new_barrier.active == (barrier.active && !(gone.source is OutboundConnect))
            &&& gone.remaining_peers == 0 ==> action == (SupervisorAction::ShutDown {
                wake_connector: wake,
            })
            &&& gone.remaining_peers > 0 ==> action == (SupervisorAction::Wait {
                wake_connector: wake,
            })
        },
        supervises(
            before,
            barrier,
            SupervisorEvent::SessionEnded(summary),
            after,
            new_barrier,
            action,
        ) ==> {
            &&& after.session is None
            &&& after.next_peer_id == before.next_peer_id
            &&& after.next_session_id == before.next_session_id
            &&& summary.closed_outbound_peers > 0 ==> !new_barrier.active && action == (
            SupervisorAction::Closed { wake_connector: barrier.active })
            &&& summary.closed_outbound_peers == 0 ==> new_barrier.active == barrier.active
                && action == (SupervisorAction::Closed { wake_connector: false })
        },
{
}

/// What is logged names the session, the peer and the task by their numbers and names.
pub proof fn law_exits_are_logged(exit: PeerTaskExit, router: RouterExit)
    ensures
        ({
            let what = "session="@ + decimal(exit.session_id as nat) + ", peer="@ + decimal(
                exit.peer_id as nat,
            ) + ", task="@ + exit.task_name@;
            &&& exit.result is Ok ==> peer_exit_text(exit) == "Peer task exited: "@ + what
            &&& exit.result matches Err(err) ==> peer_exit_text(exit) == "Peer task failed: "@ + what
                + ", err="@ + err@
        }),
        router.result is Ok ==> router_exit_text(router) == "Router exited for session "@ + decimal(
            router.session_id as nat,
        ),
        router.result matches Err(err) ==> router_exit_text(router) == "Router failed for session "@
            + decimal(router.session_id as nat) + ": "@ + err@,
{
}

/// Every turn of the supervisor is one of those that the laws about it describe, and it starts with
/// nothing but its numbers.
pub proof fn law_supervisor_takes_its_turns(
    app: &mut AppSupervisor,
    event: SupervisorEvent,
    barrier: &mut ConnectServerStatus,
    r: SupervisorAction,
    config: RunConfig,
    fresh: AppSupervisor,
)
    ensures
        call_ensures(AppSupervisor::run_forever, (app, event, barrier), r) ==> supervises(
            *old(app),
            *old(barrier),
            event,
            *final(app),
            *final(barrier),
            r,
        ),
        call_ensures(AppSupervisor::new, (config,), fresh) ==> fresh.run_config == config
            && fresh.next_session_id == 1 && fresh.next_peer_id == 1 && fresh.session is None,
{
}

/// Numbers are given out one by one, a session begins only where none runs, and a new peer joins it
/// under its number.
pub proof fn law_numbers_are_given_out(
    app: &mut AppSupervisor,
    source: PeerSource,
    number: u64,
    begun: Option<u64>,
)
    ensures
        call_ensures(AppSupervisor::allocate_session_id, (app,), number) ==> number == old(app).next_session_id && final(app).session == old(app).session && (old(app).next_session_id
            < u64::MAX ==> final(app).next_session_id == old(app).next_session_id + 1),
        call_ensures(AppSupervisor::allocate_peer_id, (app,), number) ==> number == old(app).next_peer_id
            && final(app).session == old(app).session && (old(app).next_peer_id < u64::MAX ==> final(app).next_peer_id == old(app).next_peer_id + 1),
        call_ensures(AppSupervisor::start_session, (app,), begun) ==> {
            &&& old(app).session is Some ==> begun is None && final(app).session == old(app).session
            &&& old(app).session is None ==> begun == Some(old(app).next_session_id) && final(app).session is Some && final(app).session->0.session_id == old(app).next_session_id && final(app).peer_order().len() == 0
        },
        call_ensures(AppSupervisor::admit_peer, (app, source), number) ==> {
            &&& number == old(app).next_peer_id
            &&& final(app).peers() == old(app).peers().insert(number, new_peer(source))
            &&& final(app).session_id() == old(app).session_id()
            &&& final(app).awaits(number)
        },
{
}

/// What is told by the parts of a turn: tasks and routers of other sessions do not count, and the
/// barrier opens behind the connector's peer.
pub proof fn law_parts_of_a_turn(
    app: &AppSupervisor,
    ended: &mut AppSupervisor,
    session_id: u64,
    source: &PeerSource,
    departure: &Option<PeerDeparture>,
    summary: SessionShutdownSummary,
    barrier: &mut ConnectServerStatus,
    exited: PeerExitAction,
    departed: DepartureAction,
    holds: bool,
)
    ensures
        call_ensures(AppSupervisor::peer_task_exited, (app, session_id, source, barrier), exited) ==> {
            let current = app.session is Some && app.session->0.session_id == session_id;
            let connected = *source is OutboundConnect;
            &&& current ==> exited == PeerExitAction::Depart && final(barrier).active == old(barrier).active
            &&& !current ==> exited == (PeerExitAction::Stale {
                wake_connector: connected && old(barrier).active,
            }) && final(barrier).active == (old(barrier).active && !connected)
        },
        call_ensures(AppSupervisor::peer_departed, (app, departure, barrier), departed) ==> match *departure {
            None => !departed.wake_connector && !departed.shut_down && final(barrier).active == old(barrier).active,
            Some(gone) => {
                let connected = gone.source is OutboundConnect;
                &&& departed.wake_connector == (connected && old(barrier).active)
                &&& departed.shut_down == (gone.remaining_peers == 0)
                &&& final(barrier).active == (old(barrier).active && !connected)
            },
        },
        call_ensures(AppSupervisor::router_exited, (app, session_id), holds) ==> (holds
            <==> app.session is Some && app.session->0.session_id == session_id),
        call_ensures(AppSupervisor::session_ended, (ended, summary, barrier), holds) ==> {
            &&& final(ended).session is None
            &&& final(ended).next_session_id == old(ended).next_session_id
            &&& final(ended).next_peer_id == old(ended).next_peer_id
            &&& holds <==> summary.closed_outbound_peers > 0 && old(barrier).active
            &&& final(barrier).active <==> summary.closed_outbound_peers == 0 && old(barrier).active
        },
{
}

/// What ended is logged with its names and numbers.
pub proof fn law_what_ended_is_logged(
    exit: &PeerTaskExit,
    router: &RouterExit,
    text: String,
)
    ensures
        call_ensures(log_peer_task_exit, (exit,), text) ==> text@ == peer_exit_text(*exit),
        call_ensures(log_router_exit, (router,), text) ==> text@ == router_exit_text(*router),
{
}

/// The start of a peer's tasks is taken up by its session; where it failed, the peer leaves, and the
/// barrier opens behind the connector's.
pub proof fn law_start_of_a_peer_is_taken_up(
    app: &mut AppSupervisor,
    peer_id: PeerId,
    source: &PeerSource,
    spawned: Result<(), String>,
    barrier: &mut ConnectServerStatus,
    r: (Result<(), String>, bool),
)
    requires
        call_ensures(AppSupervisor::peer_attached, (app, peer_id, source, spawned, barrier), r),
    ensures
        final(app).session_id() == old(app).session_id(),
        final(app).next_peer_id == old(app).next_peer_id,
        final(app).next_session_id == old(app).next_session_id,
        r.0 is Ok ==> final(barrier).active == old(barrier).active && !r.1,
        r.0 is Err ==> {
            let connected = *source is OutboundConnect;
            r.1 == (connected && old(barrier).active) && final(barrier).active == (old(barrier).active
                && !connected)
        },
        spawned is Err ==> r.0 == spawned && final(app).peers() == old(app).peers().remove(peer_id)
            && final(app).handles() == old(app).handles().remove(peer_id),
        spawned is Ok ==> final(app).peers() == old(app).peers() && final(app).media() == old(app).media(),
        spawned is Ok && old(app).session is Some ==> (r.0 is Ok <==> old(app).awaits(peer_id)),
        spawned is Ok && old(app).awaits(peer_id) ==> final(app).handles() == old(app).handles().insert(
            peer_id,
            Some(WsPeerHandle { close_state: true }),
        ),
{
}

} // verus!
