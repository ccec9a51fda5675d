//! Everything that a session keeps for each of its peers.

use crate::app::peer_media::{PeerMedia, PeerMediaRegistry};
use crate::app::peer_table::{without, PeerTable};
use crate::app::ws_peer_hub::{
    deliver, delivery_of, offered, outbound_count, recipients, with_control, PeerSendersView,
    SendControlError, WsPeerHub,
};
use crate::text::{decimal, decimal_of};
use crate::transport::control::{
    AckId, NotifyingSender, OutboundControl, OutboundTarget, OutboundView, PeerId, PeerSource,
    RoutedOutbound, WriteSignal,
};
use crate::transport::outbox::{audio_view, control_view, OutboxView, PeerOutbox};
use crate::transport::queue::SendError;
use crate::transport::ws_pump::WsPeerHandle;
use vstd::prelude::*;

verus! {

/// What is left of a peer that was removed, for the caller to bring to an end.
pub struct RemovedPeer {
    pub source: PeerSource,
    pub media: PeerMedia,
    pub outbox: PeerOutbox,
    pub ws_handle: Option<WsPeerHandle>,
    /// How many peers the session still has.
    pub remaining_peers: usize,
}

/// Why the audio of a peer was not cleared.
#[derive(Debug, PartialEq, Eq)]
pub enum ClearAudioError {
    /// The peer is gone.
    NoPeer,
    /// The control queue is full: wait for room and try again.
    Waits,
    /// The writer of the peer is gone.
    Disconnected,
}

/// The text for a peer that is not there.
pub open spec fn missing_peer_text(peer_id: PeerId) -> Seq<char> {
    "peer context not found: "@ + decimal(peer_id as nat)
}

/// See [`missing_peer_text`].
pub fn missing_peer(peer_id: PeerId) -> (r: String)
    ensures
        r@ == missing_peer_text(peer_id),
{
    let mut text = "peer context not found: ".to_string();
    text.append(decimal_of(peer_id).as_str());
    text
}

/// The peers of a session: their queues, their media, and the means to end them.
pub struct PeerContextRegistry {
    pub hub: WsPeerHub,
    pub media: PeerMediaRegistry,
    pub ws_handles: PeerTable<Option<WsPeerHandle>>,
}

/// Why the means to end a peer cannot be installed: the peer is not there, or has
/// them already.
pub open spec fn handle_error_text(peers: PeerContextRegistry, peer_id: PeerId) -> Seq<char> {
    if peers.has(peer_id) {
        "ws handle already installed for peer "@ + decimal(peer_id as nat)
    } else {
        missing_peer_text(peer_id)
    }
}

impl PeerContextRegistry {
    /// The three parts know the same peers.
    pub open spec fn wf(&self) -> bool {
        &&& self.hub.wf()
        &&& self.media.wf()
        &&& self.ws_handles.wf()
        &&& self.media@.dom() == self.hub@.dom()
        &&& self.ws_handles@.dom() == self.hub@.dom()
    }

    /// Whether a peer is there.
    pub open spec fn has(&self, peer_id: PeerId) -> bool {
        self.hub@.contains_key(peer_id)
    }

    /// No peers.
    pub fn new() -> (r: Self)
        ensures
            r.wf(),
            r.hub@ == Map::<PeerId, PeerSendersView>::empty(),
            r.hub.ids() == Seq::<PeerId>::empty(),
    {
        let r = PeerContextRegistry {
            hub: WsPeerHub::new(),
            media: PeerMediaRegistry::new(),
            ws_handles: PeerTable::new(),
        };
        assert(r.media@.dom() =~= r.hub@.dom());
        assert(r.ws_handles@.dom() =~= r.hub@.dom());
        r
    }

    /// Adds a peer with media of its own; the means to end it are installed once
    /// its tasks run.
    pub fn add_peer(
        &mut self,
        peer_id: PeerId,
        source: PeerSource,
        control_sender: NotifyingSender<OutboundControl>,
        audio_sender: NotifyingSender<Vec<u8>>,
        write_signal: WriteSignal,
    )
        requires
            old(self).wf(),
            control_sender.wf(),
            audio_sender.wf(),
        ensures
            final(self).wf(),
            final(self).hub@ == old(self).hub@.insert(
                peer_id,
                PeerSendersView {
                    source,
                    outbox: OutboxView {
                        control: control_view(&control_sender),
                        audio: audio_view(&audio_sender),
                        signal: write_signal,
                    },
                },
            ),
            final(self).hub.ids() == if old(self).has(peer_id) {
                old(self).hub.ids()
            } else {
                old(self).hub.ids().push(peer_id)
            },
            final(self).media@[peer_id].is_idle(),
            final(self).media@ == old(self).media@.insert(peer_id, final(self).media@[peer_id]),
            final(self).ws_handles@ == old(self).ws_handles@.insert(peer_id, None),
    {
        self.hub.add_peer(peer_id, source, control_sender, audio_sender, write_signal);
        self.media.add_peer(peer_id);
        self.ws_handles.insert(peer_id, None);
        assert(self.media@.dom() =~= self.hub@.dom());
        assert(self.ws_handles@.dom() =~= self.hub@.dom());
    }

    /// Installs the means to end a peer, which can be done once.
    pub fn install_ws_handle(&mut self, peer_id: PeerId, ws_handle: WsPeerHandle) -> (r: Result<
        (),
        String,
    >)
        requires
            old(self).wf(),
        ensures
            final(self).wf(),
            final(self).hub == old(self).hub,
            final(self).media == old(self).media,
            r is Ok <==> old(self).has(peer_id) && old(self).ws_handles@[peer_id] is None,
            r is Ok ==> final(self).ws_handles@ == old(self).ws_handles@.insert(
                peer_id,
                Some(ws_handle),
            ),
            r is Err ==> final(self).ws_handles@ == old(self).ws_handles@,
            r matches Err(err) ==> err@ == handle_error_text(*old(self), peer_id),
    {
        match self.ws_handles.get(peer_id) {
            None => Err(missing_peer(peer_id)),
            Some(Some(_)) => {
                let mut text = "ws handle already installed for peer ".to_string();
                text.append(decimal_of(peer_id).as_str());
                Err(text)
            },
            Some(None) => {
                self.ws_handles.insert(peer_id, Some(ws_handle));
                assert(self.ws_handles@.dom() =~= old(self).ws_handles@.dom());
                Ok(())
            },
        }
    }

    /// The outbox of a peer, into which its recorder writes.
    pub fn get(&mut self, peer_id: PeerId) -> (r: Option<&mut PeerOutbox>)
        requires
            old(self).wf(),
        ensures
            r is Some <==> old(self).has(peer_id),
            r is Some ==> {
                let outbox = r->0;
                &&& outbox.wf()
                &&& outbox@ == old(self).hub@[peer_id].outbox
                &&& final(outbox).wf() ==> final(self).wf()
                &&& final(self).hub@ == old(self).hub@.insert(
                    peer_id,
                    PeerSendersView { outbox: final(outbox)@, ..old(self).hub@[peer_id] },
                )
                &&& final(self).hub.ids() == old(self).hub.ids()
                &&& final(self).media == old(self).media
                &&& final(self).ws_handles == old(self).ws_handles
            },
            r is None ==> *final(self) == *old(self),
    {
        let ghost dom = self.hub@.dom();
        proof {
            assert forall|v: PeerSendersView| self.has(peer_id) implies #[trigger] self.hub@.insert(
                peer_id,
                v,
            ).dom() == dom by {
                assert(self.hub@.insert(peer_id, v).dom() =~= dom);
            }
        }
        self.hub.audio_sender(peer_id)
    }

    /// The player and the recorder of a peer.
    pub fn media(&mut self, peer_id: PeerId) -> (r: Option<&mut PeerMedia>)
        requires
            old(self).wf(),
        ensures
            r is Some <==> old(self).has(peer_id),
            r is Some ==> {
                let media = r->0;
                &&& media.wf()
                &&& *media == old(self).media@[peer_id]
                &&& final(media).wf() ==> final(self).wf()
                &&& final(self).media@ == old(self).media@.insert(peer_id, *final(media))
                &&& final(self).hub == old(self).hub
                &&& final(self).ws_handles == old(self).ws_handles
            },
            r is None ==> *final(self) == *old(self),
    {
        proof {
            assert(self.media@.contains_key(peer_id) == self.media@.dom().contains(peer_id));
            assert forall|m: PeerMedia| self.has(peer_id) implies #[trigger] self.media@.insert(
                peer_id,
                m,
            ).dom() == self.media@.dom() by {
                assert(self.media@.insert(peer_id, m).dom() =~= self.media@.dom());
            }
        }
        self.media.get(peer_id)
    }

    /// Removes a peer and hands over what is left of it.
    pub fn remove_peer(&mut self, peer_id: PeerId) -> (r: Option<RemovedPeer>)
        requires
            old(self).wf(),
        ensures
            final(self).wf(),
            final(self).hub@ == old(self).hub@.remove(peer_id),
            final(self).hub.ids() == without(old(self).hub.ids(), peer_id),
            final(self).media@ == old(self).media@.remove(peer_id),
            final(self).ws_handles@ == old(self).ws_handles@.remove(peer_id),
            r is Some <==> old(self).has(peer_id),
            r matches Some(removed) ==> {
                &&& removed.source == old(self).hub@[peer_id].source
                &&& removed.outbox@ == old(self).hub@[peer_id].outbox
                &&& removed.outbox.wf()
                &&& removed.media == old(self).media@[peer_id]
                &&& removed.media.wf()
                &&& removed.ws_handle == old(self).ws_handles@[peer_id]
                &&& removed.remaining_peers == final(self).hub@.len()
            },
    {
        proof {
            assert(self.media@.contains_key(peer_id) == self.media@.dom().contains(peer_id));
            assert(self.ws_handles@.contains_key(peer_id) == self.ws_handles@.dom().contains(
                peer_id,
            ));
        }
        let removal = self.hub.remove_peer(peer_id);
        let media = self.media.remove_peer(peer_id);
        let ws_handle = self.ws_handles.remove(peer_id);
        assert(self.media@.dom() =~= self.hub@.dom());
        assert(self.ws_handles@.dom() =~= self.hub@.dom());
        match (removal, media, ws_handle) {
            (Some(removal), Some(media), Some(ws_handle)) => Some(
                RemovedPeer {
                    source: removal.source,
                    media,
                    outbox: removal.outbox,
                    ws_handle,
                    remaining_peers: removal.remaining_peers,
                },
            ),
            _ => None,
        }
    }

    /// The number of peers.
    pub fn peer_count(&self) -> (r: usize)
        requires
            self.wf(),
        ensures
            r == self.hub@.len(),
            r == self.hub.ids().len(),
    {
        self.hub.peer_count()
    }

    /// How many peers this process connected to.
    pub fn outbound_peer_count(&self) -> (r: usize)
        requires
            self.wf(),
        ensures
            r == outbound_count(self.hub@, self.hub.ids()),
    {
        self.hub.outbound_peer_count()
    }

    /// Offers everyone a close.
    pub fn close_all_peers(&mut self)
        requires
            old(self).wf(),
        ensures
            final(self).wf(),
            final(self).hub@ == offered(old(self).hub@, old(self).hub.ids(), OutboundView::Close),
            final(self).hub.ids() == old(self).hub.ids(),
            final(self).media == old(self).media,
            final(self).ws_handles == old(self).ws_handles,
    {
        proof {
            lemma_offered_dom(self.hub@, self.hub.ids(), OutboundView::Close);
        }
        self.hub.close_all_peers();
    }

    /// Offers one peer a close; `false` means that it has to be closed by force.
    pub fn try_close_peer(&mut self, peer_id: PeerId) -> (r: bool)
        requires
            old(self).wf(),
        ensures
            final(self).wf(),
            r == (old(self).has(peer_id) && old(self).hub@[peer_id].outbox.control.accepts()),
            final(self).hub@ == if r {
                old(self).hub@.insert(
                    peer_id,
                    with_control(old(self).hub@[peer_id], OutboundView::Close),
                )
            } else {
                old(self).hub@
            },
            final(self).hub.ids() == old(self).hub.ids(),
            final(self).media == old(self).media,
            final(self).ws_handles == old(self).ws_handles,
    {
        let r = self.hub.try_close_peer(peer_id);
        assert(self.hub@.dom() =~= old(self).hub@.dom());
        r
    }

    /// Sends a control message to everyone that `target` stands for.
    pub fn send_control(&mut self, target: OutboundTarget, outbound: OutboundControl) -> (r: Result<
        (),
        SendControlError,
    >)
        requires
            old(self).wf(),
        ensures
            final(self).wf(),
            (final(self).hub@, delivery_of(r)) == deliver(
                old(self).hub@,
                recipients(old(self).hub@, old(self).hub.ids(), target),
                outbound@,
            ),
            final(self).hub.ids() == old(self).hub.ids(),
            final(self).media == old(self).media,
            final(self).ws_handles == old(self).ws_handles,
    {
        proof {
            lemma_deliver_dom(
                self.hub@,
                recipients(self.hub@, self.hub.ids(), target),
                outbound@,
            );
        }
        self.hub.send_control(target, outbound)
    }

    /// Goes on with a delivery that had to wait for room.
    pub fn resume_control(&mut self, pending: Vec<PeerId>, outbound: OutboundControl) -> (r: Result<
        (),
        SendControlError,
    >)
        requires
            old(self).wf(),
        ensures
            final(self).wf(),
            (final(self).hub@, delivery_of(r)) == deliver(old(self).hub@, pending@, outbound@),
            final(self).hub.ids() == old(self).hub.ids(),
            final(self).media == old(self).media,
            final(self).ws_handles == old(self).ws_handles,
    {
        proof {
            lemma_deliver_dom(self.hub@, pending@, outbound@);
        }
        self.hub.resume_control(pending, outbound)
    }

    /// Sends a message that already knows who gets it.
    pub fn dispatch_outbound(&mut self, outbound: RoutedOutbound) -> (r: Result<
        (),
        SendControlError,
    >)
        requires
            old(self).wf(),
        ensures
            final(self).wf(),
            (final(self).hub@, delivery_of(r)) == deliver(
                old(self).hub@,
                recipients(old(self).hub@, old(self).hub.ids(), outbound.target),
                outbound.message@,
            ),
            final(self).hub.ids() == old(self).hub.ids(),
            final(self).media == old(self).media,
            final(self).ws_handles == old(self).ws_handles,
    {
        self.send_control(outbound.target, outbound.message)
    }

    /// Asks the writer of a peer to throw away the audio that waits, and to
    /// answer under `ack` with how much it was.
    pub fn clear_audio_queue(&mut self, peer_id: PeerId, ack: AckId) -> (r: Result<
        (),
        ClearAudioError,
    >)
        requires
            old(self).wf(),
        ensures
            final(self).wf(),
            final(self).media == old(self).media,
            final(self).ws_handles == old(self).ws_handles,
            final(self).hub.ids() == old(self).hub.ids(),
            r is Ok <==> old(self).has(peer_id) && old(self).hub@[peer_id].outbox.control.accepts(),
            r is Ok ==> final(self).hub@ == old(self).hub@.insert(
                peer_id,
                with_control(old(self).hub@[peer_id], OutboundView::ClearAudioQueue(ack)),
            ),
            r is Err ==> final(self).hub@ == old(self).hub@,
            r == Err::<(), ClearAudioError>(ClearAudioError::NoPeer) <==> !old(self).has(peer_id),
            r == Err::<(), ClearAudioError>(ClearAudioError::Disconnected) <==> old(self).has(
                peer_id,
            ) && !old(self).hub@[peer_id].outbox.control.receiver_alive,
    {
        let ghost before = self.hub@;
        match self.get(peer_id) {
            None => Err(ClearAudioError::NoPeer),
            Some(outbox) => match outbox.send_control(OutboundControl::ClearAudioQueue(ack)) {
                Ok(()) => Ok(()),
                Err(SendError::Waits(_)) => {
                    assert(before.insert(peer_id, before[peer_id]) =~= before);
                    Err(ClearAudioError::Waits)
                },
                Err(SendError::Disconnected(_)) => {
                    assert(before.insert(peer_id, before[peer_id]) =~= before);
                    Err(ClearAudioError::Disconnected)
                },
            },
        }
    }
}

proof fn lemma_deliver_dom(
    peers: Map<PeerId, PeerSendersView>,
    ids: Seq<PeerId>,
    message: OutboundView,
)
    ensures
        deliver(peers, ids, message).0.dom() == peers.dom(),
    decreases ids.len(),
{
    if ids.len() > 0 {
        let next = peers.insert(ids[0], with_control(peers[ids[0]], message));
        lemma_deliver_dom(peers, ids.skip(1), message);
        lemma_deliver_dom(next, ids.skip(1), message);
        if peers.contains_key(ids[0]) {
            assert(next.dom() =~= peers.dom());
        }
    }
}

proof fn lemma_offered_dom(
    peers: Map<PeerId, PeerSendersView>,
    ids: Seq<PeerId>,
    message: OutboundView,
)
    ensures
        offered(peers, ids, message).dom() == peers.dom(),
    decreases ids.len(),
{
    if ids.len() > 0 {
        let next = peers.insert(ids[0], with_control(peers[ids[0]], message));
        lemma_offered_dom(peers, ids.skip(1), message);
        lemma_offered_dom(next, ids.skip(1), message);
        if peers.contains_key(ids[0]) {
            assert(next.dom() =~= peers.dom());
        }
    }
}

/// A peer that is not there is named by its number, and so is one whose means to end it are there
/// already.
pub proof fn law_peers_are_named_by_number(peers: PeerContextRegistry, peer_id: PeerId)
    ensures
        peers.has(peer_id) <==> peers.hub.peers@.contains_key(peer_id),
        !peers.has(peer_id) ==> handle_error_text(peers, peer_id) == "peer context not found: "@
            + decimal(peer_id as nat),
        peers.has(peer_id) ==> handle_error_text(peers, peer_id)
            == "ws handle already installed for peer "@ + decimal(peer_id as nat),
{
}

/// The parts of a registry know the same peers.
pub proof fn law_parts_know_the_same_peers(peers: PeerContextRegistry, peer_id: PeerId)
    requires
        peers.wf(),
    ensures
        peers.has(peer_id) <==> peers.media.peers@.contains_key(peer_id),
        peers.has(peer_id) <==> peers.ws_handles@.contains_key(peer_id),
        peers.has(peer_id) ==> peers.media@[peer_id].wf(),
{
    assert(peers.media@.contains_key(peer_id) == peers.media@.dom().contains(peer_id));
    assert(peers.ws_handles@.contains_key(peer_id) == peers.ws_handles@.dom().contains(peer_id));
}

/// A peer joins with empty hands: its queues, media at rest, and nothing to end it by; one that is
/// removed is handed over whole. The others stay as they are in both cases.
pub proof fn law_peer_joins_and_leaves_whole(
    peers: &mut PeerContextRegistry,
    peer_id: PeerId,
    source: PeerSource,
    control: NotifyingSender<OutboundControl>,
    audio: NotifyingSender<Vec<u8>>,
    signal: WriteSignal,
    other: PeerId,
    removed: Option<RemovedPeer>,
)
    ensures
        call_ensures(
            PeerContextRegistry::add_peer,
            (peers, peer_id, source, control, audio, signal),
            (),
        ) ==> {
            &&& final(peers).has(peer_id)
            &&& final(peers).hub@[peer_id].source == source
            &&& final(peers).media@[peer_id].is_idle()
            &&& final(peers).ws_handles@[peer_id] is None
            &&& other != peer_id ==> final(peers).has(other) == old(peers).has(other) && final(peers).hub@[other] == old(peers).hub@[other] && final(peers).media@[other] == old(peers).media@[other] && final(peers).ws_handles@[other] == old(peers).ws_handles@[other]
        },
        call_ensures(PeerContextRegistry::remove_peer, (peers, peer_id), removed) ==> {
            &&& !final(peers).has(peer_id)
            &&& removed is Some <==> old(peers).has(peer_id)
            &&& removed matches Some(gone) ==> gone.source == old(peers).hub@[peer_id].source
                && gone.outbox@ == old(peers).hub@[peer_id].outbox && gone.media == old(peers).media@[peer_id] && gone.ws_handle == old(peers).ws_handles@[peer_id]
                && gone.remaining_peers == final(peers).hub@.len()
            &&& other != peer_id ==> final(peers).has(other) == old(peers).has(other) && final(peers).hub@[other] == old(peers).hub@[other] && final(peers).media@[other] == old(peers).media@[other] && final(peers).ws_handles@[other] == old(peers).ws_handles@[other]
        },
{
}

/// The means to end a peer are installed once; the request to clear its audio is queued like any other
/// message, if there is room, and otherwise it is told why it was not.
pub proof fn law_peer_is_given_what_it_needs(
    peers: &mut PeerContextRegistry,
    peer_id: PeerId,
    handle: WsPeerHandle,
    ack: AckId,
    installed: Result<(), String>,
    cleared: Result<(), ClearAudioError>,
)
    ensures
        call_ensures(PeerContextRegistry::install_ws_handle, (peers, peer_id, handle), installed) ==> {
            &&& installed is Ok <==> old(peers).has(peer_id) && old(peers).ws_handles@[peer_id] is None
            &&& installed is Ok ==> final(peers).ws_handles@ == old(peers).ws_handles@.insert(
                peer_id,
                Some(handle),
            )
            &&& installed matches Err(err) ==> final(peers).ws_handles@ == old(peers).ws_handles@ && err@
                == handle_error_text(*old(peers), peer_id)
            &&& final(peers).hub == old(peers).hub && final(peers).media == old(peers).media
        },
        call_ensures(PeerContextRegistry::clear_audio_queue, (peers, peer_id, ack), cleared) ==> {
            let there = old(peers).has(peer_id);
            let queue = old(peers).hub@[peer_id].outbox.control;
            let room = queue.receiver_alive && queue.items.len() < queue.capacity;
            &&& cleared is Ok <==> there && room
            &&& cleared is Ok ==> final(peers).hub@ == deliver(
                old(peers).hub@,
                seq![peer_id],
                OutboundView::ClearAudioQueue(ack),
            ).0
            &&& cleared is Err ==> final(peers).hub@ == old(peers).hub@
            &&& !there ==> cleared == Err::<(), ClearAudioError>(ClearAudioError::NoPeer)
            &&& there && !queue.receiver_alive ==> cleared == Err::<(), ClearAudioError>(
                ClearAudioError::Disconnected,
            )
            &&& there && queue.receiver_alive && !room ==> cleared == Err::<(), ClearAudioError>(
                ClearAudioError::Waits,
            )
        },
{
    let before = old(peers).hub@;
    let message = OutboundView::ClearAudioQueue(ack);
    let next = before.insert(peer_id, with_control(before[peer_id], message));
    assert(seq![peer_id].skip(1) =~= Seq::empty());
    assert(seq![peer_id][0] == peer_id);
    assert(deliver(next, Seq::empty(), message).0 == next);
    if let Err(err) = cleared {
        assert(err == ClearAudioError::NoPeer || err == ClearAudioError::Waits || err
            == ClearAudioError::Disconnected);
    }
}

/// A registry delivers, offers and counts as its hub does, and touches neither media nor handles by
/// that.
pub proof fn law_registry_delivers(
    peers: &mut PeerContextRegistry,
    target: OutboundTarget,
    pending: Vec<PeerId>,
    message: OutboundControl,
    routed: RoutedOutbound,
    peer_id: PeerId,
    r: Result<(), SendControlError>,
    holds: bool,
    now: &PeerContextRegistry,
    n: usize,
    text: String,
)
    ensures
        call_ensures(PeerContextRegistry::send_control, (peers, target, message), r) ==> (
            final(peers).hub@,
            delivery_of(r),
        ) == deliver(
            old(peers).hub@,
            recipients(old(peers).hub@, old(peers).hub.ids(), target),
            message@,
        ) && final(peers).media == old(peers).media && final(peers).ws_handles == old(peers).ws_handles,
        call_ensures(PeerContextRegistry::resume_control, (peers, pending, message), r) ==> (
            final(peers).hub@,
            delivery_of(r),
        ) == deliver(old(peers).hub@, pending@, message@) && final(peers).media == old(peers).media,
        call_ensures(PeerContextRegistry::dispatch_outbound, (peers, routed), r) ==> (
            final(peers).hub@,
            delivery_of(r),
        ) == deliver(
            old(peers).hub@,
            recipients(old(peers).hub@, old(peers).hub.ids(), routed.target),
            routed.message@,
        ) && final(peers).media == old(peers).media,
        call_ensures(PeerContextRegistry::close_all_peers, (peers,), ()) ==> final(peers).hub@ == offered(
            old(peers).hub@,
            old(peers).hub.ids(),
            OutboundView::Close,
        ) && final(peers).media == old(peers).media,
        call_ensures(PeerContextRegistry::try_close_peer, (peers, peer_id), holds) ==> (holds <==> old(peers).has(peer_id) && old(peers).hub@[peer_id].outbox.control.accepts()) && (!holds ==> final(peers).hub@ == old(peers).hub@) && (holds ==> final(peers).hub@ == deliver(
            old(peers).hub@,
            seq![peer_id],
            OutboundView::Close,
        ).0),
        call_ensures(PeerContextRegistry::peer_count, (now,), n) ==> n == now.hub.ids().len(),
        call_ensures(PeerContextRegistry::outbound_peer_count, (now,), n) ==> n == outbound_count(
            now.hub@,
            now.hub.ids(),
        ),
        call_ensures(missing_peer, (peer_id,), text) ==> text@ == "peer context not found: "@ + decimal(
            peer_id as nat,
        ),
{
    let before = old(peers).hub@;
    let next = before.insert(peer_id, with_control(before[peer_id], OutboundView::Close));
    assert(seq![peer_id].skip(1) =~= Seq::empty());
    assert(seq![peer_id][0] == peer_id);
    assert(deliver(next, Seq::empty(), OutboundView::Close).0 == next);
}

/// Whoever reaches into a peer changes that peer alone: its queues, or its media, become what is made
/// of them, and everything else stays.
pub proof fn law_reaching_into_a_peer(
    peers: &mut PeerContextRegistry,
    peer_id: PeerId,
    outbox: Option<&mut PeerOutbox>,
    media: Option<&mut PeerMedia>,
)
    ensures
        call_ensures(PeerContextRegistry::get, (peers, peer_id), outbox) ==> {
            &&& outbox is Some <==> old(peers).has(peer_id)
            &&& outbox is Some ==> outbox->0@ == old(peers).hub@[peer_id].outbox && final(peers).hub@[peer_id].outbox == final(outbox->0)@ && final(peers).media == old(peers).media
            &&& outbox is None ==> *final(peers) == *old(peers)
        },
        call_ensures(PeerContextRegistry::media, (peers, peer_id), media) ==> {
            &&& media is Some <==> old(peers).has(peer_id)
            &&& media is Some ==> *media->0 == old(peers).media@[peer_id] && final(peers).media@[peer_id]
                == *final(media->0) && final(peers).hub == old(peers).hub
            &&& media is None ==> *final(peers) == *old(peers)
        },
{
}

} // verus!
