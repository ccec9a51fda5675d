//! Every way out of a session: which peers are there and what waits for them.

use crate::app::peer_table::{
    index_of, lemma_entry_in_map, lemma_ids_are_keys, lemma_map_of_update, map_of, without, PeerTable,
};
use crate::transport::control::{
    NotifyingSender, OutboundControl, OutboundTarget, OutboundView, PeerId, PeerSource,
    RoutedOutbound, WriteSignal,
};
use crate::transport::outbox::{audio_view, control_view, OutboxView, PeerOutbox};
use crate::transport::queue::SendError;
use vstd::prelude::*;

verus! {

/// Where a peer came from and what waits for it.
pub struct PeerSenders {
    pub source: PeerSource,
    pub outbox: PeerOutbox,
}

/// A [`PeerSenders`] as a value.
pub struct PeerSendersView {
    pub source: PeerSource,
    pub outbox: OutboxView,
}

impl View for PeerSenders {
    type V = PeerSendersView;

    open spec fn view(&self) -> PeerSendersView {
        PeerSendersView { source: self.source, outbox: self.outbox@ }
    }
}

/// What is left of a peer that was removed.
pub struct PeerRemoval {
    pub source: PeerSource,
    /// How many peers the session still has.
    pub remaining_peers: usize,
    /// What was still waiting for the peer.
    pub outbox: PeerOutbox,
}

/// Why a control message did not reach everyone it was meant for.
#[derive(Debug, PartialEq, Eq)]
pub enum SendControlError {
    /// The writer of this peer is gone. Peers that come after it got nothing.
    Disconnected { peer_id: PeerId },
    /// The queue of the first of these peers is full. The sender waits for room
    /// and goes on with [`WsPeerHub::resume_control`]; everyone before them has
    /// the message.
    Waits { pending: Vec<PeerId> },
}

impl SendControlError {
    /// The text under which the failure is logged.
    pub fn message(&self) -> (r: String)
        ensures
            r@ == self.message_text(),
    {
        match self {
            SendControlError::Disconnected { peer_id: _ } => "sending on a closed channel".to_string(),
            SendControlError::Waits { pending: _ } => "sending on a full channel".to_string(),
        }
    }

    /// See [`SendControlError::message`].
    pub open spec fn message_text(&self) -> Seq<char> {
        match self {
            SendControlError::Disconnected { peer_id: _ } => "sending on a closed channel"@,
            SendControlError::Waits { pending: _ } => "sending on a full channel"@,
        }
    }
}

/// How the delivery of a message to a list of peers ended.
pub enum Delivery {
    Done,
    Disconnected(PeerId),
    Waits(Seq<PeerId>),
}

/// How the result of a delivery reads as a value.
pub open spec fn delivery_of(r: Result<(), SendControlError>) -> Delivery {
    match r {
        Ok(()) => Delivery::Done,
        Err(SendControlError::Disconnected { peer_id }) => Delivery::Disconnected(peer_id),
        Err(SendControlError::Waits { pending }) => Delivery::Waits(pending@),
    }
}

/// The peer after `message` was queued for it.
pub open spec fn with_control(peer: PeerSendersView, message: OutboundView) -> PeerSendersView {
    PeerSendersView { outbox: peer.outbox.with_control(message), ..peer }
}

/// Delivers `message` to the listed peers one after the other. A peer that is
/// not there is passed over; the first one whose writer is gone, or whose queue
/// is full, ends the delivery.
pub open spec fn deliver(
    peers: Map<PeerId, PeerSendersView>,
    ids: Seq<PeerId>,
    message: OutboundView,
) -> (Map<PeerId, PeerSendersView>, Delivery)
    decreases ids.len(),
{
    if ids.len() == 0 {
        (peers, Delivery::Done)
    } else if !peers.contains_key(ids[0]) {
        deliver(peers, ids.skip(1), message)
    } else if !peers[ids[0]].outbox.control.receiver_alive {
        (peers, Delivery::Disconnected(ids[0]))
    } else if !peers[ids[0]].outbox.control.accepts() {
        (peers, Delivery::Waits(ids))
    } else {
        deliver(peers.insert(ids[0], with_control(peers[ids[0]], message)), ids.skip(1), message)
    }
}

/// The peers that a target stands for, in the order in which they are served.
pub open spec fn recipients(
    peers: Map<PeerId, PeerSendersView>,
    order: Seq<PeerId>,
    target: OutboundTarget,
) -> Seq<PeerId> {
    match target {
        OutboundTarget::Broadcast => order,
        OutboundTarget::ToPeer(id) => if peers.contains_key(id) {
            seq![id]
        } else {
            Seq::empty()
        },
    }
}

/// The map after every peer whose queue has room was sent `message`.
pub open spec fn offered(
    peers: Map<PeerId, PeerSendersView>,
    ids: Seq<PeerId>,
    message: OutboundView,
) -> Map<PeerId, PeerSendersView>
    decreases ids.len(),
{
    if ids.len() == 0 {
        peers
    } else if peers.contains_key(ids[0]) && peers[ids[0]].outbox.control.accepts() {
        offered(peers.insert(ids[0], with_control(peers[ids[0]], message)), ids.skip(1), message)
    } else {
        offered(peers, ids.skip(1), message)
    }
}

/// The peers of one session and their outgoing queues.
pub struct WsPeerHub {
    pub peers: PeerTable<PeerSenders>,
}

impl View for WsPeerHub {
    type V = Map<PeerId, PeerSendersView>;

    open spec fn view(&self) -> Map<PeerId, PeerSendersView> {
        self.peers@.map_values(|peer: PeerSenders| peer@)
    }
}

impl WsPeerHub {
    /// Each peer is there once and its queues are within their bounds.
    pub open spec fn wf(&self) -> bool {
        &&& self.peers.wf()
        &&& forall|i: int|
            0 <= i < self.peers.entries@.len() ==> (#[trigger] self.peers.entries@[i]).1.outbox.wf()
    }

    /// The peers in the order in which they were added.
    pub open spec fn ids(&self) -> Seq<PeerId> {
        self.peers.ids()
    }

    /// A hub without peers.
    pub fn new() -> (r: Self)
        ensures
            r.wf(),
            r@ == Map::<PeerId, PeerSendersView>::empty(),
            r.ids() == Seq::<PeerId>::empty(),
    {
        let r = WsPeerHub { peers: PeerTable::new() };
        assert(r@ =~= Map::empty());
        assert(r.peers.entries@.len() == 0) by {
            assert(r.peers.ids().len() == 0);
        }
        r
    }

    /// Adds a peer. From now on it takes part in broadcasts, can be sent to, and
    /// can be sent audio. One that was there under this number is replaced.
    pub fn add_peer(
        &mut self,
        peer_id: PeerId,
        source: PeerSource,
        control_sender: NotifyingSender<OutboundControl>,
        audio_sender: NotifyingSender<Vec<u8>>,
        write_signal: WriteSignal,
    )
        requires
            old(self).wf(),
            control_sender.wf(),
            audio_sender.wf(),
        ensures
            final(self).wf(),
            final(self)@ == old(self)@.insert(
                peer_id,
                PeerSendersView {
                    source,
                    outbox: OutboxView {
                        control: control_view(&control_sender),
                        audio: audio_view(&audio_sender),
                        signal: write_signal,
                    },
                },
            ),
            final(self).ids() == if old(self)@.contains_key(peer_id) {
                old(self).ids()
            } else {
                old(self).ids().push(peer_id)
            },
    {
        let peer = PeerSenders {
            source,
            outbox: PeerOutbox { control_sender, audio_sender, write_signal },
        };
        proof {
            self.lemma_wf_by_key();
        }
        self.peers.insert(peer_id, peer);
        assert(self@ =~= old(self)@.insert(peer_id, peer@));
        proof {
            self.lemma_wf_from_keys();
        }
    }

    proof fn lemma_wf_by_key(&self)
        requires
            self.wf(),
        ensures
            forall|id: PeerId| #[trigger] self.peers@.contains_key(id) ==> self.peers@[id].outbox.wf(),
    {
        assert forall|id: PeerId| #[trigger] self.peers@.contains_key(id) implies
            self.peers@[id].outbox.wf() by {
            let i = index_of(self.peers.entries@, id);
            assert(self.peers.entries@[i].1.outbox.wf());
        }
    }

    proof fn lemma_wf_from_keys(&self)
        requires
            self.peers.wf(),
            forall|id: PeerId| #[trigger] self.peers@.contains_key(id) ==> self.peers@[id].outbox.wf(),
        ensures
            self.wf(),
    {
        assert forall|i: int| 0 <= i < self.peers.entries@.len() implies (
        #[trigger] self.peers.entries@[i]).1.outbox.wf() by {
            lemma_entry_in_map(self.peers.entries@, i);
            assert(self.peers@.contains_key(self.peers.entries@[i].0));
        }
    }

    /// Removes a peer and says what is left of it and of the session.
    pub fn remove_peer(&mut self, peer_id: PeerId) -> (r: Option<PeerRemoval>)
        requires
            old(self).wf(),
        ensures
            final(self).wf(),
            final(self)@ == old(self)@.remove(peer_id),
            r is Some <==> old(self)@.contains_key(peer_id),
            r matches Some(removal) ==> {
                &&& removal.source == old(self)@[peer_id].source
                &&& removal.outbox@ == old(self)@[peer_id].outbox
                &&& removal.outbox.wf()
                &&& removal.remaining_peers == final(self)@.len()
            },
            final(self).ids() == without(old(self).ids(), peer_id),
    {
        proof {
            self.lemma_wf_by_key();
        }
        let taken = self.peers.remove(peer_id);
        assert(self@ =~= old(self)@.remove(peer_id));
        proof {
            self.lemma_wf_from_keys();
        }
        match taken {
            Some(peer) => {
                let remaining_peers = self.peer_count();
                Some(PeerRemoval { source: peer.source, remaining_peers, outbox: peer.outbox })
            },
            None => None,
        }
    }

    /// Offers everyone a close; whoever has no room for it is closed by force
    /// later.
    pub fn close_all_peers(&mut self)
        requires
            old(self).wf(),
        ensures
            final(self).wf(),
            final(self)@ == offered(old(self)@, old(self).ids(), OutboundView::Close),
            final(self).ids() == old(self).ids(),
    {
        let ids = self.peers.peer_ids();
        let mut i: usize = 0;
        assert(ids@.skip(0) =~= ids@);
        while i < ids.len()
            invariant
                i <= ids@.len(),
                ids@ == old(self).ids(),
                self.wf(),
                self.ids() == old(self).ids(),
                offered(old(self)@, old(self).ids(), OutboundView::Close) == offered(
                    self@,
                    ids@.skip(i as int),
                    OutboundView::Close,
                ),
            decreases ids@.len() - i,
        {
            let ghost rest = ids@.skip(i as int);
            assert(rest[0] == ids@[i as int]);
            assert(rest.skip(1) =~= ids@.skip(i + 1));
            let _ = self.try_close_peer(ids[i]);
            i += 1;
        }
    }

    /// Offers one peer a close. `false` means that it is gone or has no room for
    /// it, and has to be closed by force.
    pub fn try_close_peer(&mut self, peer_id: PeerId) -> (r: bool)
        requires
            old(self).wf(),
        ensures
            final(self).wf(),
            final(self).ids() == old(self).ids(),
            r == (old(self)@.contains_key(peer_id)
                && old(self)@[peer_id].outbox.control.accepts()),
            final(self)@ == if r {
                old(self)@.insert(peer_id, with_control(old(self)@[peer_id], OutboundView::Close))
            } else {
                old(self)@
            },
    {
        match self.audio_sender(peer_id) {
            Some(outbox) => match outbox.try_send_control(OutboundControl::Close) {
                Ok(()) => true,
                Err(_) => {
                    assert(old(self)@.insert(peer_id, old(self)@[peer_id]) =~= old(self)@);
                    false
                },
            },
            None => false,
        }
    }

    /// The number of peers.
    pub fn peer_count(&self) -> (r: usize)
        requires
            self.wf(),
        ensures
            r == self@.len(),
            r == self.ids().len(),
            self@.dom().finite(),
    {
        assert(self@.dom() =~= self.peers@.dom());
        self.peers.len()
    }

    /// How many peers this process connected to.
    pub fn outbound_peer_count(&self) -> (r: usize)
        requires
            self.wf(),
        ensures
            r == outbound_count(self@, self.ids()),
    {
        let mut count: usize = 0;
        let mut i: usize = 0;
        while i < self.peers.entries.len()
            invariant
                self.wf(),
                i <= self.peers.entries@.len(),
                count <= i,
                count == outbound_count(self@, self.ids().take(i as int)),
            decreases self.peers.entries@.len() - i,
        {
            proof {
                lemma_entry_in_map(self.peers.entries@, i as int);
                assert(self.ids().take(i + 1).drop_last() =~= self.ids().take(i as int));
                assert(self.ids().take(i + 1).last() == self.peers.entries@[i as int].0);
            }
            if self.peers.entries[i].1.source.is_outbound() {
                count += 1;
            }
            i += 1;
        }
        assert(self.ids().take(i as int) =~= self.ids());
        count
    }

    /// The outbox of a peer, into which its recorder writes.
    pub fn audio_sender(&mut self, peer_id: PeerId) -> (r: Option<&mut PeerOutbox>)
        requires
            old(self).wf(),
        ensures
            r is Some <==> old(self)@.contains_key(peer_id),
            r is Some ==> {
                let outbox = r->0;
                &&& outbox.wf()
                &&& outbox@ == old(self)@[peer_id].outbox
                &&& final(outbox).wf() ==> final(self).wf()
                &&& final(self)@ == old(self)@.insert(
                    peer_id,
                    PeerSendersView { outbox: final(outbox)@, ..old(self)@[peer_id] },
                )
                &&& final(self).ids() == old(self).ids()
            },
            r is None ==> *final(self) == *old(self),
    {
        match self.peers.position(peer_id) {
            Some(i) => {
                let ghost before = *self;
                let peer = self.peers.value_mut(i);
                proof {
                    let after = before.peers.entries@.update(i as int, (peer_id, *final(peer)));
                    lemma_map_of_update(before.peers.entries@, i as int, *final(peer));
                    assert(map_of(after).map_values(
                        |p: PeerSenders| p@,
                    ) =~= before@.insert(peer_id, (*final(peer))@));
                }
                Some(&mut peer.outbox)
            },
            None => None,
        }
    }

    /// Sends a control message to everyone that `target` stands for. A peer that
    /// is already gone is no error: it may have left before its answer was ready.
    pub fn send_control(&mut self, target: OutboundTarget, outbound: OutboundControl) -> (r: Result<
        (),
        SendControlError,
    >)
        requires
            old(self).wf(),
        ensures
            final(self).wf(),
            final(self).ids() == old(self).ids(),
            (final(self)@, delivery_of(r)) == deliver(
                old(self)@,
                recipients(old(self)@, old(self).ids(), target),
                outbound@,
            ),
    {
        match target {
            OutboundTarget::Broadcast => {
                let pending = self.peers.peer_ids();
                self.resume_control(pending, outbound)
            },
            OutboundTarget::ToPeer(peer_id) => {
                let mut pending: Vec<PeerId> = Vec::new();
                if self.peers.position(peer_id).is_some() {
                    pending.push(peer_id);
                }
                assert(pending@ =~= recipients(self@, self.ids(), target));
                self.resume_control(pending, outbound)
            },
        }
    }

    /// Goes on with a delivery that had to wait for room.
    pub fn resume_control(&mut self, pending: Vec<PeerId>, outbound: OutboundControl) -> (r: Result<
        (),
        SendControlError,
    >)
        requires
            old(self).wf(),
        ensures
            final(self).wf(),
            final(self).ids() == old(self).ids(),
            (final(self)@, delivery_of(r)) == deliver(old(self)@, pending@, outbound@),
    {
        let mut i: usize = 0;
        assert(pending@.skip(0) =~= pending@);
        while i < pending.len()
            invariant
                i <= pending@.len(),
                self.wf(),
                self.ids() == old(self).ids(),
                deliver(old(self)@, pending@, outbound@) == deliver(
                    self@,
                    pending@.skip(i as int),
                    outbound@,
                ),
            decreases pending@.len() - i,
        {
            let ghost rest = pending@.skip(i as int);
            let ghost peers = self@;
            assert(rest[0] == pending@[i as int]);
            assert(rest.skip(1) =~= pending@.skip(i + 1));
            let peer_id = pending[i];
            match self.audio_sender(peer_id) {
                Some(outbox) => {
                    let sent = outbox.send_control(outbound.clone());
                    match sent {
                        Ok(()) => {
                            assert(self@ == peers.insert(
                                peer_id,
                                with_control(peers[peer_id], outbound@),
                            ));
                        },
                        Err(SendError::Disconnected(_)) => {
                            assert(self@ =~= peers);
                            return Err(SendControlError::Disconnected { peer_id });
                        },
                        Err(SendError::Waits(_)) => {
                            assert(self@ =~= peers);
                            let mut left: Vec<PeerId> = Vec::new();
                            let mut j: usize = i;
                            while j < pending.len()
                                invariant
                                    i <= j <= pending@.len(),
                                    left@ == pending@.subrange(i as int, j as int),
                                decreases pending@.len() - j,
                            {
                                left.push(pending[j]);
                                j += 1;
                                assert(left@ =~= pending@.subrange(i as int, j as int));
                            }
                            assert(left@ =~= rest);
                            return Err(SendControlError::Waits { pending: left });
                        },
                    }
                },
                None => {},
            }
            i += 1;
        }
        Ok(())
    }

    /// Sends a message that already knows who gets it.
    pub fn dispatch_outbound(&mut self, outbound: RoutedOutbound) -> (r: Result<
        (),
        SendControlError,
    >)
        requires
            old(self).wf(),
        ensures
            final(self).wf(),
            final(self).ids() == old(self).ids(),
            (final(self)@, delivery_of(r)) == deliver(
                old(self)@,
                recipients(old(self)@, old(self).ids(), outbound.target),
                outbound.message@,
            ),
    {
        self.send_control(outbound.target, outbound.message)
    }
}

/// How many of the listed peers this process connected to.
pub open spec fn outbound_count(peers: Map<PeerId, PeerSendersView>, ids: Seq<PeerId>) -> nat
    decreases ids.len(),
{
    if ids.len() == 0 {
        0
    } else {
        outbound_count(peers, ids.drop_last()) + if peers[ids.last()].source is OutboundConnect {
            1nat
        } else {
            0nat
        }
    }
}

proof fn lemma_deliver_to_accepting(
    peers: Map<PeerId, PeerSendersView>,
    ids: Seq<PeerId>,
    message: OutboundView,
)
    requires
        ids.no_duplicates(),
        forall|id: PeerId| #[trigger]
            ids.contains(id) ==> peers.contains_key(id) && peers[id].outbox.control.accepts(),
    ensures
        deliver(peers, ids, message).1 == Delivery::Done,
        deliver(peers, ids, message).0.dom() == peers.dom(),
        forall|id: PeerId| #[trigger]
            peers.contains_key(id) ==> deliver(peers, ids, message).0[id] == if ids.contains(id) {
                with_control(peers[id], message)
            } else {
                peers[id]
            },
    decreases ids.len(),
{
    if ids.len() > 0 {
        let id0 = ids[0];
        assert(ids.contains(id0));
        let next = peers.insert(id0, with_control(peers[id0], message));
        let rest = ids.skip(1);
        assert forall|id: PeerId| ids.contains(id) <==> (id == id0 || #[trigger] rest.contains(id)) by {
            if ids.contains(id) {
                let i = choose|i: int| 0 <= i < ids.len() && ids[i] == id;
                if i > 0 {
                    assert(rest[i - 1] == id);
                }
            }
            if rest.contains(id) {
                let i = choose|i: int| 0 <= i < rest.len() && rest[i] == id;
                assert(ids[i + 1] == id);
            }
        }
        assert(!rest.contains(id0)) by {
            if rest.contains(id0) {
                let i = choose|i: int| 0 <= i < rest.len() && rest[i] == id0;
                assert(ids[i + 1] == ids[0]);
            }
        }
        assert forall|id: PeerId| #[trigger] rest.contains(id) implies next.contains_key(id)
            && next[id].outbox.control.accepts() by {
            assert(ids.contains(id));
        }
        lemma_deliver_to_accepting(next, rest, message);
        assert(next.dom() =~= peers.dom());
        assert forall|id: PeerId| #[trigger] peers.contains_key(id) implies deliver(
            peers,
            ids,
            message,
        ).0[id] == if ids.contains(id) {
            with_control(peers[id], message)
        } else {
            peers[id]
        } by {
            assert(next.contains_key(id));
            assert(ids.contains(id) <==> (id == id0 || rest.contains(id)));
        }
    }
}

/// A broadcast reaches every peer exactly once, as long as each of them has room
/// and a writer; nobody is added and nobody is lost.
pub proof fn law_broadcast_reaches_every_peer(hub: WsPeerHub, message: OutboundView)
    requires
        hub.wf(),
        forall|id: PeerId| #[trigger]
            hub@.contains_key(id) ==> hub@[id].outbox.control.accepts(),
    ensures
        ({
            let (after, outcome) = deliver(
                hub@,
                recipients(hub@, hub.ids(), OutboundTarget::Broadcast),
                message,
            );
            &&& outcome == Delivery::Done
            &&& after.dom() == hub@.dom()
            &&& forall|id: PeerId| #[trigger]
                hub@.contains_key(id) ==> after[id] == with_control(hub@[id], message)
        }),
{
    lemma_ids_are_keys(hub.peers.entries@);
    assert forall|id: PeerId| #[trigger] hub.ids().contains(id) <==> hub@.contains_key(id) by {
        assert(hub.ids().contains(id) <==> hub.peers@.contains_key(id));
    }
    lemma_deliver_to_accepting(hub@, hub.ids(), message);
}

/// A message to one peer changes nothing for anyone else, whatever becomes of
/// it.
pub proof fn law_message_to_one_peer_leaves_the_others(
    hub: WsPeerHub,
    peer_id: PeerId,
    message: OutboundView,
)
    ensures
        ({
            let (after, outcome) = deliver(
                hub@,
                recipients(hub@, hub.ids(), OutboundTarget::ToPeer(peer_id)),
                message,
            );
            &&& after.dom() == hub@.dom()
            &&& forall|id: PeerId| #[trigger]
                hub@.contains_key(id) && id != peer_id ==> after[id] == hub@[id]
            &&& hub@.contains_key(peer_id) && hub@[peer_id].outbox.control.accepts()
                ==> after[peer_id] == with_control(hub@[peer_id], message) && outcome
                == Delivery::Done
        }),
{
    let ids = recipients(hub@, hub.ids(), OutboundTarget::ToPeer(peer_id));
    if hub@.contains_key(peer_id) {
        assert(ids[0] == peer_id);
        assert(ids.skip(1) =~= Seq::empty());
        let next = hub@.insert(peer_id, with_control(hub@[peer_id], message));
        assert(deliver(next, ids.skip(1), message) == (next, Delivery::Done));
        assert(next.dom() =~= hub@.dom());
    }
}

/// A message to a peer that is gone is dropped without an error.
pub proof fn law_message_to_missing_peer_is_dropped(
    hub: WsPeerHub,
    peer_id: PeerId,
    message: OutboundView,
)
    requires
        !hub@.contains_key(peer_id),
    ensures
        deliver(hub@, recipients(hub@, hub.ids(), OutboundTarget::ToPeer(peer_id)), message) == (
            hub@,
            Delivery::Done,
        ),
{
}

/// One peer gets the message exactly if it is there, its writer lives and its queue has room; a dead
/// writer or a full queue ends the delivery at this peer, and a missing one is no obstacle.
pub proof fn law_delivery_to_one_peer(
    peers: Map<PeerId, PeerSendersView>,
    id: PeerId,
    message: OutboundView,
)
    ensures
        deliver(peers, Seq::empty(), message) == (peers, Delivery::Done),
        !peers.contains_key(id) ==> deliver(peers, seq![id], message) == (peers, Delivery::Done),
        peers.contains_key(id) ==> {
            let queue = peers[id].outbox.control;
            let (after, outcome) = deliver(peers, seq![id], message);
            &&& !queue.receiver_alive ==> after == peers && outcome == Delivery::Disconnected(id)
            &&& queue.receiver_alive && queue.items.len() >= queue.capacity ==> after == peers && (
            outcome matches Delivery::Waits(left) && left == seq![id])
            &&& queue.receiver_alive && queue.items.len() < queue.capacity ==> {
                &&& outcome == Delivery::Done
                &&& after == peers.insert(id, after[id])
                &&& after[id].source == peers[id].source
                &&& after[id].outbox.audio == peers[id].outbox.audio
                &&& after[id].outbox.control == queue.push(message)
                &&& after[id].outbox.signal.is_raised()
            }
        },
{
    assert(seq![id].skip(1) =~= Seq::empty());
    assert(seq![id][0] == id);
    let next = peers.insert(id, with_control(peers[id], message));
    assert(deliver(next, Seq::empty(), message) == (next, Delivery::Done));
    assert(deliver(peers, Seq::empty(), message) == (peers, Delivery::Done));
    assert(peers.insert(id, next[id]) =~= next);
}

/// Deliveries follow one another: what comes after a delivery that is done goes on where it ended,
/// and one that had to stop leaves everyone behind it without the message.
pub proof fn law_deliveries_follow_one_another(
    peers: Map<PeerId, PeerSendersView>,
    first: Seq<PeerId>,
    rest: Seq<PeerId>,
    message: OutboundView,
)
    ensures
        ({
            let (between, outcome) = deliver(peers, first, message);
            let whole = deliver(peers, first + rest, message);
            match outcome {
                Delivery::Done => whole == deliver(between, rest, message),
                Delivery::Disconnected(id) => whole.0 == between && whole.1
                    == Delivery::Disconnected(id),
                Delivery::Waits(left) => whole.0 == between && whole.1 == Delivery::Waits(left + rest),
            }
        }),
    decreases first.len(),
{
    if first.len() == 0 {
        assert(first + rest =~= rest);
    } else {
        assert((first + rest)[0] == first[0]);
        assert((first + rest).skip(1) =~= first.skip(1) + rest);
        law_deliveries_follow_one_another(peers, first.skip(1), rest, message);
        law_deliveries_follow_one_another(
            peers.insert(first[0], with_control(peers[first[0]], message)),
            first.skip(1),
            rest,
            message,
        );
    }
}

/// An offer passes over nobody: each listed peer with room gets the message, and a peer without room
/// keeps nobody else from it.
pub proof fn law_offers_pass_over_nobody(
    peers: Map<PeerId, PeerSendersView>,
    first: Seq<PeerId>,
    rest: Seq<PeerId>,
    id: PeerId,
    message: OutboundView,
)
    ensures
        offered(peers, Seq::empty(), message) == peers,
        offered(peers, first + rest, message) == offered(
            offered(peers, first, message),
            rest,
            message,
        ),
        !peers.contains_key(id) ==> offered(peers, seq![id], message) == peers,
        peers.contains_key(id) ==> offered(peers, seq![id], message) == {
            let queue = peers[id].outbox.control;
            if queue.receiver_alive && queue.items.len() < queue.capacity {
                deliver(peers, seq![id], message).0
            } else {
                peers
            }
        },
    decreases first.len(),
{
    law_delivery_to_one_peer(peers, id, message);
    assert(seq![id].skip(1) =~= Seq::empty());
    assert(seq![id][0] == id);
    let next = peers.insert(id, with_control(peers[id], message));
    assert(offered(next, Seq::empty(), message) == next);
    assert(deliver(next, Seq::empty(), message) == (next, Delivery::Done));
    assert(offered(peers, Seq::empty(), message) == peers);
    if first.len() == 0 {
        assert(first + rest =~= rest);
    } else {
        assert((first + rest)[0] == first[0]);
        assert((first + rest).skip(1) =~= first.skip(1) + rest);
        law_offers_pass_over_nobody(peers, first.skip(1), rest, id, message);
        law_offers_pass_over_nobody(
            peers.insert(first[0], with_control(peers[first[0]], message)),
            first.skip(1),
            rest,
            id,
            message,
        );
    }
}

/// A broadcast is for everyone, in the order in which they came; a message to one peer is for that
/// peer alone, if it is there.
pub proof fn law_targets_name_their_peers(
    peers: Map<PeerId, PeerSendersView>,
    order: Seq<PeerId>,
    id: PeerId,
)
    ensures
        recipients(peers, order, OutboundTarget::Broadcast) == order,
        peers.contains_key(id) ==> recipients(peers, order, OutboundTarget::ToPeer(id)) == seq![id],
        !peers.contains_key(id) ==> recipients(peers, order, OutboundTarget::ToPeer(id)).len() == 0,
{
}

/// Each outbound peer counts once, and no other peer does.
pub proof fn law_outbound_peers_are_counted(
    peers: Map<PeerId, PeerSendersView>,
    first: Seq<PeerId>,
    rest: Seq<PeerId>,
    id: PeerId,
)
    ensures
        outbound_count(peers, Seq::empty()) == 0,
        outbound_count(peers, seq![id]) == if peers[id].source is OutboundConnect {
            1nat
        } else {
            0nat
        },
        outbound_count(peers, first + rest) == outbound_count(peers, first) + outbound_count(
            peers,
            rest,
        ),
    decreases rest.len(),
{
    assert(outbound_count(peers, Seq::empty()) == 0);
    assert(seq![id].drop_last() =~= Seq::empty());
    assert(seq![id].last() == id);
    if rest.len() == 0 {
        assert(first + rest =~= first);
    } else {
        assert((first + rest).last() == rest.last());
        assert((first + rest).drop_last() =~= first + rest.drop_last());
        law_outbound_peers_are_counted(peers, first, rest.drop_last(), id);
    }
}

/// The contents of a hub are those of its peers, and a delivery reads as what it was.
pub proof fn law_contents_of_a_hub(hub: WsPeerHub, id: PeerId, pending: Vec<PeerId>)
    ensures
        hub@.contains_key(id) <==> hub.peers@.contains_key(id),
        hub@.contains_key(id) ==> hub@[id].source == hub.peers@[id].source && hub@[id].outbox
            == hub.peers@[id].outbox@,
        hub.ids() == hub.peers.ids(),
        delivery_of(Ok(())) == Delivery::Done,
        delivery_of(Err(SendControlError::Disconnected { peer_id: id })) == Delivery::Disconnected(id),
        delivery_of(Err(SendControlError::Waits { pending })) == Delivery::Waits(pending@),
{
}

/// A peer that is added comes last, with the queues that it was given; the others stay as they are. A
/// peer that is removed is handed over with what waits for it, and the number of those that stay is
/// told.
pub proof fn law_peers_are_added_and_removed(
    hub: &mut WsPeerHub,
    peer_id: PeerId,
    source: PeerSource,
    control: NotifyingSender<OutboundControl>,
    audio: NotifyingSender<Vec<u8>>,
    signal: WriteSignal,
    other: PeerId,
    removal: Option<PeerRemoval>,
    fresh: WsPeerHub,
)
    ensures
        call_ensures(WsPeerHub::add_peer, (hub, peer_id, source, control, audio, signal), ()) ==> {
            &&& final(hub)@.contains_key(peer_id)
            &&& final(hub)@[peer_id].source == source
            &&& final(hub)@[peer_id].outbox == (PeerOutbox {
                control_sender: control,
                audio_sender: audio,
                write_signal: signal,
            })@
            &&& other != peer_id ==> final(hub)@.contains_key(other) == old(hub)@.contains_key(other)
                && final(hub)@[other] == old(hub)@[other]
            &&& !old(hub)@.contains_key(peer_id) ==> final(hub).ids() == old(hub).ids() + seq![peer_id]
            &&& old(hub)@.contains_key(peer_id) ==> final(hub).ids() == old(hub).ids()
        },
        call_ensures(WsPeerHub::remove_peer, (hub, peer_id), removal) ==> {
            &&& !final(hub)@.contains_key(peer_id)
            &&& other != peer_id ==> final(hub)@.contains_key(other) == old(hub)@.contains_key(other)
                && final(hub)@[other] == old(hub)@[other]
            &&& removal is Some <==> old(hub)@.contains_key(peer_id)
            &&& removal matches Some(gone) ==> gone.source == old(hub)@[peer_id].source
                && gone.outbox@ == old(hub)@[peer_id].outbox && gone.remaining_peers == final(hub)@.len()
            &&& final(hub).ids() == without(old(hub).ids(), peer_id)
        },
        call_ensures(WsPeerHub::new, (), fresh) ==> !fresh@.contains_key(other) && fresh.ids().len() == 0,
{
    assert(old(hub).ids().push(peer_id) =~= old(hub).ids() + seq![peer_id]);
}

/// Messages are delivered, and closes offered, as the laws about deliveries say; nobody joins or leaves
/// by that.
pub proof fn law_hub_delivers(
    hub: &mut WsPeerHub,
    target: OutboundTarget,
    pending: Vec<PeerId>,
    message: OutboundControl,
    routed: RoutedOutbound,
    peer_id: PeerId,
    r: Result<(), SendControlError>,
    offered_close: bool,
)
    ensures
        call_ensures(WsPeerHub::send_control, (hub, target, message), r) ==> (final(hub)@, delivery_of(r))
            == deliver(old(hub)@, recipients(old(hub)@, old(hub).ids(), target), message@) && final(hub).ids() == old(hub).ids(),
        call_ensures(WsPeerHub::resume_control, (hub, pending, message), r) ==> (
            final(hub)@,
            delivery_of(r),
        ) == deliver(old(hub)@, pending@, message@) && final(hub).ids() == old(hub).ids(),
        call_ensures(WsPeerHub::dispatch_outbound, (hub, routed), r) ==> (final(hub)@, delivery_of(r))
            == deliver(
            old(hub)@,
            recipients(old(hub)@, old(hub).ids(), routed.target),
            routed.message@,
        ) && final(hub).ids() == old(hub).ids(),
        call_ensures(WsPeerHub::close_all_peers, (hub,), ()) ==> final(hub)@ == offered(
            old(hub)@,
            old(hub).ids(),
            OutboundView::Close,
        ) && final(hub).ids() == old(hub).ids(),
        call_ensures(WsPeerHub::try_close_peer, (hub, peer_id), offered_close) ==> (offered_close
            <==> old(hub)@.contains_key(peer_id) && old(hub)@[peer_id].outbox.control.receiver_alive
            && old(hub)@[peer_id].outbox.control.items.len() < old(hub)@[peer_id].outbox.control.capacity)
            && final(hub)@ == offered(old(hub)@, seq![peer_id], OutboundView::Close),
{
    law_offers_pass_over_nobody(old(hub)@, Seq::empty(), Seq::empty(), peer_id, OutboundView::Close);
    law_delivery_to_one_peer(old(hub)@, peer_id, OutboundView::Close);
    let next = old(hub)@.insert(peer_id, with_control(old(hub)@[peer_id], OutboundView::Close));
    assert(seq![peer_id].skip(1) =~= Seq::empty());
    assert(seq![peer_id][0] == peer_id);
    assert(offered(next, Seq::empty(), OutboundView::Close) == next);
    assert(offered(old(hub)@, Seq::empty(), OutboundView::Close) == old(hub)@);
}

/// Peers are counted as they are, all of them or those that this process connected to.
pub proof fn law_hub_counts_its_peers(hub: &WsPeerHub, n: usize, err: SendControlError, text: String)
    ensures
        call_ensures(WsPeerHub::peer_count, (hub,), n) ==> n == hub.ids().len() && n == hub@.len(),
        call_ensures(WsPeerHub::outbound_peer_count, (hub,), n) ==> n == outbound_count(hub@, hub.ids()),
        call_ensures(SendControlError::message, (&err,), text) ==> text@ == if err is Disconnected {
            "sending on a closed channel"@
        } else {
            "sending on a full channel"@
        },
{
}

} // verus!
