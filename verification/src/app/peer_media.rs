//! The player and the recorder of each peer.

use crate::app::peer_table::{lemma_entry_in_map, lemma_map_of_update, map_of, PeerTable};
use crate::audio::player::AudioPlayer;
use crate::audio::recorder::{stopped_recorder, AudioRecorder};
use crate::transport::control::PeerId;
use vstd::prelude::*;

verus! {

/// A player and a recorder that belong to one peer alone.
pub struct PeerMedia {
    pub player: AudioPlayer,
    pub recorder: AudioRecorder,
}

impl PeerMedia {
    pub open spec fn wf(&self) -> bool {
        self.player.wf() && self.recorder.wf()
    }

    /// Neither of the two runs, and nothing waits to be played.
    pub open spec fn is_idle(&self) -> bool {
        &&& !self.player.is_started()
        &&& self.player.waiting().len() == 0
        &&& self.recorder == stopped_recorder()
    }

    /// A player and a recorder that were not started.
    pub fn new() -> (r: Self)
        ensures
            r.wf(),
            r.is_idle(),
    {
        PeerMedia { player: AudioPlayer::new(), recorder: AudioRecorder::new() }
    }
}

/// The players and recorders of all peers of a session.
pub struct PeerMediaRegistry {
    pub peers: PeerTable<PeerMedia>,
}

impl View for PeerMediaRegistry {
    type V = Map<PeerId, PeerMedia>;

    open spec fn view(&self) -> Map<PeerId, PeerMedia> {
        self.peers@
    }
}

impl PeerMediaRegistry {
    pub open spec fn wf(&self) -> bool {
        &&& self.peers.wf()
        &&& forall|id: PeerId| #[trigger] self@.contains_key(id) ==> self@[id].wf()
    }

    /// No peers.
    pub fn new() -> (r: Self)
        ensures
            r.wf(),
            r@ == Map::<PeerId, PeerMedia>::empty(),
    {
        PeerMediaRegistry { peers: PeerTable::new() }
    }

    /// Gives a peer a player and a recorder of its own.
    pub fn add_peer(&mut self, peer_id: PeerId)
        requires
            old(self).wf(),
        ensures
            final(self).wf(),
            final(self)@.contains_key(peer_id),
            final(self)@[peer_id].is_idle(),
            final(self)@ == old(self)@.insert(peer_id, final(self)@[peer_id]),
    {
        let media = PeerMedia::new();
        self.peers.insert(peer_id, media);
        proof {
            assert forall|id: PeerId| #[trigger] self@.contains_key(id) implies self@[id].wf() by {
                if id != peer_id {
                    assert(old(self)@.contains_key(id));
                }
            }
        }
    }

    /// The player and the recorder of a peer.
    pub fn get(&mut self, peer_id: PeerId) -> (r: Option<&mut PeerMedia>)
        requires
            old(self).wf(),
        ensures
            r is Some <==> old(self)@.contains_key(peer_id),
            r is Some ==> {
                let media = r->0;
                &&& media.wf()
                &&& *media == old(self)@[peer_id]
                &&& final(media).wf() ==> final(self).wf()
                &&& final(self)@ == old(self)@.insert(peer_id, *final(media))
            },
            r is None ==> *final(self) == *old(self),
    {
        match self.peers.position(peer_id) {
            Some(i) => {
                proof {
                    lemma_entry_in_map(self.peers.entries@, i as int);
                }
                let ghost before = *self;
                let media = self.peers.value_mut(i);
                proof {
                    lemma_map_of_update(before.peers.entries@, i as int, *final(media));
                    let after = before@.insert(peer_id, *final(media));
                    assert forall|id: PeerId| #[trigger] after.contains_key(id)
                        && final(media).wf() implies after[id].wf() by {
                        if id != peer_id {
                            assert(before@.contains_key(id));
                        }
                    }
                }
                Some(media)
            },
            None => None,
        }
    }

    /// Removes a peer; whatever of its media runs is the caller's to stop.
    pub fn remove_peer(&mut self, peer_id: PeerId) -> (r: Option<PeerMedia>)
        requires
            old(self).wf(),
        ensures
            final(self).wf(),
            final(self)@ == old(self)@.remove(peer_id),
            r is Some <==> old(self)@.contains_key(peer_id),
            r matches Some(media) ==> media == old(self)@[peer_id] && media.wf(),
    {
        self.peers.remove(peer_id)
    }

    /// Removes all peers.
    pub fn drain(&mut self) -> (r: Vec<(PeerId, PeerMedia)>)
        requires
            old(self).wf(),
        ensures
            final(self).wf(),
            final(self)@ == Map::<PeerId, PeerMedia>::empty(),
            map_of(r@) == old(self)@,
            forall|i: int| 0 <= i < r@.len() ==> (#[trigger] r@[i]).1.wf(),
    {
        let taken = self.peers.drain();
        proof {
            assert forall|i: int| 0 <= i < taken@.len() implies (#[trigger] taken@[i]).1.wf() by {
                lemma_entry_in_map(taken@, i);
                assert(old(self)@.contains_key(taken@[i].0));
            }
        }
        taken
    }
}

/// The media of a new peer are at rest: nothing is played, nothing waits and nothing is recorded.
pub proof fn law_idle_media_are_at_rest(media: PeerMedia, registry: PeerMediaRegistry)
    ensures
        media.is_idle() <==> !media.player.is_started() && media.player.waiting().len() == 0
            && media.recorder == stopped_recorder(),
        registry@ == registry.peers@,
{
}

/// Each peer gets media of its own, at rest, and takes them along when it is removed; those of the
/// others stay as they are.
pub proof fn law_each_peer_has_its_own_media(
    registry: &mut PeerMediaRegistry,
    id: PeerId,
    other: PeerId,
    taken: Option<PeerMedia>,
    media: PeerMedia,
    entries: Vec<(PeerId, PeerMedia)>,
)
    ensures
        call_ensures(PeerMediaRegistry::add_peer, (registry, id), ()) ==> {
            &&& final(registry)@.contains_key(id)
            &&& final(registry)@[id].is_idle()
            &&& other != id ==> final(registry)@.contains_key(other) == old(registry)@.contains_key(
                other,
            ) && final(registry)@[other] == old(registry)@[other]
        },
        call_ensures(PeerMediaRegistry::remove_peer, (registry, id), taken) ==> {
            &&& !final(registry)@.contains_key(id)
            &&& taken is Some <==> old(registry)@.contains_key(id)
            &&& taken matches Some(was) ==> was == old(registry)@[id]
            &&& other != id ==> final(registry)@.contains_key(other) == old(registry)@.contains_key(
                other,
            ) && final(registry)@[other] == old(registry)@[other]
        },
        call_ensures(PeerMediaRegistry::drain, (registry,), entries) ==> !final(registry)@.contains_key(
            id,
        ) && map_of(entries@) == old(registry)@,
        call_ensures(PeerMedia::new, (), media) ==> !media.player.is_started()
            && media.player.waiting().len() == 0 && media.recorder.profile is None
            && !media.recorder.child,
{
}

} // verus!
