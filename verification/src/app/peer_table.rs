//! A table of values by peer, in the order in which the peers came.

use crate::transport::control::PeerId;
use vstd::prelude::*;

verus! {

/// One value per peer. The table is walked in the order in which its peers were
/// first entered.
pub struct PeerTable<V> {
    pub entries: Vec<(PeerId, V)>,
}

/// Whether `id` is the key of an entry.
pub open spec fn has_id<V>(entries: Seq<(PeerId, V)>, id: PeerId) -> bool {
    exists|i: int| 0 <= i < entries.len() && #[trigger] entries[i].0 == id
}

/// The position of the entry of `id`.
pub open spec fn index_of<V>(entries: Seq<(PeerId, V)>, id: PeerId) -> int {
    choose|i: int| 0 <= i < entries.len() && #[trigger] entries[i].0 == id
}

/// The map that a list of entries stands for.
pub open spec fn map_of<V>(entries: Seq<(PeerId, V)>) -> Map<PeerId, V> {
    Map::new(|id: PeerId| has_id(entries, id), |id: PeerId| entries[index_of(entries, id)].1)
}

/// The keys of a list of entries, in order.
pub open spec fn ids_of<V>(entries: Seq<(PeerId, V)>) -> Seq<PeerId> {
    entries.map_values(|entry: (PeerId, V)| entry.0)
}

/// A list of keys without one of them.
pub open spec fn without(ids: Seq<PeerId>, id: PeerId) -> Seq<PeerId>
    decreases ids.len(),
{
    if ids.len() == 0 {
        ids
    } else if ids.last() == id {
        without(ids.drop_last(), id)
    } else {
        without(ids.drop_last(), id).push(ids.last())
    }
}

/// No two entries have the same key.
pub open spec fn distinct_ids<V>(entries: Seq<(PeerId, V)>) -> bool {
    forall|i: int, j: int|
        0 <= i < entries.len() && 0 <= j < entries.len() && i != j ==> (#[trigger] entries[i]).0 != (
        #[trigger] entries[j]).0
}

impl<V> View for PeerTable<V> {
    type V = Map<PeerId, V>;

    open spec fn view(&self) -> Map<PeerId, V> {
        map_of(self.entries@)
    }
}

/// What an entry says is what the map says.
pub proof fn lemma_entry_in_map<V>(entries: Seq<(PeerId, V)>, i: int)
    requires
        distinct_ids(entries),
        0 <= i < entries.len(),
    ensures
        map_of(entries).contains_key(entries[i].0),
        map_of(entries)[entries[i].0] == entries[i].1,
{
    let id = entries[i].0;
    assert(has_id(entries, id));
    let j = index_of(entries, id);
    assert(entries[j].0 == entries[i].0);
}

/// Overwriting the value of an entry overwrites it in the map.
pub proof fn lemma_map_of_update<V>(entries: Seq<(PeerId, V)>, i: int, value: V)
    requires
        distinct_ids(entries),
        0 <= i < entries.len(),
    ensures
        distinct_ids(entries.update(i, (entries[i].0, value))),
        map_of(entries.update(i, (entries[i].0, value))) == map_of(entries).insert(
            entries[i].0,
            value,
        ),
        ids_of(entries.update(i, (entries[i].0, value))) == ids_of(entries),
{
    let id = entries[i].0;
    let after = entries.update(i, (id, value));
    assert(ids_of(after) =~= ids_of(entries));
    assert forall|a: int, b: int|
        0 <= a < after.len() && 0 <= b < after.len() && a != b implies (#[trigger] after[a]).0 != (
    #[trigger] after[b]).0 by {
        assert(after[a].0 == entries[a].0 && after[b].0 == entries[b].0);
        assert(entries[a].0 != entries[b].0);
    }
    assert forall|k: PeerId| has_id(after, k) == has_id(entries, k) by {
        if has_id(after, k) {
            let j = index_of(after, k);
            assert(entries[j].0 == k);
        }
        if has_id(entries, k) {
            let j = index_of(entries, k);
            assert(after[j].0 == k);
        }
    }
    assert forall|k: PeerId| has_id(after, k) implies map_of(after)[k] == map_of(entries).insert(
        id,
        value,
    )[k] by {
        let j = index_of(after, k);
        lemma_entry_in_map(after, j);
        lemma_entry_in_map(entries, j);
    }
    assert(has_id(entries, id));
    assert(map_of(after) =~= map_of(entries).insert(id, value));
}

proof fn lemma_map_of_push<V>(entries: Seq<(PeerId, V)>, id: PeerId, value: V)
    requires
        distinct_ids(entries),
        !has_id(entries, id),
    ensures
        distinct_ids(entries.push((id, value))),
        map_of(entries.push((id, value))) == map_of(entries).insert(id, value),
        ids_of(entries.push((id, value))) == ids_of(entries).push(id),
{
    let after = entries.push((id, value));
    assert(ids_of(after) =~= ids_of(entries).push(id));
    assert forall|a: int, b: int|
        0 <= a < after.len() && 0 <= b < after.len() && a != b implies (#[trigger] after[a]).0 != (
    #[trigger] after[b]).0 by {
        if a < entries.len() {
            assert(after[a] == entries[a]);
        }
        if b < entries.len() {
            assert(after[b] == entries[b]);
        }
    }
    assert(after[entries.len() as int].0 == id);
    assert forall|k: PeerId| has_id(after, k) == (has_id(entries, k) || k == id) by {
        if has_id(after, k) {
            let j = index_of(after, k);
            if j < entries.len() {
                assert(entries[j].0 == k);
            }
        }
        if has_id(entries, k) {
            let j = index_of(entries, k);
            assert(after[j].0 == k);
        }
    }
    assert forall|k: PeerId| has_id(after, k) implies map_of(after)[k] == map_of(entries).insert(
        id,
        value,
    )[k] by {
        let j = index_of(after, k);
        lemma_entry_in_map(after, j);
        if j < entries.len() {
            assert(after[j] == entries[j]);
            lemma_entry_in_map(entries, j);
        }
    }
    assert(map_of(after) =~= map_of(entries).insert(id, value));
}

proof fn lemma_without_absent(ids: Seq<PeerId>, id: PeerId)
    requires
        !ids.contains(id),
    ensures
        without(ids, id) == ids,
    decreases ids.len(),
{
    if ids.len() > 0 {
        let shorter = ids.drop_last();
        assert(ids[ids.len() - 1] != id);
        assert forall|i: int| 0 <= i < shorter.len() implies shorter[i] != id by {
            assert(ids[i] != id);
        }
        lemma_without_absent(shorter, id);
        assert(shorter.push(ids.last()) =~= ids);
    }
}

proof fn lemma_without(ids: Seq<PeerId>, i: int)
    requires
        ids.no_duplicates(),
        0 <= i < ids.len(),
    ensures
        without(ids, ids[i]) == ids.remove(i),
    decreases ids.len(),
{
    let shorter = ids.drop_last();
    if i == ids.len() - 1 {
        assert forall|j: int| 0 <= j < shorter.len() implies shorter[j] != ids[i] by {
            assert(ids[j] != ids[i]);
        }
        lemma_without_absent(shorter, ids[i]);
        assert(ids.remove(i) =~= shorter);
    } else {
        assert(shorter[i] == ids[i]);
        lemma_without(shorter, i);
        assert(shorter.remove(i).push(ids.last()) =~= ids.remove(i));
    }
}

proof fn lemma_map_of_remove<V>(entries: Seq<(PeerId, V)>, i: int)
    requires
        distinct_ids(entries),
        0 <= i < entries.len(),
    ensures
        distinct_ids(entries.remove(i)),
        map_of(entries.remove(i)) == map_of(entries).remove(entries[i].0),
        ids_of(entries.remove(i)) == ids_of(entries).remove(i),
{
    let id = entries[i].0;
    let after = entries.remove(i);
    assert(ids_of(after) =~= ids_of(entries).remove(i));
    assert forall|a: int| 0 <= a < after.len() implies #[trigger] after[a] == entries[if a < i {
        a
    } else {
        a + 1
    }] by {}
    assert forall|k: PeerId| has_id(after, k) == (has_id(entries, k) && k != id) by {
        if has_id(after, k) {
            let j = index_of(after, k);
            let e = if j < i {
                j
            } else {
                j + 1
            };
            assert(entries[e].0 == k);
            assert(entries[e].0 != entries[i].0);
        }
        if has_id(entries, k) && k != id {
            let j = index_of(entries, k);
            let a = if j < i {
                j
            } else {
                j - 1
            };
            assert(after[a].0 == k);
        }
    }
    assert forall|a: int, b: int|
        0 <= a < after.len() && 0 <= b < after.len() && a != b implies (#[trigger] after[a]).0 != (
    #[trigger] after[b]).0 by {}
    assert forall|k: PeerId| has_id(after, k) implies map_of(after)[k] == map_of(entries).remove(
        id,
    )[k] by {
        let j = index_of(after, k);
        lemma_entry_in_map(after, j);
        lemma_entry_in_map(entries, if j < i { j } else { j + 1 });
    }
    assert(map_of(after) =~= map_of(entries).remove(id));
}

/// The map has as many keys as the table has entries.
proof fn lemma_map_of_len<V>(entries: Seq<(PeerId, V)>)
    requires
        distinct_ids(entries),
    ensures
        map_of(entries).dom().finite(),
        map_of(entries).len() == entries.len(),
    decreases entries.len(),
{
    if entries.len() == 0 {
        assert(map_of(entries).dom() =~= Set::empty());
    } else {
        let last = entries.len() - 1;
        lemma_map_of_remove(entries, last);
        lemma_map_of_len(entries.remove(last));
        lemma_entry_in_map(entries, last);
        let without = map_of(entries).remove(entries[last].0);
        assert(map_of(entries).dom() =~= without.dom().insert(entries[last].0));
    }
}

impl<V> PeerTable<V> {
    /// Each peer has one entry.
    pub open spec fn wf(&self) -> bool {
        distinct_ids(self.entries@)
    }

    /// The peers in the order in which they came.
    pub open spec fn ids(&self) -> Seq<PeerId> {
        ids_of(self.entries@)
    }

    /// A table without peers.
    pub fn new() -> (r: Self)
        ensures
            r.wf(),
            r@ == Map::<PeerId, V>::empty(),
            r.ids() == Seq::<PeerId>::empty(),
    {
        let r = PeerTable { entries: Vec::new() };
        assert(r@ =~= Map::empty());
        assert(r.ids() =~= Seq::empty());
        r
    }

    /// The number of peers.
    pub fn len(&self) -> (r: usize)
        requires
            self.wf(),
        ensures
            r == self@.len(),
            r == self.ids().len(),
            self@.dom().finite(),
    {
        proof {
            lemma_map_of_len(self.entries@);
        }
        self.entries.len()
    }

    /// The position of a peer's entry.
    pub fn position(&self, id: PeerId) -> (r: Option<usize>)
        requires
            self.wf(),
        ensures
            r is Some <==> self@.contains_key(id),
            r matches Some(i) ==> i < self.entries@.len() && self.entries@[i as int].0 == id
                && self@[id] == self.entries@[i as int].1,
    {
        let mut i: usize = 0;
        while i < self.entries.len()
            invariant
                self.wf(),
                i <= self.entries@.len(),
                forall|j: int| 0 <= j < i ==> (#[trigger] self.entries@[j]).0 != id,
            decreases self.entries@.len() - i,
        {
            if self.entries[i].0 == id {
                proof {
                    lemma_entry_in_map(self.entries@, i as int);
                }
                return Some(i);
            }
            i += 1;
        }
        None
    }

    /// The value of a peer.
    pub fn get(&self, id: PeerId) -> (r: Option<&V>)
        requires
            self.wf(),
        ensures
            r is Some <==> self@.contains_key(id),
            r matches Some(value) ==> *value == self@[id],
    {
        match self.position(id) {
            Some(i) => Some(&self.entries[i].1),
            None => None,
        }
    }

    /// Access to the value of the entry at `i`.
    pub fn value_mut(&mut self, i: usize) -> (r: &mut V)
        requires
            old(self).wf(),
            i < old(self).entries@.len(),
        ensures
            *r == old(self).entries@[i as int].1,
            final(self).entries@ == old(self).entries@.update(
                i as int,
                (old(self).entries@[i as int].0, *final(r)),
            ),
    {
        &mut self.entries[i].1
    }

    /// Enters a peer, or replaces the value of one that is there.
    pub fn insert(&mut self, id: PeerId, value: V)
        requires
            old(self).wf(),
        ensures
            final(self).wf(),
            final(self)@ == old(self)@.insert(id, value),
            final(self).ids() == if old(self)@.contains_key(id) {
                old(self).ids()
            } else {
                old(self).ids().push(id)
            },
    {
        match self.position(id) {
            Some(i) => {
                proof {
                    lemma_map_of_update(self.entries@, i as int, value);
                }
                self.entries[i].1 = value;
                assert(self.entries@ =~= old(self).entries@.update(i as int, (id, value)));
            },
            None => {
                proof {
                    lemma_map_of_push(self.entries@, id, value);
                }
                self.entries.push((id, value));
            },
        }
    }

    /// Takes a peer out of the table.
    pub fn remove(&mut self, id: PeerId) -> (r: Option<V>)
        requires
            old(self).wf(),
        ensures
            final(self).wf(),
            final(self)@ == old(self)@.remove(id),
            r is Some <==> old(self)@.contains_key(id),
            r matches Some(value) ==> value == old(self)@[id],
            final(self).ids() == without(old(self).ids(), id),
            r is Some ==> final(self).ids().len() == old(self).ids().len() - 1,
    {
        match self.position(id) {
            Some(i) => {
                proof {
                    lemma_map_of_remove(self.entries@, i as int);
                    lemma_ids_are_keys(self.entries@);
                    lemma_without(self.ids(), i as int);
                }
                let (_, value) = self.entries.remove(i);
                Some(value)
            },
            None => {
                assert(self@.remove(id) =~= self@);
                proof {
                    lemma_ids_are_keys(self.entries@);
                    assert(!self.ids().contains(id));
                    lemma_without_absent(self.ids(), id);
                }
                None
            },
        }
    }

    /// Takes everything out of the table, in order.
    pub fn drain(&mut self) -> (r: Vec<(PeerId, V)>)
        requires
            old(self).wf(),
        ensures
            final(self).wf(),
            final(self)@ == Map::<PeerId, V>::empty(),
            final(self).ids() == Seq::<PeerId>::empty(),
            distinct_ids(r@),
            map_of(r@) == old(self)@,
            ids_of(r@) == old(self).ids(),
    {
        let mut taken: Vec<(PeerId, V)> = Vec::new();
        taken.append(&mut self.entries);
        assert(taken@ =~= old(self).entries@);
        assert(self@ =~= Map::empty());
        assert(self.ids() =~= Seq::empty());
        taken
    }

    /// The peers, in the order in which they came.
    pub fn peer_ids(&self) -> (r: Vec<PeerId>)
        requires
            self.wf(),
        ensures
            r@ == self.ids(),
            r@.no_duplicates(),
            forall|id: PeerId| #[trigger] r@.contains(id) <==> self@.contains_key(id),
    {
        let mut out: Vec<PeerId> = Vec::new();
        let mut i: usize = 0;
        while i < self.entries.len()
            invariant
                self.wf(),
                i <= self.entries@.len(),
                out@ == self.ids().take(i as int),
            decreases self.entries@.len() - i,
        {
            out.push(self.entries[i].0);
            i += 1;
            assert(out@ =~= self.ids().take(i as int));
        }
        assert(out@ =~= self.ids());
        proof {
            lemma_ids_are_keys(self.entries@);
        }
        out
    }
}

/// The listed keys are the keys of the map, each of them once.
pub proof fn lemma_ids_are_keys<V>(entries: Seq<(PeerId, V)>)
    requires
        distinct_ids(entries),
    ensures
        ids_of(entries).no_duplicates(),
        forall|id: PeerId| #[trigger]
            ids_of(entries).contains(id) <==> map_of(entries).contains_key(id),
{
    let ids = ids_of(entries);
    assert forall|i: int, j: int| 0 <= i < ids.len() && 0 <= j < ids.len() && i != j implies ids[i]
        != ids[j] by {
        assert(entries[i].0 != entries[j].0);
    }
    assert forall|id: PeerId| #[trigger] ids.contains(id) <==> map_of(entries).contains_key(id) by {
        if ids.contains(id) {
            let i = choose|i: int| 0 <= i < ids.len() && ids[i] == id;
            assert(entries[i].0 == id);
        }
        if map_of(entries).contains_key(id) {
            let i = index_of(entries, id);
            assert(ids[i] == id);
        }
    }
}

/// Taking a peer off a list takes off every place of it and leaves the others where they are.
pub proof fn law_list_without_a_peer(first: Seq<PeerId>, rest: Seq<PeerId>, id: PeerId, other: PeerId)
    ensures
        without(Seq::empty(), id) == Seq::<PeerId>::empty(),
        without(seq![id], id) == Seq::<PeerId>::empty(),
        other != id ==> without(seq![other], id) == seq![other],
        without(first + rest, id) == without(first, id) + without(rest, id),
    decreases rest.len(),
{
    assert(without(Seq::empty(), id) =~= Seq::<PeerId>::empty());
    assert(seq![id].drop_last() =~= Seq::empty());
    assert(seq![other].drop_last() =~= Seq::empty());
    assert(seq![other].last() == other);
    assert(without(seq![other], id) =~= if other == id {
        Seq::empty()
    } else {
        seq![other]
    });
    if rest.len() == 0 {
        assert(first + rest =~= first);
        assert(without(first, id) + without(rest, id) =~= without(first, id));
    } else {
        assert((first + rest).last() == rest.last());
        assert((first + rest).drop_last() =~= first + rest.drop_last());
        law_list_without_a_peer(first, rest.drop_last(), id, other);
        assert(without(first + rest, id) =~= without(first, id) + without(rest, id));
    }
}

/// A table has exactly the peers of its entries, each with its own value, and lists them in order.
pub proof fn law_table_finds_its_entries<V>(table: PeerTable<V>, i: int, id: PeerId)
    requires
        table.wf(),
        0 <= i < table.entries@.len(),
    ensures
        table@.contains_key(table.entries@[i].0),
        table@[table.entries@[i].0] == table.entries@[i].1,
        table@.contains_key(id) ==> exists|j: int|
            0 <= j < table.entries@.len() && #[trigger] table.entries@[j].0 == id,
        table.ids().len() == table.entries@.len(),
        table.ids()[i] == table.entries@[i].0,
{
    lemma_entry_in_map(table.entries@, i);
}

/// In a table each peer is there once, and an empty table has none.
pub proof fn law_table_has_each_peer_once<V>(table: PeerTable<V>, i: int, j: int, id: PeerId)
    ensures
        table.wf() && 0 <= i < table.entries@.len() && 0 <= j < table.entries@.len() && i != j
            ==> table.entries@[i].0 != table.entries@[j].0,
        table.entries@.len() == 0 ==> table.wf() && !table@.contains_key(id) && table.ids().len() == 0,
{
}

/// A value that is entered for a peer is found there, and the values of all others stay; a new peer
/// comes last, and one that is there keeps its place.
pub proof fn law_entered_value_is_found<V>(
    table: &mut PeerTable<V>,
    id: PeerId,
    value: V,
    other: PeerId,
    taken: Option<V>,
)
    ensures
        call_ensures(PeerTable::<V>::insert, (table, id, value), ()) ==> {
            &&& final(table)@.contains_pair(id, value)
            &&& other != id ==> final(table)@.contains_key(other) == old(table)@.contains_key(other)
                && final(table)@[other] == old(table)@[other]
            &&& old(table)@.contains_key(id) ==> final(table).ids() == old(table).ids()
            &&& !old(table)@.contains_key(id) ==> final(table).ids() == old(table).ids() + seq![id]
        },
        call_ensures(PeerTable::<V>::remove, (table, id), taken) ==> {
            &&& !final(table)@.contains_key(id)
            &&& other != id ==> final(table)@.contains_key(other) == old(table)@.contains_key(other)
                && final(table)@[other] == old(table)@[other]
            &&& taken is Some <==> old(table)@.contains_key(id)
            &&& taken matches Some(was) ==> was == old(table)@[id]
            &&& final(table).ids() == without(old(table).ids(), id)
        },
{
    assert(old(table).ids().push(id) =~= old(table).ids() + seq![id]);
}

/// A table is looked into as it is: its peers, their number, their order and their values.
pub proof fn law_table_is_looked_into<V>(
    table: &PeerTable<V>,
    id: PeerId,
    n: usize,
    position: Option<usize>,
    value: Option<&V>,
    ids: Vec<PeerId>,
    drained: &mut PeerTable<V>,
    entries: Vec<(PeerId, V)>,
    fresh: PeerTable<V>,
)
    ensures
        call_ensures(PeerTable::<V>::len, (table,), n) ==> n == table.ids().len(),
        call_ensures(PeerTable::<V>::position, (table, id), position) ==> match position {
            Some(i) => i < table.entries@.len() && table.entries@[i as int].0 == id,
            None => !table@.contains_key(id),
        },
        call_ensures(PeerTable::<V>::get, (table, id), value) ==> match value {
            Some(found) => table@.contains_pair(id, *found),
            None => !table@.contains_key(id),
        },
        call_ensures(PeerTable::<V>::peer_ids, (table,), ids) ==> ids@ == table.ids(),
        call_ensures(PeerTable::<V>::drain, (drained,), entries) ==> map_of(entries@) == old(drained)@
            && ids_of(entries@) == old(drained).ids() && final(drained).ids().len() == 0 && !final(drained)@.contains_key(id),
        call_ensures(PeerTable::<V>::new, (), fresh) ==> fresh.ids().len() == 0
            && !fresh@.contains_key(id),
{
}

} // verus!
