//! A bounded first-in first-out queue with two ends that can go away.

use std::collections::VecDeque;
use vstd::prelude::*;

verus! {

/// Why a message could not be put into a queue at once.
#[derive(Debug, PartialEq, Eq)]
pub enum TrySendError<T> {
    /// The queue holds as many items as it may.
    Full(T),
    /// Nobody will ever read from the queue again.
    Disconnected(T),
}

/// Why a sender that is willing to block could not put a message into a queue.
#[derive(Debug, PartialEq, Eq)]
pub enum SendError<T> {
    /// The queue is full: the sender waits for room and sends the message again.
    Waits(T),
    /// Nobody will ever read from the queue again.
    Disconnected(T),
}

/// Why nothing could be taken out of a queue.
#[derive(Debug, Clone, Copy, PartialEq, Eq)]
pub enum TryRecvError {
    /// There is nothing in the queue right now.
    Empty,
    /// There is nothing in the queue and nobody will ever write to it again.
    Disconnected,
}

/// A bounded queue between one sending side and one receiving side. It has room for at
/// least one item.
pub struct SyncQueue<T> {
    pub items: VecDeque<T>,
    pub capacity: usize,
    pub sender_alive: bool,
    pub receiver_alive: bool,
}

impl<T> View for SyncQueue<T> {
    type V = Seq<T>;

    open spec fn view(&self) -> Seq<T> {
        self.items@
    }
}

impl<T> SyncQueue<T> {
    /// The queue can hold something, and never holds more than it may.
    pub open spec fn wf(&self) -> bool {
        self@.len() <= self.capacity && self.capacity > 0
    }

    /// The next `try_send` succeeds.
    pub open spec fn accepts(&self) -> bool {
        self.receiver_alive && self@.len() < self.capacity
    }

    /// Everything but the contents is as in `other`.
    pub open spec fn same_ends(&self, other: &Self) -> bool {
        &&& self.capacity == other.capacity
        &&& self.sender_alive == other.sender_alive
        &&& self.receiver_alive == other.receiver_alive
    }

    /// An empty queue for at most `capacity` items, both ends alive.
    pub fn new(capacity: usize) -> (r: Self)
        requires
            capacity > 0,
        ensures
            r.wf(),
            r@ == Seq::<T>::empty(),
            r.capacity == capacity,
            r.sender_alive,
            r.receiver_alive,
    {
        SyncQueue { items: VecDeque::new(), capacity, sender_alive: true, receiver_alive: true }
    }

    /// The number of items that wait in the queue.
    pub fn len(&self) -> (r: usize)
        ensures
            r == self@.len(),
    {
        self.items.len()
    }

    /// Puts `value` at the end of the queue, or hands it back. A queue that
    /// nobody reads any more refuses every value, full or not.
    pub fn try_send(&mut self, value: T) -> (r: Result<(), TrySendError<T>>)
        requires
            old(self).wf(),
        ensures
            final(self).wf(),
            final(self).same_ends(old(self)),
            !old(self).receiver_alive ==> r == Err::<(), TrySendError<T>>(
                TrySendError::Disconnected(value),
            ) && final(self)@ == old(self)@,
            old(self).receiver_alive && !old(self).accepts() ==> r == Err::<(), TrySendError<T>>(
                TrySendError::Full(value),
            ) && final(self)@ == old(self)@,
            old(self).accepts() ==> r is Ok && final(self)@ == old(self)@.push(value),
    {
        if !self.receiver_alive {
            Err(TrySendError::Disconnected(value))
        } else if self.items.len() >= self.capacity {
            Err(TrySendError::Full(value))
        } else {
            self.items.push_back(value);
            Ok(())
        }
    }

    /// Takes the oldest item out of the queue. What was sent before the sending
    /// side went away is still delivered.
    pub fn try_recv(&mut self) -> (r: Result<T, TryRecvError>)
        requires
            old(self).wf(),
        ensures
            final(self).wf(),
            final(self).same_ends(old(self)),
            old(self)@.len() > 0 ==> r == Ok::<T, TryRecvError>(old(self)@[0]) && final(self)@ == old(self)@.skip(1),
            old(self)@.len() == 0 ==> final(self)@ == old(self)@ && r == Err::<T, TryRecvError>(
                if old(self).sender_alive {
                    TryRecvError::Empty
                } else {
                    TryRecvError::Disconnected
                },
            ),
    {
        match self.items.pop_front() {
            Some(item) => {
                assert(self@ =~= old(self)@.skip(1));
                Ok(item)
            },
            None => {
                if self.sender_alive {
                    Err(TryRecvError::Empty)
                } else {
                    Err(TryRecvError::Disconnected)
                }
            },
        }
    }

    /// The sending side goes away; what is queued stays.
    pub fn drop_sender(&mut self)
        requires
            old(self).wf(),
        ensures
            final(self).wf(),
            final(self)@ == old(self)@,
            final(self).capacity == old(self).capacity,
            final(self).receiver_alive == old(self).receiver_alive,
            !final(self).sender_alive,
    {
        self.sender_alive = false;
    }

    /// The receiving side goes away, and with it everything that was queued.
    pub fn drop_receiver(&mut self)
        requires
            old(self).wf(),
        ensures
            final(self).wf(),
            final(self)@ == Seq::<T>::empty(),
            final(self).capacity == old(self).capacity,
            final(self).sender_alive == old(self).sender_alive,
            !final(self).receiver_alive,
    {
        self.items.clear();
        self.receiver_alive = false;
    }
}

/// Sending and then receiving from an empty queue gives back what was sent, and
/// items leave in the order in which they came.
pub proof fn law_queue_is_first_in_first_out<T>(before: Seq<T>, sent: T)
    ensures
        before.push(sent).len() == before.len() + 1,
        before.len() == 0 ==> before.push(sent)[0] == sent && before.push(sent).skip(1) == before,
        before.len() > 0 ==> before.push(sent)[0] == before[0] && before.push(sent).skip(1)
            == before.skip(1).push(sent),
{
    if before.len() == 0 {
        assert(before.push(sent).skip(1) =~= before);
    } else {
        assert(before.push(sent).skip(1) =~= before.skip(1).push(sent));
    }
}

/// A queue takes an item in exactly while it is read and has room.
pub proof fn law_queue_takes_in_while_there_is_room<T>(queue: SyncQueue<T>, other: SyncQueue<T>)
    ensures
        queue.accepts() <==> queue.receiver_alive && queue.items@.len() < queue.capacity,
        queue@ == queue.items@,
        queue.same_ends(&other) <==> queue.capacity == other.capacity && queue.sender_alive
            == other.sender_alive && queue.receiver_alive == other.receiver_alive,
        queue.wf() <==> queue.items@.len() <= queue.capacity && queue.capacity > 0,
{
}

/// What is sent into a queue comes to stand behind everything that waits, whatever it is and however
/// much waits, as long as there is room and somebody reads; otherwise it comes back and nothing
/// changes.
pub proof fn law_sent_item_is_queued_or_comes_back<T>(
    queue: &mut SyncQueue<T>,
    value: T,
    r: Result<(), TrySendError<T>>,
)
    requires
        call_ensures(SyncQueue::<T>::try_send, (queue, value), r),
    ensures
        r is Ok <==> old(queue).receiver_alive && old(queue).items@.len() < old(queue).capacity,
        r is Ok ==> final(queue).items@ == old(queue).items@ + seq![value],
        r matches Err(err) ==> final(queue).items@ == old(queue).items@ && err == if old(queue).receiver_alive {
            TrySendError::Full(value)
        } else {
            TrySendError::Disconnected(value)
        },
        final(queue).capacity == old(queue).capacity,
        final(queue).sender_alive == old(queue).sender_alive,
        final(queue).receiver_alive == old(queue).receiver_alive,
{
    assert(old(queue).items@.push(value) =~= old(queue).items@ + seq![value]);
}

/// What is taken out of a queue is the item that has waited longest; an empty queue says whether more
/// can come.
pub proof fn law_oldest_item_is_taken_out<T>(queue: &mut SyncQueue<T>, r: Result<T, TryRecvError>)
    requires
        call_ensures(SyncQueue::<T>::try_recv, (queue,), r),
    ensures
        old(queue).items@.len() > 0 ==> (r matches Ok(item) && seq![item] + final(queue).items@ == old(queue).items@),
        old(queue).items@.len() == 0 ==> final(queue).items@.len() == 0 && (r matches Err(err) && (err
            is Empty <==> old(queue).sender_alive)),
        final(queue).capacity == old(queue).capacity,
        final(queue).sender_alive == old(queue).sender_alive,
        final(queue).receiver_alive == old(queue).receiver_alive,
{
    if old(queue).items@.len() > 0 {
        assert(seq![old(queue).items@[0]] + old(queue).items@.skip(1) =~= old(queue).items@);
    }
}

/// A sender that goes away leaves what it sent, and a receiver takes it along.
pub proof fn law_ends_go_away<T>(queue: &mut SyncQueue<T>, size: usize, other: SyncQueue<T>, n: usize)
    ensures
        call_ensures(SyncQueue::<T>::drop_sender, (queue,), ()) ==> final(queue).items@ == old(queue).items@ && !final(queue).sender_alive && final(queue).receiver_alive == old(queue).receiver_alive && final(queue).capacity == old(queue).capacity,
        call_ensures(SyncQueue::<T>::drop_receiver, (queue,), ()) ==> final(queue).items@.len() == 0
            && !final(queue).receiver_alive && final(queue).sender_alive == old(queue).sender_alive
            && final(queue).capacity == old(queue).capacity,
        call_ensures(SyncQueue::<T>::new, (size,), other) ==> other.items@.len() == 0
            && other.capacity == size && other.sender_alive && other.receiver_alive,
        call_ensures(SyncQueue::<T>::len, (&other,), n) ==> n == other.items@.len(),
{
}

} // verus!
