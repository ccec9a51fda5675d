//! Everything that waits to be written to one peer.

use crate::transport::control::{
    NotifyingSender, OutboundControl, OutboundView, WriteSignal,
};
use crate::transport::queue::{SendError, SyncQueue, TrySendError};
use vstd::prelude::*;

verus! {

/// How many control messages may wait for one peer.
pub const CONTROL_QUEUE_CAPACITY: usize = 256;

/// How many audio frames may wait for one peer.
pub const AUDIO_QUEUE_CAPACITY: usize = 128;

/// A queue as a value: what waits in it, how much may, and which ends are left.
pub struct QueueView<T> {
    pub items: Seq<T>,
    pub capacity: usize,
    pub sender_alive: bool,
    pub receiver_alive: bool,
}

impl<T> QueueView<T> {
    /// There is room and somebody who reads.
    pub open spec fn accepts(self) -> bool {
        self.receiver_alive && self.items.len() < self.capacity
    }

    /// The queue with one more item at its end.
    pub open spec fn push(self, item: T) -> QueueView<T> {
        QueueView { items: self.items.push(item), ..self }
    }

    /// The queue without its oldest item.
    pub open spec fn pop(self) -> QueueView<T> {
        QueueView { items: self.items.skip(1), ..self }
    }

    /// The queue with nothing in it.
    pub open spec fn cleared(self) -> QueueView<T> {
        QueueView { items: Seq::empty(), ..self }
    }

    /// The queue once its sending side is gone.
    pub open spec fn released(self) -> QueueView<T> {
        QueueView { sender_alive: false, ..self }
    }
}

/// What waits to be written to one peer, as a value.
pub struct OutboxView {
    pub control: QueueView<OutboundView>,
    pub audio: QueueView<Seq<u8>>,
    pub signal: WriteSignal,
}

impl OutboxView {
    /// The outbox after `message` was queued.
    pub open spec fn with_control(self, message: OutboundView) -> OutboxView {
        OutboxView {
            control: self.control.push(message),
            signal: self.signal.notified(),
            ..self
        }
    }

    /// The outbox after an audio frame was queued.
    pub open spec fn with_audio(self, frame: Seq<u8>) -> OutboxView {
        OutboxView { audio: self.audio.push(frame), signal: self.signal.notified(), ..self }
    }
}

/// An empty outbox of the given capacities.
pub open spec fn empty_outbox(control_capacity: usize, audio_capacity: usize) -> OutboxView {
    OutboxView {
        control: QueueView {
            items: Seq::empty(),
            capacity: control_capacity,
            sender_alive: true,
            receiver_alive: true,
        },
        audio: QueueView {
            items: Seq::empty(),
            capacity: audio_capacity,
            sender_alive: true,
            receiver_alive: true,
        },
        signal: WriteSignal { pending: 0, closed: false },
    }
}

/// The control queue of a peer as a value.
pub open spec fn control_view(sender: &NotifyingSender<OutboundControl>) -> QueueView<OutboundView> {
    QueueView {
        items: sender@.map_values(|m: OutboundControl| m@),
        capacity: sender.sender.capacity,
        sender_alive: sender.sender.sender_alive,
        receiver_alive: sender.sender.receiver_alive,
    }
}

/// The audio queue of a peer as a value.
pub open spec fn audio_view(sender: &NotifyingSender<Vec<u8>>) -> QueueView<Seq<u8>> {
    QueueView {
        items: sender@.map_values(|frame: Vec<u8>| frame@),
        capacity: sender.sender.capacity,
        sender_alive: sender.sender.sender_alive,
        receiver_alive: sender.sender.receiver_alive,
    }
}

/// The two queues towards one peer and the signal that its writer sleeps on.
pub struct PeerOutbox {
    pub control_sender: NotifyingSender<OutboundControl>,
    pub audio_sender: NotifyingSender<Vec<u8>>,
    pub write_signal: WriteSignal,
}

impl View for PeerOutbox {
    type V = OutboxView;

    open spec fn view(&self) -> OutboxView {
        OutboxView {
            control: control_view(&self.control_sender),
            audio: audio_view(&self.audio_sender),
            signal: self.write_signal,
        }
    }
}

impl PeerOutbox {
    pub open spec fn wf(&self) -> bool {
        self.control_sender.wf() && self.audio_sender.wf()
    }

    /// An empty outbox of the given capacities.
    pub fn new(control_capacity: usize, audio_capacity: usize) -> (r: Self)
        requires
            control_capacity > 0,
            audio_capacity > 0,
        ensures
            r.wf(),
            r@ == empty_outbox(control_capacity, audio_capacity),
    {
        let r = PeerOutbox {
            control_sender: NotifyingSender::new(SyncQueue::new(control_capacity)),
            audio_sender: NotifyingSender::new(SyncQueue::new(audio_capacity)),
            write_signal: WriteSignal::new(),
        };
        assert(r@.control.items =~= Seq::empty());
        assert(r@.audio.items =~= Seq::empty());
        r
    }

    /// Queues a control message. A full queue hands it back to be sent again.
    pub fn send_control(&mut self, message: OutboundControl) -> (r: Result<
        (),
        SendError<OutboundControl>,
    >)
        requires
            old(self).wf(),
        ensures
            final(self).wf(),
            old(self)@.control.accepts() ==> r is Ok && final(self)@ == old(self)@.with_control(
                message@,
            ),
            !old(self)@.control.accepts() ==> final(self)@ == old(self)@,
            !old(self)@.control.receiver_alive ==> r == Err::<(), SendError<OutboundControl>>(
                SendError::Disconnected(message),
            ),
            old(self)@.control.receiver_alive && !old(self)@.control.accepts() ==> r == Err::<
                (),
                SendError<OutboundControl>,
            >(SendError::Waits(message)),
    {
        let r = self.control_sender.send(message, &mut self.write_signal);
        proof {
            if r is Ok {
                assert(self@.control.items =~= old(self)@.control.items.push(message@));
            }
        }
        r
    }

    /// Queues a control message if there is room right now.
    pub fn try_send_control(&mut self, message: OutboundControl) -> (r: Result<
        (),
        TrySendError<OutboundControl>,
    >)
        requires
            old(self).wf(),
        ensures
            final(self).wf(),
            old(self)@.control.accepts() ==> r is Ok && final(self)@ == old(self)@.with_control(
                message@,
            ),
            !old(self)@.control.accepts() ==> final(self)@ == old(self)@,
            !old(self)@.control.receiver_alive ==> r == Err::<(), TrySendError<OutboundControl>>(
                TrySendError::Disconnected(message),
            ),
            old(self)@.control.receiver_alive && !old(self)@.control.accepts() ==> r == Err::<
                (),
                TrySendError<OutboundControl>,
            >(TrySendError::Full(message)),
    {
        let r = self.control_sender.try_send(message, &mut self.write_signal);
        proof {
            if r is Ok {
                assert(self@.control.items =~= old(self)@.control.items.push(message@));
            }
        }
        r
    }

    /// Queues an audio frame if there is room right now.
    pub fn try_send(&mut self, frame: Vec<u8>) -> (r: Result<(), TrySendError<Vec<u8>>>)
        requires
            old(self).wf(),
        ensures
            final(self).wf(),
            old(self)@.audio.accepts() ==> r is Ok && final(self)@ == old(self)@.with_audio(frame@),
            !old(self)@.audio.accepts() ==> final(self)@ == old(self)@,
            !old(self)@.audio.receiver_alive ==> r == Err::<(), TrySendError<Vec<u8>>>(
                TrySendError::Disconnected(frame),
            ),
            old(self)@.audio.receiver_alive && !old(self)@.audio.accepts() ==> r == Err::<
                (),
                TrySendError<Vec<u8>>,
            >(TrySendError::Full(frame)),
    {
        let r = self.audio_sender.try_send(frame, &mut self.write_signal);
        proof {
            if r is Ok {
                assert(self@.audio.items =~= old(self)@.audio.items.push(frame@));
            }
        }
        r
    }

    /// Both senders go away; what is queued is still there for the writer.
    pub fn release(&mut self)
        requires
            old(self).wf(),
        ensures
            final(self).wf(),
            final(self)@ == (OutboxView {
                control: old(self)@.control.released(),
                audio: old(self)@.audio.released(),
                signal: old(self)@.signal.notified().notified(),
            }),
    {
        self.control_sender.release(&mut self.write_signal);
        self.audio_sender.release(&mut self.write_signal);
    }

    /// The writer is gone: nothing that is or will be queued is ever written.
    pub fn drop_receivers(&mut self)
        requires
            old(self).wf(),
        ensures
            final(self).wf(),
            final(self)@ == (OutboxView {
                control: QueueView { receiver_alive: false, ..old(self)@.control.cleared() },
                audio: QueueView { receiver_alive: false, ..old(self)@.audio.cleared() },
                ..old(self)@
            }),
    {
        self.control_sender.sender.drop_receiver();
        self.audio_sender.sender.drop_receiver();
        assert(self@.control.items =~= Seq::empty());
        assert(self@.audio.items =~= Seq::empty());
    }
}

/// A queue takes an item in exactly while it is read and has room, whatever the item; it is put
/// behind all others, and the oldest leaves first. Clearing leaves nothing, and the end of the
/// senders leaves everything.
pub proof fn law_queue_keeps_its_order<T>(queue: QueueView<T>, item: T)
    ensures
        queue.accepts() <==> queue.receiver_alive && queue.items.len() < queue.capacity,
        queue.push(item) == (QueueView {
            items: queue.items + seq![item],
            capacity: queue.capacity,
            sender_alive: queue.sender_alive,
            receiver_alive: queue.receiver_alive,
        }),
        queue.items.len() > 0 ==> seq![queue.items[0]] + queue.pop().items == queue.items,
        queue.pop().capacity == queue.capacity && queue.pop().sender_alive == queue.sender_alive
            && queue.pop().receiver_alive == queue.receiver_alive,
        queue.cleared() == (QueueView { items: Seq::empty(), ..queue }),
        queue.released() == (QueueView { sender_alive: false, ..queue }),
{
    assert(queue.items.push(item) =~= queue.items + seq![item]);
    if queue.items.len() > 0 {
        assert(seq![queue.items[0]] + queue.items.skip(1) =~= queue.items);
    }
}

/// What is queued stands in one queue alone and is announced; the other queue stays as it is.
pub proof fn law_queued_message_is_announced(
    outbox: OutboxView,
    message: OutboundView,
    frame: Seq<u8>,
)
    ensures
        outbox.with_control(message).control == outbox.control.push(message),
        outbox.with_control(message).audio == outbox.audio,
        outbox.with_control(message).signal.is_raised(),
        outbox.with_audio(frame).audio == outbox.audio.push(frame),
        outbox.with_audio(frame).control == outbox.control,
        outbox.with_audio(frame).signal.is_raised(),
        outbox.signal.closed == outbox.with_control(message).signal.closed,
        outbox.signal.closed == outbox.with_audio(frame).signal.closed,
{
}

/// The contents of an outbox are those of its queues, item by item, and its signal.
pub proof fn law_contents_of_an_outbox(outbox: PeerOutbox)
    ensures
        outbox@.control.items.len() == outbox.control_sender.sender.items@.len(),
        forall|i: int|
            0 <= i < outbox@.control.items.len() ==> #[trigger] outbox@.control.items[i]
                == outbox.control_sender.sender.items@[i]@,
        outbox@.control.capacity == outbox.control_sender.sender.capacity,
        outbox@.control.sender_alive == outbox.control_sender.sender.sender_alive,
        outbox@.control.receiver_alive == outbox.control_sender.sender.receiver_alive,
        outbox@.audio.items.len() == outbox.audio_sender.sender.items@.len(),
        forall|i: int|
            0 <= i < outbox@.audio.items.len() ==> #[trigger] outbox@.audio.items[i]
                == outbox.audio_sender.sender.items@[i]@,
        outbox@.audio.capacity == outbox.audio_sender.sender.capacity,
        outbox@.audio.sender_alive == outbox.audio_sender.sender.sender_alive,
        outbox@.audio.receiver_alive == outbox.audio_sender.sender.receiver_alive,
        outbox@.signal == outbox.write_signal,
{
}

/// A new outbox is empty, both ends of its queues are alive, and it has the room that was asked for.
pub proof fn law_new_outbox_is_empty(control: usize, audio: usize)
    ensures
        empty_outbox(control, audio).control.items.len() == 0,
        empty_outbox(control, audio).audio.items.len() == 0,
        empty_outbox(control, audio).control.capacity == control,
        empty_outbox(control, audio).audio.capacity == audio,
        control > 0 ==> empty_outbox(control, audio).control.accepts(),
        audio > 0 ==> empty_outbox(control, audio).audio.accepts(),
        empty_outbox(control, audio).control.sender_alive && empty_outbox(
            control,
            audio,
        ).audio.sender_alive,
        !empty_outbox(control, audio).signal.is_raised(),
{
}

/// A control message is queued behind all others and announced, whatever it is and however many wait,
/// as long as there is room and a writer; the audio is not touched. Otherwise it comes back and
/// nothing changes.
pub proof fn law_control_message_is_queued_or_comes_back(
    outbox: &mut PeerOutbox,
    message: OutboundControl,
    r: Result<(), SendError<OutboundControl>>,
    hasty: Result<(), TrySendError<OutboundControl>>,
)
    requires
        call_ensures(PeerOutbox::send_control, (outbox, message), r) || call_ensures(
            PeerOutbox::try_send_control,
            (outbox, message),
            hasty,
        ),
    ensures
        ({
            let queue = old(outbox)@.control;
            let room = queue.receiver_alive && queue.items.len() < queue.capacity;
            &&& room ==> {
                &&& final(outbox)@.control.items == queue.items + seq![message@]
                &&& final(outbox)@.audio == old(outbox)@.audio
                &&& final(outbox)@.signal.is_raised()
            }
            &&& !room ==> final(outbox)@ == old(outbox)@
            &&& call_ensures(PeerOutbox::send_control, (outbox, message), r) ==> (r is Ok <==> room)
                && (r matches Err(err) ==> err == if queue.receiver_alive {
                SendError::Waits(message)
            } else {
                SendError::Disconnected(message)
            })
            &&& call_ensures(PeerOutbox::try_send_control, (outbox, message), hasty) ==> (hasty is Ok
                <==> room) && (hasty matches Err(err) ==> err == if queue.receiver_alive {
                TrySendError::Full(message)
            } else {
                TrySendError::Disconnected(message)
            })
        }),
{
    let queue = old(outbox)@.control;
    assert(queue.items.push(message@) =~= queue.items + seq![message@]);
}

/// So is a frame of audio, and the control messages are not touched.
pub proof fn law_audio_frame_is_queued_or_comes_back(
    outbox: &mut PeerOutbox,
    frame: Vec<u8>,
    r: Result<(), TrySendError<Vec<u8>>>,
)
    requires
        call_ensures(PeerOutbox::try_send, (outbox, frame), r),
    ensures
        ({
            let queue = old(outbox)@.audio;
            &&& r is Ok <==> queue.receiver_alive && queue.items.len() < queue.capacity
            &&& r is Ok ==> {
                &&& final(outbox)@.audio.items == queue.items + seq![frame@]
                &&& final(outbox)@.control == old(outbox)@.control
                &&& final(outbox)@.signal.is_raised()
            }
            &&& r matches Err(err) ==> final(outbox)@ == old(outbox)@ && err == if queue.receiver_alive {
                TrySendError::Full(frame)
            } else {
                TrySendError::Disconnected(frame)
            }
        }),
{
    let queue = old(outbox)@.audio;
    assert(queue.items.push(frame@) =~= queue.items + seq![frame@]);
}

/// An outbox that is released keeps what waits and wakes its writer; one without a writer keeps
/// nothing.
pub proof fn law_outbox_is_given_up(
    outbox: &mut PeerOutbox,
    control: usize,
    audio: usize,
    fresh: PeerOutbox,
)
    ensures
        call_ensures(PeerOutbox::release, (outbox,), ()) ==> {
            &&& final(outbox)@.control.items == old(outbox)@.control.items
            &&& final(outbox)@.audio.items == old(outbox)@.audio.items
            &&& !final(outbox)@.control.sender_alive && !final(outbox)@.audio.sender_alive
            &&& final(outbox)@.signal.is_raised()
        },
        call_ensures(PeerOutbox::drop_receivers, (outbox,), ()) ==> {
            &&& final(outbox)@.control.items.len() == 0 && final(outbox)@.audio.items.len() == 0
            &&& !final(outbox)@.control.receiver_alive && !final(outbox)@.audio.receiver_alive
            &&& final(outbox)@.signal == old(outbox)@.signal
        },
        call_ensures(PeerOutbox::new, (control, audio), fresh) ==> {
            &&& fresh@.control.items.len() == 0 && fresh@.control.capacity == control
            &&& fresh@.audio.items.len() == 0 && fresh@.audio.capacity == audio
            &&& fresh@.control.receiver_alive && fresh@.audio.receiver_alive
        },
{
}

} // verus!
