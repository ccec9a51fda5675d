//! The vocabulary of a session: peers, the messages that go out to them, and
//! the signal that wakes a peer's writer.

use crate::protocol::data::{AppMessageView, Event, Request, Response, Stream};
use crate::transport::queue::{SendError, SyncQueue, TrySendError};
use vstd::prelude::*;

verus! {

/// The number that the supervisor gives to each peer it attaches. It means
/// nothing outside of this process.
pub type PeerId = u64;

/// Names one request to clear an audio queue, so that its answer finds its way
/// back to whoever asked.
pub type AckId = u64;

/// Where a peer came from.
#[derive(Debug, PartialEq, Eq)]
pub enum PeerSource {
    /// The peer connected to this machine's listener.
    Listener,
    /// This process connected to the peer.
    OutboundConnect { url: String },
}

impl Clone for PeerSource {
    fn clone(&self) -> (r: Self)
        ensures
            r == *self,
    {
        match self {
            PeerSource::Listener => PeerSource::Listener,
            PeerSource::OutboundConnect { url } => PeerSource::OutboundConnect { url: url.clone() },
        }
    }
}

impl PeerSource {
    /// Whether this process opened the connection.
    pub fn is_outbound(&self) -> (r: bool)
        ensures
            r == (*self is OutboundConnect),
    {
        match self {
            PeerSource::Listener => false,
            PeerSource::OutboundConnect { url: _ } => true,
        }
    }
}

/// Who gets an outgoing message.
#[derive(Debug, Clone, Copy, PartialEq, Eq, Hash)]
pub enum OutboundTarget {
    /// Every peer of the session.
    Broadcast,
    /// One peer, such as the one that asked.
    ToPeer(PeerId),
}

/// Something for a peer's writer to do.
#[derive(Debug, PartialEq, Eq)]
pub enum OutboundControl {
    /// An encoded event or response.
    Text(String),
    /// An encoded stream.
    Binary(Vec<u8>),
    /// Throw away the audio that was not sent yet and report how much it was.
    ClearAudioQueue(AckId),
    /// Begin the WebSocket closing handshake.
    Close,
}

/// The contents of an [`OutboundControl`].
pub enum OutboundView {
    Text(Seq<char>),
    Binary(Seq<u8>),
    ClearAudioQueue(AckId),
    Close,
}

impl View for OutboundControl {
    type V = OutboundView;

    open spec fn view(&self) -> OutboundView {
        match self {
            OutboundControl::Text(text) => OutboundView::Text(text@),
            OutboundControl::Binary(bytes) => OutboundView::Binary(bytes@),
            OutboundControl::ClearAudioQueue(ack) => OutboundView::ClearAudioQueue(*ack),
            OutboundControl::Close => OutboundView::Close,
        }
    }
}

impl Clone for OutboundControl {
    fn clone(&self) -> (r: Self)
        ensures
            r@ == self@,
    {
        match self {
            OutboundControl::Text(text) => OutboundControl::Text(text.clone()),
            OutboundControl::Binary(bytes) => {
                let copy = bytes.clone();
                assert(copy@ =~= bytes@);
                OutboundControl::Binary(copy)
            },
            OutboundControl::ClearAudioQueue(ack) => OutboundControl::ClearAudioQueue(*ack),
            OutboundControl::Close => OutboundControl::Close,
        }
    }
}

/// An outgoing message together with who gets it.
#[derive(Debug, Clone, PartialEq, Eq)]
pub struct RoutedOutbound {
    pub target: OutboundTarget,
    pub message: OutboundControl,
}

/// A message that a peer sent.
#[derive(Debug, PartialEq, Eq)]
pub enum InboundMessage {
    /// The peer wants a command carried out.
    Request(Request),
    /// An answer. Nothing is ever asked of a peer, so it is only looked at.
    Response(Response),
    /// A notification.
    Event(Event),
    /// A piece of a stream, such as audio to play.
    Stream(Stream),
}

impl View for InboundMessage {
    type V = AppMessageView;

    open spec fn view(&self) -> AppMessageView {
        match self {
            InboundMessage::Request(request) => AppMessageView::Request(request@),
            InboundMessage::Response(response) => AppMessageView::Response(response@),
            InboundMessage::Event(event) => AppMessageView::Event(event@),
            InboundMessage::Stream(stream) => AppMessageView::Stream(stream@),
        }
    }
}

/// An incoming message together with the peer that sent it.
#[derive(Debug, PartialEq, Eq)]
pub struct RoutedInbound {
    pub peer_id: PeerId,
    pub message: InboundMessage,
}

/// Everything that the router of a session is fed with.
#[derive(Debug, PartialEq, Eq)]
pub enum SessionControl {
    /// Something that a peer sent.
    Inbound(RoutedInbound),
    /// Something that this device has to say.
    Outbound(RoutedOutbound),
    /// The session ends.
    Close,
}

/// What woke a writer.
#[derive(Debug, Clone, Copy, PartialEq, Eq)]
pub enum WriteSignalWake {
    /// Something may have been queued.
    Notified,
    /// The writer has to end.
    Closed,
}

/// The one thing that a peer's writer sleeps on. Both of the peer's queues
/// notify it, because the writer always looks at both.
#[derive(Debug, Clone, Copy, PartialEq, Eq)]
pub struct WriteSignal {
    /// How often the writer was notified since it last woke; a coarse count.
    pub pending: usize,
    pub closed: bool,
}

impl WriteSignal {
    /// The signal after one more notification.
    pub open spec fn notified(self) -> WriteSignal {
        if self.closed || self.pending == usize::MAX {
            self
        } else {
            WriteSignal { pending: (self.pending + 1) as usize, closed: self.closed }
        }
    }

    /// A writer that waits on this signal does not sleep.
    pub open spec fn is_raised(self) -> bool {
        self.closed || self.pending > 0
    }

    /// Neither notified nor closed.
    pub fn new() -> (r: Self)
        ensures
            r == (WriteSignal { pending: 0, closed: false }),
    {
        WriteSignal { pending: 0, closed: false }
    }

    /// Records that something was queued. A closed signal stays as it is.
    pub fn notify(&mut self)
        ensures
            *final(self) == old(self).notified(),
            final(self).is_raised(),
    {
        if self.closed {
            return ;
        }
        self.pending = self.pending.saturating_add(1);
    }

    /// Tells the writer to end.
    pub fn close(&mut self)
        ensures
            *final(self) == (WriteSignal { pending: old(self).pending, closed: true }),
    {
        self.closed = true;
    }

    /// Whether the writer was told to end.
    pub fn is_closed(&self) -> (r: bool)
        ensures
            r == self.closed,
    {
        self.closed
    }

    /// What a writer that waits learns now, or `None` while it has to go on
    /// waiting. Being closed wins over every notification; waking on
    /// notifications takes all of them at once.
    pub fn wait(&mut self) -> (r: Option<WriteSignalWake>)
        ensures
            r is Some <==> old(self).is_raised(),
            old(self).closed ==> r == Some(WriteSignalWake::Closed) && *final(self) == *old(self),
            !old(self).closed && old(self).pending > 0 ==> r == Some(WriteSignalWake::Notified)
                && *final(self) == (WriteSignal { pending: 0, closed: false }),
            !old(self).is_raised() ==> *final(self) == *old(self),
    {
        if self.closed {
            return Some(WriteSignalWake::Closed);
        }
        if self.pending == 0 {
            return None;
        }
        self.pending = 0;
        Some(WriteSignalWake::Notified)
    }
}

/// The sending side of one of a peer's queues. Whatever it manages to queue, it
/// announces to the peer's writer.
pub struct NotifyingSender<T> {
    pub sender: SyncQueue<T>,
}

impl<T> View for NotifyingSender<T> {
    type V = Seq<T>;

    open spec fn view(&self) -> Seq<T> {
        self.sender@
    }
}

impl<T> NotifyingSender<T> {
    pub open spec fn wf(&self) -> bool {
        self.sender.wf()
    }

    /// Wraps the sending side of a queue.
    pub fn new(sender: SyncQueue<T>) -> (r: Self)
        ensures
            r.sender == sender,
    {
        NotifyingSender { sender }
    }

    /// Queues `value` and wakes the writer. Where the queue is full the value
    /// comes back as [`SendError::Waits`]: the caller waits for room and sends
    /// it again. Only a value that was queued is announced.
    pub fn send(&mut self, value: T, write_signal: &mut WriteSignal) -> (r: Result<(), SendError<T>>)
        requires
            old(self).wf(),
        ensures
            final(self).wf(),
            final(self).sender.same_ends(&old(self).sender),
            !old(self).sender.receiver_alive ==> r == Err::<(), SendError<T>>(
                SendError::Disconnected(value),
            ) && final(self)@ == old(self)@ && *final(write_signal) == *old(write_signal),
            old(self).sender.receiver_alive && !old(self).sender.accepts() ==> r == Err::<
                (),
                SendError<T>,
            >(SendError::Waits(value)) && final(self)@ == old(self)@ && *final(write_signal) == *old(write_signal),
            old(self).sender.accepts() ==> r is Ok && final(self)@ == old(self)@.push(value)
                && *final(write_signal) == old(write_signal).notified() && final(write_signal).is_raised(),
    {
        match self.sender.try_send(value) {
            Ok(()) => {
                write_signal.notify();
                Ok(())
            },
            Err(TrySendError::Full(value)) => Err(SendError::Waits(value)),
            Err(TrySendError::Disconnected(value)) => Err(SendError::Disconnected(value)),
        }
    }

    /// Queues `value` if there is room for it right now, and wakes the writer.
    /// Only a value that was queued is announced.
    pub fn try_send(&mut self, value: T, write_signal: &mut WriteSignal) -> (r: Result<
        (),
        TrySendError<T>,
    >)
        requires
            old(self).wf(),
        ensures
            final(self).wf(),
            final(self).sender.same_ends(&old(self).sender),
            !old(self).sender.receiver_alive ==> r == Err::<(), TrySendError<T>>(
                TrySendError::Disconnected(value),
            ) && final(self)@ == old(self)@ && *final(write_signal) == *old(write_signal),
            old(self).sender.receiver_alive && !old(self).sender.accepts() ==> r == Err::<
                (),
                TrySendError<T>,
            >(TrySendError::Full(value)) && final(self)@ == old(self)@ && *final(write_signal)
                == *old(write_signal),
            old(self).sender.accepts() ==> r is Ok && final(self)@ == old(self)@.push(value)
                && *final(write_signal) == old(write_signal).notified() && final(write_signal).is_raised(),
    {
        match self.sender.try_send(value) {
            Ok(()) => {
                write_signal.notify();
                Ok(())
            },
            Err(err) => Err(err),
        }
    }

    /// The sender goes away. The writer is woken once more, so that it sees the
    /// end of the queue instead of sleeping for ever.
    pub fn release(&mut self, write_signal: &mut WriteSignal)
        requires
            old(self).wf(),
        ensures
            final(self).wf(),
            final(self)@ == old(self)@,
            !final(self).sender.sender_alive,
            final(self).sender.receiver_alive == old(self).sender.receiver_alive,
            final(self).sender.capacity == old(self).sender.capacity,
            *final(write_signal) == old(write_signal).notified(),
            final(write_signal).is_raised(),
    {
        self.sender.drop_sender();
        write_signal.notify();
    }
}

/// Once closed, a signal stays closed: no notification reopens it, and every
/// wait ends at once.
pub proof fn law_closed_signal_stays_closed(signal: WriteSignal)
    requires
        signal.closed,
    ensures
        signal.notified() == signal,
        signal.is_raised(),
{
}

/// No wake-up is lost: a signal that was notified stays raised under further
/// notifications until the writer takes them.
pub proof fn law_notification_is_not_lost(signal: WriteSignal)
    ensures
        signal.notified().is_raised(),
        signal.notified().notified().is_raised(),
{
}

/// A notification counts one more, as far as can be counted, and takes nothing back; a signal is
/// raised by any number of notifications, or by the end.
pub proof fn law_notifications_are_counted(signal: WriteSignal)
    ensures
        !signal.closed && signal.pending < usize::MAX ==> signal.notified().pending
            == signal.pending + 1,
        signal.notified().pending >= signal.pending,
        signal.notified().closed == signal.closed,
        signal.is_raised() <==> signal.closed || signal.pending != 0,
{
}

/// The contents of what goes out and comes in are all of it, as it is.
pub proof fn law_contents_of_messages(
    text: String,
    bytes: Vec<u8>,
    ack: AckId,
    request: Request,
    response: Response,
    event: Event,
    stream: Stream,
)
    ensures
        OutboundControl::Text(text)@ == OutboundView::Text(text@),
        OutboundControl::Binary(bytes)@ == OutboundView::Binary(bytes@),
        OutboundControl::ClearAudioQueue(ack)@ == OutboundView::ClearAudioQueue(ack),
        OutboundControl::Close@ == OutboundView::Close,
        InboundMessage::Request(request)@ == AppMessageView::Request(request@),
        InboundMessage::Response(response)@ == AppMessageView::Response(response@),
        InboundMessage::Event(event)@ == AppMessageView::Event(event@),
        InboundMessage::Stream(stream)@ == AppMessageView::Stream(stream@),
{
}

/// A notification raises a signal by one, a wait takes all of them at once, and a close outlasts both.
pub proof fn law_signal_is_raised_and_waited_for(
    signal: &mut WriteSignal,
    woken: Option<WriteSignalWake>,
    fresh: WriteSignal,
    closed: bool,
)
    ensures
        call_ensures(WriteSignal::notify, (signal,), ()) ==> final(signal).closed == old(signal).closed
            && final(signal).pending == if old(signal).closed || old(signal).pending == usize::MAX {
            old(signal).pending as int
        } else {
            old(signal).pending + 1
        },
        call_ensures(WriteSignal::close, (signal,), ()) ==> final(signal).closed && final(signal).pending == old(signal).pending,
        call_ensures(WriteSignal::wait, (signal,), woken) ==> {
            &&& old(signal).closed ==> woken == Some(WriteSignalWake::Closed) && *final(signal) == *old(signal)
            &&& !old(signal).closed && old(signal).pending > 0 ==> woken == Some(
                WriteSignalWake::Notified,
            ) && final(signal).pending == 0 && !final(signal).closed
            &&& !old(signal).closed && old(signal).pending == 0 ==> woken is None && *final(signal)
                == *old(signal)
        },
        call_ensures(WriteSignal::new, (), fresh) ==> fresh.pending == 0 && !fresh.closed,
        call_ensures(WriteSignal::is_closed, (&fresh,), closed) ==> closed == fresh.closed,
{
}

/// A sender that may wait queues a message whenever there is room, behind all others, and announces
/// it; a message that was not queued comes back and is not announced.
pub proof fn law_waiting_sender_announces_what_it_queued<T>(
    sender: &mut NotifyingSender<T>,
    value: T,
    signal: &mut WriteSignal,
    r: Result<(), SendError<T>>,
)
    requires
        call_ensures(NotifyingSender::<T>::send, (sender, value, signal), r),
    ensures
        ({
            let (before, after) = (old(sender).sender, final(sender).sender);
            &&& r is Ok <==> before.receiver_alive && before.items@.len() < before.capacity
            &&& r is Ok ==> after.items@ == before.items@ + seq![value] && final(signal).is_raised()
            &&& r matches Err(err) ==> after.items@ == before.items@ && *final(signal) == *old(signal)
                && err == if before.receiver_alive {
                SendError::Waits(value)
            } else {
                SendError::Disconnected(value)
            }
            &&& after.capacity == before.capacity && after.sender_alive == before.sender_alive
                && after.receiver_alive == before.receiver_alive
        }),
{
    assert(old(sender).sender.items@.push(value) =~= old(sender).sender.items@ + seq![value]);
}

/// A sender that does not wait does the same at once or not at all.
pub proof fn law_hasty_sender_announces_what_it_queued<T>(
    sender: &mut NotifyingSender<T>,
    value: T,
    signal: &mut WriteSignal,
    r: Result<(), TrySendError<T>>,
)
    requires
        call_ensures(NotifyingSender::<T>::try_send, (sender, value, signal), r),
    ensures
        ({
            let (before, after) = (old(sender).sender, final(sender).sender);
            &&& r is Ok <==> before.receiver_alive && before.items@.len() < before.capacity
            &&& r is Ok ==> after.items@ == before.items@ + seq![value] && final(signal).is_raised()
            &&& r matches Err(err) ==> after.items@ == before.items@ && *final(signal) == *old(signal)
                && err == if before.receiver_alive {
                TrySendError::Full(value)
            } else {
                TrySendError::Disconnected(value)
            }
            &&& after.capacity == before.capacity && after.sender_alive == before.sender_alive
                && after.receiver_alive == before.receiver_alive
        }),
{
    assert(old(sender).sender.items@.push(value) =~= old(sender).sender.items@ + seq![value]);
}

/// A sender that goes away wakes the writer and leaves what it sent.
pub proof fn law_released_sender_wakes_the_writer<T>(
    sender: &mut NotifyingSender<T>,
    signal: &mut WriteSignal,
    source: PeerSource,
    outbound: bool,
)
    ensures
        call_ensures(NotifyingSender::<T>::release, (sender, signal), ()) ==> {
            &&& final(sender).sender.items@ == old(sender).sender.items@
            &&& !final(sender).sender.sender_alive
            &&& final(sender).sender.receiver_alive == old(sender).sender.receiver_alive
            &&& final(sender).sender.capacity == old(sender).sender.capacity
            &&& final(signal).is_raised()
            &&& final(signal).closed == old(signal).closed
        },
        call_ensures(PeerSource::is_outbound, (&source,), outbound) ==> (outbound
            <==> source is OutboundConnect),
{
}

} // verus!
