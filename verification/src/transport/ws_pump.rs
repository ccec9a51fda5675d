//! What the reader and the writer of one peer's WebSocket do next.
//!
//! Reading, writing and waiting happen elsewhere; here every step is decided.

use crate::protocol::data::{app_message_of, stream_of};
use crate::transport::codec::{
    decode_message, decoded, encode_outbound, encoded, DecodeError, DecodeResult, Decoded,
    InboundFrame, OutboundFrame, OutboundFrameView,
};
use crate::transport::control::{
    AckId, InboundMessage, OutboundControl, OutboundView, PeerId, RoutedInbound, SessionControl, WriteSignal,
    WriteSignalWake,
};
use crate::transport::outbox::{OutboxView, PeerOutbox};
use crate::transport::queue::TryRecvError;
use vstd::prelude::*;

verus! {

/// Where a writer is in its work.
#[derive(Debug, Clone, Copy, PartialEq, Eq)]
pub enum WriterPhase {
    /// Asleep, or about to be.
    Waiting,
    /// Emptying the control queue.
    Control,
    /// Emptying the audio queue.
    Audio,
    /// A frame from the control queue is being written.
    SendingControl { close: bool },
    /// A frame from the audio queue is being written.
    SendingAudio,
    /// Done.
    Finished,
}

/// The state of one peer's writer. After every wake-up it empties the control
/// queue, then the audio queue, and goes round again as long as there was
/// something to do.
#[derive(Debug, Clone, Copy, PartialEq, Eq)]
pub struct WsWriter {
    pub phase: WriterPhase,
    /// Whether this round found anything in either queue.
    pub progressed: bool,
    pub control_queue_closed: bool,
    pub audio_queue_closed: bool,
    pub close_frame_sent: bool,
    pub force_closed: bool,
}

/// What a writer wants to have done.
#[derive(Debug, PartialEq, Eq)]
pub enum WriterAction {
    /// Nothing; take the next step.
    Continue,
    /// Sleep until the signal is raised.
    Wait,
    /// Write this frame and report with [`WsWriter::sent`].
    Send(OutboundFrame),
    /// Tell whoever asked how many audio frames were thrown away.
    Cleared { ack: AckId, cleared: usize },
    /// End. The socket is closed in an orderly way only if nothing else ended it.
    Finish { close_socket: bool },
}

/// A [`WriterAction`] as a value.
pub enum WriterActionView {
    Continue,
    Wait,
    Send(OutboundFrameView),
    Cleared { ack: AckId, cleared: nat },
    Finish { close_socket: bool },
}

impl View for WriterAction {
    type V = WriterActionView;

    open spec fn view(&self) -> WriterActionView {
        match self {
            WriterAction::Continue => WriterActionView::Continue,
            WriterAction::Wait => WriterActionView::Wait,
            WriterAction::Send(frame) => WriterActionView::Send(frame@),
            WriterAction::Cleared { ack, cleared } => WriterActionView::Cleared {
                ack: *ack,
                cleared: *cleared as nat,
            },
            WriterAction::Finish { close_socket } => WriterActionView::Finish {
                close_socket: *close_socket,
            },
        }
    }
}

/// The writer once it was told to end.
pub open spec fn forced(w: WsWriter) -> WsWriter {
    WsWriter { phase: WriterPhase::Finished, force_closed: true, ..w }
}

/// The end of a round: the writer ends when both queues have, goes round again
/// when there was something to do, and goes to sleep otherwise.
pub open spec fn round_ended(w: WsWriter) -> (WsWriter, WriterActionView) {
    if w.control_queue_closed && w.audio_queue_closed {
        (
            WsWriter { phase: WriterPhase::Finished, ..w },
            WriterActionView::Finish { close_socket: true },
        )
    } else if w.progressed {
        (
            WsWriter { phase: WriterPhase::Control, progressed: false, ..w },
            WriterActionView::Continue,
        )
    } else {
        (WsWriter { phase: WriterPhase::Waiting, ..w }, WriterActionView::Continue)
    }
}

/// A step of a writer that waits.
pub open spec fn waiting_step(w: WsWriter, o: OutboxView) -> (
    WsWriter,
    OutboxView,
    WriterActionView,
) {
    if o.signal.closed {
        (forced(w), o, WriterActionView::Finish { close_socket: false })
    } else if o.signal.pending > 0 {
        (
            WsWriter { phase: WriterPhase::Control, progressed: false, ..w },
            OutboxView { signal: WriteSignal { pending: 0, closed: false }, ..o },
            WriterActionView::Continue,
        )
    } else {
        (w, o, WriterActionView::Wait)
    }
}

/// A step of a writer that empties the control queue.
pub open spec fn control_step(w: WsWriter, o: OutboxView) -> (
    WsWriter,
    OutboxView,
    WriterActionView,
) {
    if w.control_queue_closed {
        (WsWriter { phase: WriterPhase::Audio, ..w }, o, WriterActionView::Continue)
    } else if o.signal.closed {
        (forced(w), o, WriterActionView::Finish { close_socket: false })
    } else if o.control.items.len() == 0 {
        (
            WsWriter {
                phase: WriterPhase::Audio,
                control_queue_closed: !o.control.sender_alive,
                ..w
            },
            o,
            WriterActionView::Continue,
        )
    } else {
        let rest = OutboxView { control: o.control.pop(), ..o };
        match o.control.items[0] {
            OutboundView::ClearAudioQueue(ack) => (
                WsWriter {
                    progressed: true,
                    audio_queue_closed: w.audio_queue_closed || !o.audio.sender_alive,
                    ..w
                },
                OutboxView { audio: o.audio.cleared(), ..rest },
                WriterActionView::Cleared { ack, cleared: o.audio.items.len() },
            ),
            message => (
                WsWriter {
                    phase: WriterPhase::SendingControl { close: message is Close },
                    progressed: true,
                    ..w
                },
                rest,
                WriterActionView::Send(encoded(message)),
            ),
        }
    }
}

/// A step of a writer that empties the audio queue.
pub open spec fn audio_step(w: WsWriter, o: OutboxView) -> (
    WsWriter,
    OutboxView,
    WriterActionView,
) {
    if w.audio_queue_closed {
        let (next, action) = round_ended(w);
        (next, o, action)
    } else if o.signal.closed {
        (forced(w), o, WriterActionView::Finish { close_socket: false })
    } else if o.audio.items.len() == 0 {
        let (next, action) = round_ended(
            WsWriter { audio_queue_closed: !o.audio.sender_alive, ..w },
        );
        (next, o, action)
    } else {
        (
            WsWriter { phase: WriterPhase::SendingAudio, progressed: true, ..w },
            OutboxView { audio: o.audio.pop(), ..o },
            WriterActionView::Send(OutboundFrameView::Binary(o.audio.items[0])),
        )
    }
}

/// One step of a writer: its next state, what is left in the outbox, and what it
/// wants to have done.
pub open spec fn writer_step(w: WsWriter, o: OutboxView) -> (
    WsWriter,
    OutboxView,
    WriterActionView,
) {
    match w.phase {
        WriterPhase::Waiting => waiting_step(w, o),
        WriterPhase::Control => control_step(w, o),
        WriterPhase::Audio => audio_step(w, o),
        _ => (
            w,
            o,
            WriterActionView::Finish { close_socket: !w.force_closed && !w.close_frame_sent },
        ),
    }
}

/// A frame of this writer is being written.
pub open spec fn is_sending(w: WsWriter) -> bool {
    w.phase is SendingControl || w.phase is SendingAudio
}

/// The writer after the frame was written, or could not be.
pub open spec fn after_sent(w: WsWriter, written: bool) -> WsWriter {
    if !written {
        WsWriter { phase: WriterPhase::Finished, ..w }
    } else if w.phase == (WriterPhase::SendingControl { close: true }) {
        WsWriter { phase: WriterPhase::Finished, close_frame_sent: true, ..w }
    } else if w.phase is SendingControl {
        WsWriter { phase: WriterPhase::Control, ..w }
    } else {
        WsWriter { phase: WriterPhase::Audio, ..w }
    }
}

/// A queue that the writer has seen the end of is at its end: nobody writes to it
/// any more, and nothing is left in it.
pub open spec fn knows_its_queues(w: WsWriter, o: OutboxView) -> bool {
    &&& w.control_queue_closed ==> !o.control.sender_alive && o.control.items.len() == 0
    &&& w.audio_queue_closed ==> !o.audio.sender_alive && o.audio.items.len() == 0
}

impl WsWriter {
    /// A writer that has not been woken yet.
    pub fn new() -> (r: Self)
        ensures
            forall|o: OutboxView| knows_its_queues(r, o),
            r == (WsWriter {
                phase: WriterPhase::Waiting,
                progressed: false,
                control_queue_closed: false,
                audio_queue_closed: false,
                close_frame_sent: false,
                force_closed: false,
            }),
    {
        WsWriter {
            phase: WriterPhase::Waiting,
            progressed: false,
            control_queue_closed: false,
            audio_queue_closed: false,
            close_frame_sent: false,
            force_closed: false,
        }
    }

    fn end_round(&mut self) -> (r: WriterAction)
        ensures
            (*final(self), r@) == round_ended(*old(self)),
    {
        if self.control_queue_closed && self.audio_queue_closed {
            self.phase = WriterPhase::Finished;
            WriterAction::Finish { close_socket: true }
        } else if self.progressed {
            self.phase = WriterPhase::Control;
            self.progressed = false;
            WriterAction::Continue
        } else {
            self.phase = WriterPhase::Waiting;
            WriterAction::Continue
        }
    }

    fn force(&mut self) -> (r: WriterAction)
        ensures
            *final(self) == forced(*old(self)),
            r@ == (WriterActionView::Finish { close_socket: false }),
    {
        self.force_closed = true;
        self.phase = WriterPhase::Finished;
        WriterAction::Finish { close_socket: false }
    }

    /// Takes one step; see [`writer_step`].
    pub fn step(&mut self, outbox: &mut PeerOutbox) -> (r: WriterAction)
        requires
            old(outbox).wf(),
            !is_sending(*old(self)),
        ensures
            final(outbox).wf(),
            (*final(self), final(outbox)@, r@) == writer_step(*old(self), old(outbox)@),
            knows_its_queues(*old(self), old(outbox)@) ==> knows_its_queues(
                *final(self),
                final(outbox)@,
            ),
    {
        match self.phase {
            WriterPhase::Waiting => match outbox.write_signal.wait() {
                None => WriterAction::Wait,
                Some(WriteSignalWake::Closed) => self.force(),
                Some(WriteSignalWake::Notified) => {
                    self.phase = WriterPhase::Control;
                    self.progressed = false;
                    WriterAction::Continue
                },
            },
            WriterPhase::Control => self.step_control(outbox),
            WriterPhase::Audio => self.step_audio(outbox),
            _ => WriterAction::Finish { close_socket: !self.force_closed && !self.close_frame_sent },
        }
    }

    fn step_control(&mut self, outbox: &mut PeerOutbox) -> (r: WriterAction)
        requires
            old(outbox).wf(),
            old(self).phase is Control,
        ensures
            final(outbox).wf(),
            (*final(self), final(outbox)@, r@) == control_step(*old(self), old(outbox)@),
    {
        if self.control_queue_closed {
            self.phase = WriterPhase::Audio;
            return WriterAction::Continue;
        }
        if outbox.write_signal.is_closed() {
            return self.force();
        }
        let ghost before = outbox@;
        match outbox.control_sender.sender.try_recv() {
            Ok(control) => {
                assert(before.control.items[0] == control@);
                assert(outbox@.control.items =~= before.control.items.skip(1));
                self.progressed = true;
                match control {
                    OutboundControl::ClearAudioQueue(ack) => {
                        let cleared = self.clear_audio(outbox);
                        WriterAction::Cleared { ack, cleared }
                    },
                    control => {
                        let close = match &control {
                            OutboundControl::Close => true,
                            _ => false,
                        };
                        self.phase = WriterPhase::SendingControl { close };
                        WriterAction::Send(encode_outbound(control))
                    },
                }
            },
            Err(TryRecvError::Empty) => {
                self.phase = WriterPhase::Audio;
                WriterAction::Continue
            },
            Err(TryRecvError::Disconnected) => {
                self.control_queue_closed = true;
                self.phase = WriterPhase::Audio;
                WriterAction::Continue
            },
        }
    }

    /// Throws away all audio that waits and counts it.
    fn clear_audio(&mut self, outbox: &mut PeerOutbox) -> (r: usize)
        requires
            old(outbox).wf(),
        ensures
            final(outbox).wf(),
            r == old(outbox)@.audio.items.len(),
            final(outbox)@ == (OutboxView { audio: old(outbox)@.audio.cleared(), ..old(outbox)@ }),
            *final(self) == (WsWriter {
                audio_queue_closed: old(self).audio_queue_closed
                    || !old(outbox)@.audio.sender_alive,
                ..*old(self)
            }),
    {
        let mut cleared: usize = 0;
        loop
            invariant_except_break
                *self == *old(self),
            invariant
                outbox.wf(),
                cleared + outbox@.audio.items.len() == old(outbox)@.audio.items.len(),
                old(outbox)@.audio.items.len() <= usize::MAX,
                outbox.control_sender == old(outbox).control_sender,
                outbox.write_signal == old(outbox).write_signal,
                outbox.audio_sender.sender.same_ends(&old(outbox).audio_sender.sender),
            ensures
                outbox.wf(),
                outbox@.audio.items.len() == 0,
                cleared == old(outbox)@.audio.items.len(),
                outbox.control_sender == old(outbox).control_sender,
                outbox.write_signal == old(outbox).write_signal,
                outbox.audio_sender.sender.same_ends(&old(outbox).audio_sender.sender),
                *self == (WsWriter {
                    audio_queue_closed: old(self).audio_queue_closed
                        || !old(outbox)@.audio.sender_alive,
                    ..*old(self)
                }),
            decreases outbox@.audio.items.len(),
        {
            match outbox.audio_sender.sender.try_recv() {
                Ok(_) => {
                    cleared += 1;
                },
                Err(TryRecvError::Empty) => {
                    break;
                },
                Err(TryRecvError::Disconnected) => {
                    self.audio_queue_closed = true;
                    break;
                },
            }
        }
        assert(outbox@.audio.items =~= Seq::empty());
        cleared
    }

    fn step_audio(&mut self, outbox: &mut PeerOutbox) -> (r: WriterAction)
        requires
            old(outbox).wf(),
            old(self).phase is Audio,
        ensures
            final(outbox).wf(),
            (*final(self), final(outbox)@, r@) == audio_step(*old(self), old(outbox)@),
    {
        if self.audio_queue_closed {
            return self.end_round();
        }
        if outbox.write_signal.is_closed() {
            return self.force();
        }
        let ghost before = outbox@;
        match outbox.audio_sender.sender.try_recv() {
            Ok(bytes) => {
                assert(before.audio.items[0] == bytes@);
                assert(outbox@.audio.items =~= before.audio.items.skip(1));
                self.progressed = true;
                self.phase = WriterPhase::SendingAudio;
                WriterAction::Send(encode_outbound(OutboundControl::Binary(bytes)))
            },
            Err(TryRecvError::Empty) => self.end_round(),
            Err(TryRecvError::Disconnected) => {
                self.audio_queue_closed = true;
                self.end_round()
            },
        }
    }

    /// The frame of the last step was written, or could not be. A frame that
    /// could not be written ends the writer, and so does a close frame.
    pub fn sent(&mut self, written: bool)
        requires
            is_sending(*old(self)),
        ensures
            *final(self) == after_sent(*old(self), written),
    {
        if !written {
            self.phase = WriterPhase::Finished;
            return;
        }
        match self.phase {
            WriterPhase::SendingControl { close: true } => {
                self.close_frame_sent = true;
                self.phase = WriterPhase::Finished;
            },
            WriterPhase::SendingControl { close: false } => {
                self.phase = WriterPhase::Control;
            },
            _ => {
                self.phase = WriterPhase::Audio;
            },
        }
    }
}

/// What a writer sends is the oldest message of one of its queues, and that is
/// all that leaves the outbox: nothing is sent twice, reordered or made up.
pub proof fn law_writer_sends_the_oldest(w: WsWriter, o: OutboxView)
    ensures
        writer_step(w, o).2 matches WriterActionView::Send(frame) ==> {
            let after = writer_step(w, o).1;
            ||| o.control.items.len() > 0 && frame == encoded(o.control.items[0]) && after == (
            OutboxView { control: o.control.pop(), ..o })
            ||| o.audio.items.len() > 0 && frame == OutboundFrameView::Binary(o.audio.items[0])
                && after == (OutboxView { audio: o.audio.pop(), ..o })
        },
{
}

/// Control messages go before audio: while one waits and the writer was not told
/// to end, a writer that empties the control queue sends no audio and does not
/// go on to the audio queue.
pub proof fn law_control_goes_before_audio(w: WsWriter, o: OutboxView)
    requires
        w.phase is Control,
        !w.control_queue_closed,
        !o.signal.closed,
        o.control.items.len() > 0,
    ensures
        !(writer_step(w, o).0.phase is Audio),
        writer_step(w, o).1.control == o.control.pop(),
        !(o.control.items[0] is ClearAudioQueue) ==> writer_step(w, o).1.audio == o.audio
            && writer_step(w, o).2 == WriterActionView::Send(encoded(o.control.items[0])),
{
}

/// The frames that a writer sends within so many steps, if nothing is queued
/// meanwhile and every frame can be written.
pub open spec fn frames_sent(w: WsWriter, o: OutboxView, steps: nat) -> Seq<OutboundFrameView>
    decreases steps,
{
    if steps == 0 {
        Seq::empty()
    } else {
        let (next, left, action) = writer_step(w, o);
        match action {
            WriterActionView::Send(frame) => seq![frame] + frames_sent(
                after_sent(next, true),
                left,
                (steps - 1) as nat,
            ),
            WriterActionView::Continue => frames_sent(next, left, (steps - 1) as nat),
            WriterActionView::Cleared { .. } => frames_sent(next, left, (steps - 1) as nat),
            WriterActionView::Wait => Seq::empty(),
            WriterActionView::Finish { .. } => Seq::empty(),
        }
    }
}

/// The frames of some audio.
pub open spec fn audio_frames(audio: Seq<Seq<u8>>) -> Seq<OutboundFrameView> {
    audio.map_values(|bytes: Seq<u8>| OutboundFrameView::Binary(bytes))
}

/// What comes to be written of the queues: the control messages in order, then the
/// audio in order. Nothing is written after a close; a request to clear the audio
/// is not written itself, and takes the audio that waits away.
pub open spec fn written(control: Seq<OutboundView>, audio: Seq<Seq<u8>>) -> Seq<OutboundFrameView>
    decreases control.len(),
{
    if control.len() == 0 {
        audio_frames(audio)
    } else {
        match control[0] {
            OutboundView::Close => seq![OutboundFrameView::Close],
            OutboundView::ClearAudioQueue(_) => written(control.skip(1), Seq::empty()),
            message => seq![encoded(message)] + written(control.skip(1), audio),
        }
    }
}

/// Nobody has notified the writer since it last woke, nor told it to end.
pub open spec fn is_quiet(o: OutboxView) -> bool {
    !o.signal.closed && o.signal.pending == 0
}

proof fn lemma_idle_writer_sends_nothing(w: WsWriter, o: OutboxView, steps: nat)
    requires
        !is_sending(w),
        is_quiet(o),
        o.control.items.len() == 0,
        o.audio.items.len() == 0,
    ensures
        frames_sent(w, o, steps) == Seq::<OutboundFrameView>::empty(),
    decreases steps,
{
    if steps > 0 {
        let (next, left, action) = writer_step(w, o);
        assert(left == o);
        if action is Continue {
            lemma_idle_writer_sends_nothing(next, left, (steps - 1) as nat);
        }
    }
}

proof fn lemma_audio_is_sent_in_order(w: WsWriter, o: OutboxView, steps: nat)
    requires
        w.phase is Audio,
        w.audio_queue_closed ==> o.audio.items.len() == 0,
        is_quiet(o),
        o.control.items.len() == 0,
        steps >= o.audio.items.len(),
    ensures
        frames_sent(w, o, steps) == audio_frames(o.audio.items),
    decreases o.audio.items.len(),
{
    if o.audio.items.len() == 0 {
        lemma_idle_writer_sends_nothing(w, o, steps);
        assert(audio_frames(o.audio.items) =~= Seq::empty());
    } else {
        let (next, left, _) = writer_step(w, o);
        lemma_audio_is_sent_in_order(after_sent(next, true), left, (steps - 1) as nat);
        assert(audio_frames(o.audio.items) =~= seq![
            OutboundFrameView::Binary(o.audio.items[0]),
        ] + audio_frames(left.audio.items));
    }
}

proof fn lemma_control_is_sent_in_order(w: WsWriter, o: OutboxView, steps: nat)
    requires
        w.phase is Control,
        knows_its_queues(w, o),
        is_quiet(o),
        steps >= o.control.items.len() + o.audio.items.len() + 1,
    ensures
        frames_sent(w, o, steps) == written(o.control.items, o.audio.items),
    decreases o.control.items.len(),
{
    let (next, left, _) = writer_step(w, o);
    let fewer = (steps - 1) as nat;
    if o.control.items.len() == 0 {
        lemma_audio_is_sent_in_order(next, left, fewer);
    } else {
        match o.control.items[0] {
            OutboundView::Close => {
                law_nothing_follows_a_close_frame(next, left);
                assert(frames_sent(after_sent(next, true), left, fewer) =~= Seq::empty());
                assert(frames_sent(w, o, steps) =~= seq![OutboundFrameView::Close]);
            },
            OutboundView::ClearAudioQueue(_) => {
                lemma_control_is_sent_in_order(next, left, fewer);
                assert(left.audio.items =~= Seq::empty());
            },
            _ => {
                lemma_control_is_sent_in_order(after_sent(next, true), left, fewer);
            },
        }
    }
}

/// A writer never takes a queue to be at its end that is not: neither its own steps
/// change that, nor what is sent while there is a sender, nor the end of the senders
/// or of the receivers.
pub proof fn law_writer_knows_its_queues(
    w: WsWriter,
    o: OutboxView,
    control: OutboundView,
    audio: Seq<u8>,
    written: bool,
)
    requires
        knows_its_queues(w, o),
    ensures
        knows_its_queues(writer_step(w, o).0, writer_step(w, o).1),
        is_sending(w) ==> knows_its_queues(after_sent(w, written), o),
        o.control.sender_alive ==> knows_its_queues(w, o.with_control(control)),
        o.audio.sender_alive ==> knows_its_queues(w, o.with_audio(audio)),
        knows_its_queues(
            w,
            OutboxView { control: o.control.released(), audio: o.audio.released(), ..o },
        ),
        knows_its_queues(
            w,
            OutboxView { control: o.control.cleared(), audio: o.audio.cleared(), ..o },
        ),
{
}

/// A writer that is woken writes what waits, once and in order: first the control
/// messages, up to a close if there is one, then the audio, without what waited
/// when it was to be cleared. It takes a step for each message and two more, and
/// writes nothing else however long it goes on.
pub proof fn law_woken_writer_sends_everything(w: WsWriter, o: OutboxView, steps: nat)
    requires
        w.phase is Waiting,
        knows_its_queues(w, o),
        !o.signal.closed,
        o.signal.pending > 0,
        steps >= o.control.items.len() + o.audio.items.len() + 2,
    ensures
        frames_sent(w, o, steps) == written(o.control.items, o.audio.items),
{
    let (next, left, _) = writer_step(w, o);
    lemma_control_is_sent_in_order(next, left, (steps - 1) as nat);
}

/// Without a close or a request to clear the audio, everything that waits is
/// written.
pub proof fn law_nothing_is_lost_without_a_close_or_a_clear(
    control: Seq<OutboundView>,
    audio: Seq<Seq<u8>>,
)
    requires
        forall|i: int|
            0 <= i < control.len() ==> (#[trigger] control[i] is Text || control[i] is Binary),
    ensures
        written(control, audio) == control.map_values(|m: OutboundView| encoded(m)) + audio_frames(
            audio,
        ),
    decreases control.len(),
{
    if control.len() == 0 {
        assert(control.map_values(|m: OutboundView| encoded(m)) + audio_frames(audio)
            =~= audio_frames(audio));
    } else {
        assert(control[0] is Text || control[0] is Binary);
        let rest = control.skip(1);
        assert forall|i: int| 0 <= i < rest.len() implies (#[trigger] rest[i] is Text
            || rest[i] is Binary) by {
            assert(rest[i] == control[i + 1]);
        }
        law_nothing_is_lost_without_a_close_or_a_clear(rest, audio);
        assert(control.map_values(|m: OutboundView| encoded(m)) + audio_frames(audio)
            =~= seq![encoded(control[0])] + (rest.map_values(|m: OutboundView| encoded(m))
            + audio_frames(audio)));
    }
}

/// A request to clear the audio is answered with the number of frames that
/// waited, after which none do.
pub proof fn law_clearing_reports_what_was_dropped(w: WsWriter, o: OutboxView, ack: AckId)
    requires
        w.phase is Control,
        !w.control_queue_closed,
        !o.signal.closed,
        o.control.items.len() > 0,
        o.control.items[0] == OutboundView::ClearAudioQueue(ack),
    ensures
        writer_step(w, o).2 == (WriterActionView::Cleared { ack, cleared: o.audio.items.len() }),
        writer_step(w, o).1.audio.items.len() == 0,
        writer_step(w, o).0.phase is Control,
{
}

/// A writer sleeps only while its signal is down.
pub proof fn law_writer_sleeps_only_without_signal(w: WsWriter, o: OutboxView)
    ensures
        writer_step(w, o).2 is Wait ==> !o.signal.is_raised() && writer_step(w, o).0 == w
            && writer_step(w, o).1 == o,
{
}

/// Once it was told to end, a writer that waits ends with its next step, without
/// another frame and without an orderly close.
pub proof fn law_closed_signal_ends_the_writer(w: WsWriter, o: OutboxView)
    requires
        o.signal.closed,
        w.phase is Waiting || (w.phase is Control && !w.control_queue_closed) || (w.phase is Audio
            && !w.audio_queue_closed),
    ensures
        writer_step(w, o) == (forced(w), o, WriterActionView::Finish { close_socket: false }),
{
}

/// A close frame is the last thing that a writer sends, and the socket is not
/// closed a second time.
pub proof fn law_nothing_follows_a_close_frame(w: WsWriter, o: OutboxView)
    requires
        w.phase == (WriterPhase::SendingControl { close: true }),
    ensures
        after_sent(w, true).phase is Finished,
        writer_step(after_sent(w, true), o) == (
            after_sent(w, true),
            o,
            WriterActionView::Finish { close_socket: false },
        ),
{
}

/// A writer whose queues have both come to an end closes the socket in an
/// orderly way.
pub proof fn law_writer_ends_with_its_queues(w: WsWriter, o: OutboxView)
    requires
        w.phase is Audio,
        w.control_queue_closed,
        w.audio_queue_closed,
    ensures
        writer_step(w, o).2 == (WriterActionView::Finish { close_socket: true }),
        writer_step(w, o).0.phase is Finished,
{
}

/// What the reader of a WebSocket met with.
#[derive(Debug, PartialEq, Eq)]
pub enum ReaderEvent {
    Frame(InboundFrame),
    /// The stream failed.
    Failed,
    /// The stream ended.
    Ended,
}

/// What a reader does about it.
#[derive(Debug, PartialEq, Eq)]
pub enum ReaderAction {
    /// Hand this to the router and read on; if the router is gone, end.
    Forward(SessionControl),
    /// Read on.
    Ignore,
    /// End in good order.
    Exit,
    /// End because a frame meant nothing that is known.
    Undecodable(DecodeError),
    /// End because the stream failed.
    Broken,
}

/// Whether `action` is what a reader of `peer_id` does about `event`.
pub open spec fn reader_answers(peer_id: PeerId, event: ReaderEvent, action: ReaderAction) -> bool {
    match event {
        ReaderEvent::Frame(frame) => match decoded(frame) {
            Decoded::Message(message) => action matches ReaderAction::Forward(
                SessionControl::Inbound(inbound),
            ) && inbound.peer_id == peer_id && inbound.message@ == message,
            Decoded::Ignore => action is Ignore,
            Decoded::Close => action is Exit,
            Decoded::Failed(err) => action == ReaderAction::Undecodable(err),
        },
        ReaderEvent::Failed => action is Broken,
        ReaderEvent::Ended => action is Exit,
    }
}

/// Decides what the reader of `peer_id` does next. Every message goes to the
/// router together with the peer it came from.
pub fn read_step(peer_id: PeerId, event: ReaderEvent) -> (r: ReaderAction)
    ensures
        reader_answers(peer_id, event, r),
{
    match event {
        ReaderEvent::Frame(frame) => match decode_message(frame) {
            Ok(DecodeResult::Message(message)) => ReaderAction::Forward(
                SessionControl::Inbound(RoutedInbound { peer_id, message }),
            ),
            Ok(DecodeResult::Ignore) => ReaderAction::Ignore,
            Ok(DecodeResult::Close) => ReaderAction::Exit,
            Err(err) => ReaderAction::Undecodable(err),
        },
        ReaderEvent::Failed => ReaderAction::Broken,
        ReaderEvent::Ended => ReaderAction::Exit,
    }
}

/// The means to end a peer's reader and writer by force. It works once.
#[derive(Debug, Clone, Copy, PartialEq, Eq)]
pub struct WsPeerHandle {
    /// The reader and the writer run and can be ended.
    pub close_state: bool,
}

impl WsPeerHandle {
    /// A handle that cannot end anything yet.
    pub fn new() -> (r: Self)
        ensures
            !r.close_state,
    {
        WsPeerHandle { close_state: false }
    }

    /// The reader and the writer were started. `false` means that they already
    /// had been.
    pub fn install_close_state(&mut self) -> (r: bool)
        ensures
            r == !old(self).close_state,
            final(self).close_state,
    {
        if self.close_state {
            return false;
        }
        self.close_state = true;
        true
    }

    /// Ends the peer: its writer is told to end, and `true` asks the caller to
    /// give it a moment and then to abort both tasks. A second call does nothing.
    pub fn close(&mut self, write_signal: &mut WriteSignal) -> (r: bool)
        ensures
            r == old(self).close_state,
            !final(self).close_state,
            *final(write_signal) == if r {
                (WriteSignal { closed: true, ..*old(write_signal) })
            } else {
                *old(write_signal)
            },
    {
        if !self.close_state {
            return false;
        }
        self.close_state = false;
        write_signal.close();
        true
    }
}

/// Audio is written frame by frame, each as its bytes.
pub proof fn law_audio_is_written_frame_by_frame(audio: Seq<Seq<u8>>)
    ensures
        audio_frames(audio).len() == audio.len(),
        forall|i: int|
            0 <= i < audio.len() ==> #[trigger] audio_frames(audio)[i] == OutboundFrameView::Binary(
                audio[i],
            ),
        written(Seq::empty(), audio) == audio_frames(audio),
{
}

/// A close cuts off everything behind it, and a request to clear the audio takes the audio away and
/// leaves the messages behind it.
pub proof fn law_close_and_clear_cut_off(
    before: Seq<OutboundView>,
    after: Seq<OutboundView>,
    audio: Seq<Seq<u8>>,
    ack: AckId,
)
    requires
        forall|i: int|
            0 <= i < before.len() ==> (#[trigger] before[i] is Text || before[i] is Binary),
    ensures
        written(before.push(OutboundView::Close) + after, audio) == written(before, Seq::empty()).push(
            OutboundFrameView::Close,
        ),
        written(before.push(OutboundView::ClearAudioQueue(ack)) + after, audio) == written(
            before,
            Seq::empty(),
        ) + written(after, Seq::empty()),
    decreases before.len(),
{
    let close = before.push(OutboundView::Close) + after;
    let clear = before.push(OutboundView::ClearAudioQueue(ack)) + after;
    if before.len() == 0 {
        assert(audio_frames(Seq::empty()) =~= Seq::empty());
        assert(written(before, Seq::empty()) =~= Seq::empty());
        assert(clear.skip(1) =~= after);
        assert(written(close, audio) =~= seq![OutboundFrameView::Close]);
        assert(written(before, Seq::empty()).push(OutboundFrameView::Close)
            =~= seq![OutboundFrameView::Close]);
        assert(written(before, Seq::empty()) + written(after, Seq::empty()) =~= written(
            after,
            Seq::empty(),
        ));
    } else {
        assert(before[0] is Text || before[0] is Binary);
        let rest = before.skip(1);
        assert forall|i: int| 0 <= i < rest.len() implies (#[trigger] rest[i] is Text
            || rest[i] is Binary) by {
            assert(rest[i] == before[i + 1]);
        }
        law_close_and_clear_cut_off(rest, after, audio, ack);
        assert(close.skip(1) =~= rest.push(OutboundView::Close) + after);
        assert(clear.skip(1) =~= rest.push(OutboundView::ClearAudioQueue(ack)) + after);
        assert(close[0] == before[0] && clear[0] == before[0]);
        assert(written(close, audio) =~= written(before, Seq::empty()).push(
            OutboundFrameView::Close,
        ));
        assert(written(clear, audio) =~= written(before, Seq::empty()) + written(
            after,
            Seq::empty(),
        ));
    }
}

/// A writer that finds a queue empty goes on and remembers whether more can come; the outbox stays
/// as it is. After both queues it begins again if there was anything, and sleeps otherwise.
pub proof fn law_writer_goes_round(w: WsWriter, o: OutboxView)
    requires
        !o.signal.closed,
    ensures
        w.phase is Control && !w.control_queue_closed && o.control.items.len() == 0 ==> {
            let (next, left, action) = writer_step(w, o);
            &&& next.phase is Audio && left == o && action is Continue
            &&& next.control_queue_closed == !o.control.sender_alive
            &&& next.audio_queue_closed == w.audio_queue_closed && next.progressed == w.progressed
            &&& next.force_closed == w.force_closed && next.close_frame_sent == w.close_frame_sent
        },
        w.phase is Control && w.control_queue_closed ==> {
            let (next, left, action) = writer_step(w, o);
            left == o && action is Continue && next == (WsWriter { phase: WriterPhase::Audio, ..w })
        },
        w.phase is Audio && o.audio.items.len() == 0 ==> {
            let (next, left, action) = writer_step(w, o);
            let over = w.control_queue_closed && (w.audio_queue_closed || !o.audio.sender_alive);
            &&& left == o
            &&& next.audio_queue_closed == (w.audio_queue_closed || !o.audio.sender_alive)
            &&& next.control_queue_closed == w.control_queue_closed
            &&& next.force_closed == w.force_closed && next.close_frame_sent == w.close_frame_sent
            &&& over ==> next.phase is Finished && action == (WriterActionView::Finish {
                close_socket: true,
            })
            &&& !over && w.progressed ==> next.phase is Control && !next.progressed && action is Continue
            &&& !over && !w.progressed ==> next.phase is Waiting && action is Continue
        },
        w.phase is Audio && !w.audio_queue_closed && o.audio.items.len() > 0 ==> {
            let (next, left, action) = writer_step(w, o);
            &&& action == WriterActionView::Send(OutboundFrameView::Binary(o.audio.items[0]))
            &&& left == (OutboxView { audio: o.audio.pop(), ..o })
            &&& next == (WsWriter { phase: WriterPhase::SendingAudio, progressed: true, ..w })
        },
        w.phase is Waiting && o.signal.pending > 0 ==> {
            let (next, left, action) = writer_step(w, o);
            &&& next == (WsWriter { phase: WriterPhase::Control, progressed: false, ..w })
            &&& left.control == o.control && left.audio == o.audio && !left.signal.is_raised()
            &&& action is Continue
        },
        w.phase is Waiting && o.signal.pending == 0 ==> writer_step(w, o) == (
            w,
            o,
            WriterActionView::Wait,
        ),
        w.phase is Finished ==> writer_step(w, o) == (
            w,
            o,
            WriterActionView::Finish { close_socket: !w.force_closed && !w.close_frame_sent },
        ),
{
}

/// A frame that could not be written ends the writer; after one that was, it goes on with the queue
/// that the frame came from.
pub proof fn law_writer_goes_on_after_a_frame(w: WsWriter)
    ensures
        after_sent(w, false) == (WsWriter { phase: WriterPhase::Finished, ..w }),
        w.phase == (WriterPhase::SendingControl { close: false }) ==> after_sent(w, true) == (
        WsWriter { phase: WriterPhase::Control, ..w }),
        w.phase == WriterPhase::SendingAudio ==> after_sent(w, true) == (WsWriter {
            phase: WriterPhase::Audio,
            ..w
        }),
        w.phase == (WriterPhase::SendingControl { close: true }) ==> after_sent(w, true) == (
        WsWriter { phase: WriterPhase::Finished, close_frame_sent: true, ..w }),
        is_sending(w) <==> (w.phase is SendingControl || w.phase is SendingAudio),
{
}

/// What a writer wants to have done is what it says, frame by frame and number by number.
pub proof fn law_contents_of_actions(frame: OutboundFrame, ack: AckId, cleared: usize, close: bool)
    ensures
        WriterAction::Continue@ == WriterActionView::Continue,
        WriterAction::Wait@ == WriterActionView::Wait,
        WriterAction::Send(frame)@ == WriterActionView::Send(frame@),
        (WriterAction::Cleared { ack, cleared })@ == (WriterActionView::Cleared {
            ack,
            cleared: cleared as nat,
        }),
        (WriterAction::Finish { close_socket: close })@ == (WriterActionView::Finish {
            close_socket: close,
        }),
{
}

/// A reader hands every message on, together with the peer that it came from, and reads on over
/// pings, pongs and raw frames; it ends with the stream, with a close, and with anything that it
/// cannot read.
pub proof fn law_reader_hands_every_message_on(peer_id: PeerId, event: ReaderEvent, action: ReaderAction)
    requires
        reader_answers(peer_id, event, action),
    ensures
        match event {
            ReaderEvent::Frame(InboundFrame::Text(Some(json))) => match app_message_of(json@) {
                Some(message) => action matches ReaderAction::Forward(
                    SessionControl::Inbound(inbound),
                ) && inbound.peer_id == peer_id && inbound.message@ == message,
                None => action == ReaderAction::Undecodable(DecodeError::Text),
            },
            ReaderEvent::Frame(InboundFrame::Binary(Some(json))) => match stream_of(json@) {
                Some(stream) => action matches ReaderAction::Forward(
                    SessionControl::Inbound(inbound),
                ) && inbound.peer_id == peer_id && (inbound.message matches InboundMessage::Stream(
                    read,
                ) && read@ == stream),
                None => action == ReaderAction::Undecodable(DecodeError::Binary),
            },
            ReaderEvent::Frame(InboundFrame::Text(None)) => action == ReaderAction::Undecodable(
                DecodeError::Text,
            ),
            ReaderEvent::Frame(InboundFrame::Binary(None)) => action == ReaderAction::Undecodable(
                DecodeError::Binary,
            ),
            ReaderEvent::Frame(InboundFrame::Close) => action is Exit,
            ReaderEvent::Frame(_) => action is Ignore,
            ReaderEvent::Failed => action is Broken,
            ReaderEvent::Ended => action is Exit,
        },
{
}

/// The writer takes the steps of the laws about it, with the outbox that it is given, and so does the
/// reader with what it met.
pub proof fn law_writer_and_reader_take_their_steps(
    writer: &mut WsWriter,
    outbox: &mut PeerOutbox,
    action: WriterAction,
    was_written: bool,
    fresh: WsWriter,
    peer_id: PeerId,
    event: ReaderEvent,
    answer: ReaderAction,
)
    ensures
        call_ensures(WsWriter::step, (writer, outbox), action) ==> (
            *final(writer),
            final(outbox)@,
            action@,
        ) == writer_step(*old(writer), old(outbox)@),
        call_ensures(WsWriter::sent, (writer, was_written), ()) ==> *final(writer) == after_sent(
            *old(writer),
            was_written,
        ),
        call_ensures(WsWriter::new, (), fresh) ==> fresh.phase is Waiting && !fresh.progressed
            && !fresh.control_queue_closed && !fresh.audio_queue_closed && !fresh.close_frame_sent
            && !fresh.force_closed,
        call_ensures(read_step, (peer_id, event), answer) ==> reader_answers(peer_id, event, answer),
{
}

/// A handle ends its peer once: the first close after it was installed tells the writer to end, and a
/// second one does nothing.
pub proof fn law_handle_works_once(
    handle: &mut WsPeerHandle,
    signal: &mut WriteSignal,
    fresh: WsPeerHandle,
    r: bool,
)
    ensures
        call_ensures(WsPeerHandle::new, (), fresh) ==> !fresh.close_state,
        call_ensures(WsPeerHandle::install_close_state, (handle,), r) ==> final(handle).close_state
            && (r <==> !old(handle).close_state),
        call_ensures(WsPeerHandle::close, (handle, signal), r) ==> {
            &&& r <==> old(handle).close_state
            &&& !final(handle).close_state
            &&& final(signal).closed == (old(handle).close_state || old(signal).closed)
            &&& final(signal).pending == old(signal).pending
        },
{
}

/// A control message that is taken up has the writer go round again, and changes nothing else of it:
/// one that is sent has it wait for the frame, of which it knows whether it is the close frame.
pub proof fn law_control_message_is_taken_up(w: WsWriter, o: OutboxView)
    requires
        w.phase is Control,
        !w.control_queue_closed,
        !o.signal.closed,
        o.control.items.len() > 0,
    ensures
        ({
            let (next, left, action) = writer_step(w, o);
            &&& next.progressed
            &&& !next.control_queue_closed && next.force_closed == w.force_closed
                && next.close_frame_sent == w.close_frame_sent
            &&& left.signal == o.signal
            &&& o.control.items[0] is ClearAudioQueue ==> next.phase is Control
                && next.audio_queue_closed == (w.audio_queue_closed || !o.audio.sender_alive)
                && left.audio.sender_alive == o.audio.sender_alive && left.audio.receiver_alive
                == o.audio.receiver_alive && left.audio.capacity == o.audio.capacity
            &&& !(o.control.items[0] is ClearAudioQueue) ==> next.phase == (
            WriterPhase::SendingControl { close: o.control.items[0] is Close })
                && next.audio_queue_closed == w.audio_queue_closed
        }),
        forced(w) == (WsWriter { phase: WriterPhase::Finished, force_closed: true, ..w }),
{
}

} // verus!
