//! Following a log file as it grows, disappears and comes back.
//!
//! The system calls happen elsewhere; here their results are read and the next
//! step is decided. The numbers are those of Linux.

use crate::text::{
    chars_of, is_white_space, law_lines_end_with_line_feeds, law_trim_takes_off_white_space,
    law_trimmed_text_is_a_piece, lemma_lines_nonempty, lines_inclusive, lines_with_ends,
    signed_decimal, signed_decimal_of, texts, trim, trimmed,
};
use vstd::prelude::*;

verus! {

pub const IN_MODIFY: u32 = 0x2;

pub const IN_ATTRIB: u32 = 0x4;

pub const IN_MOVED_TO: u32 = 0x80;

pub const IN_CREATE: u32 = 0x100;

pub const IN_DELETE_SELF: u32 = 0x400;

pub const IN_MOVE_SELF: u32 = 0x800;

pub const IN_Q_OVERFLOW: u32 = 0x4000;

pub const IN_IGNORED: u32 = 0x8000;

pub const POLLIN: i16 = 0x1;

pub const POLLERR: i16 = 0x8;

pub const POLLHUP: i16 = 0x10;

pub const POLLNVAL: i16 = 0x20;

pub const EINTR: i32 = 4;

pub const EBADF: i32 = 9;

pub const EAGAIN: i32 = 11;

pub const EINVAL: i32 = 22;

/// What a file is watched for: `IN_MODIFY`, `IN_MOVE_SELF`, `IN_DELETE_SELF` and
/// `IN_ATTRIB`.
pub const FILE_WATCH_MASK: u32 = 0xc06;

/// What a directory is watched for: `IN_CREATE`, `IN_MOVED_TO`, `IN_MOVE_SELF`
/// and `IN_DELETE_SELF`.
pub const DIRECTORY_WATCH_MASK: u32 = 0xd80;

/// The size of the fixed part of an event.
pub const EVENT_HEADER_LEN: usize = 16;

/// How many bytes of events are read at once.
pub const INOTIFY_BUFFER_LEN: usize = 65536;

/// The watch masks hold exactly what they are said to.
pub proof fn law_watch_masks()
    ensures
        FILE_WATCH_MASK == (IN_MODIFY | IN_MOVE_SELF | IN_DELETE_SELF | IN_ATTRIB),
        DIRECTORY_WATCH_MASK == (IN_CREATE | IN_MOVED_TO | IN_MOVE_SELF | IN_DELETE_SELF),
{
    assert(0xc06u32 == (0x2u32 | 0x800u32 | 0x400u32 | 0x4u32)) by (bit_vector);
    assert(0xd80u32 == (0x100u32 | 0x80u32 | 0x800u32 | 0x400u32)) by (bit_vector);
}

/// The order of the bytes of a number.
#[derive(Debug, Clone, Copy, PartialEq, Eq, Structural)]
pub enum ByteOrder {
    /// The lowest byte first.
    Little,
    /// The highest byte first.
    Big,
}

/// The number that four bytes stand for.
pub open spec fn u32_at(bytes: Seq<u8>, at: int, order: ByteOrder) -> int {
    match order {
        ByteOrder::Little => bytes[at] + 0x100 * bytes[at + 1] + 0x1_0000 * bytes[at + 2]
            + 0x100_0000 * bytes[at + 3],
        ByteOrder::Big => bytes[at + 3] + 0x100 * bytes[at + 2] + 0x1_0000 * bytes[at + 1]
            + 0x100_0000 * bytes[at],
    }
}

fn read_u32(bytes: &Vec<u8>, at: usize, order: ByteOrder) -> (r: u32)
    requires
        at + 4 <= bytes.len(),
    ensures
        r == u32_at(bytes@, at as int, order),
{
    let (a, b, c, d) = match order {
        ByteOrder::Little => (bytes[at], bytes[at + 1], bytes[at + 2], bytes[at + 3]),
        ByteOrder::Big => (bytes[at + 3], bytes[at + 2], bytes[at + 1], bytes[at]),
    };
    a as u32 + 0x100 * b as u32 + 0x1_0000 * c as u32 + 0x100_0000 * d as u32
}

/// Something that happened to a watched file or directory.
#[derive(Debug, PartialEq, Eq)]
pub struct InotifyEvent {
    pub mask: u32,
    /// The event as it was read: its fixed part and, behind it, the name that it
    /// is about, filled up with zeros.
    pub bytes: Vec<u8>,
}

/// An [`InotifyEvent`] as a value.
pub struct InotifyEventView {
    pub mask: u32,
    pub bytes: Seq<u8>,
}

impl View for InotifyEvent {
    type V = InotifyEventView;

    open spec fn view(&self) -> InotifyEventView {
        InotifyEventView { mask: self.mask, bytes: self.bytes@ }
    }
}

/// Whether a whole event begins at `at`.
pub open spec fn event_fits(bytes: Seq<u8>, at: int, order: ByteOrder) -> bool {
    at + EVENT_HEADER_LEN <= bytes.len() && at + EVENT_HEADER_LEN + u32_at(bytes, at + 12, order)
        <= bytes.len()
}

/// The event that begins at `at`.
pub open spec fn event_at(bytes: Seq<u8>, at: int, order: ByteOrder) -> InotifyEventView {
    InotifyEventView {
        mask: u32_at(bytes, at + 4, order) as u32,
        bytes: bytes.subrange(at, at + EVENT_HEADER_LEN + u32_at(bytes, at + 12, order)),
    }
}

/// The events that were read, one behind the other; what is no whole event ends
/// them.
pub open spec fn events_from(bytes: Seq<u8>, at: int, order: ByteOrder) -> Seq<InotifyEventView>
    decreases bytes.len() - at,
{
    if 0 <= at && event_fits(bytes, at, order) {
        seq![event_at(bytes, at, order)] + events_from(
            bytes,
            at + EVENT_HEADER_LEN + u32_at(bytes, at + 12, order),
            order,
        )
    } else {
        Seq::empty()
    }
}

/// The contents of a list of events.
pub open spec fn event_views(events: Seq<InotifyEvent>) -> Seq<InotifyEventView> {
    events.map_values(|e: InotifyEvent| e@)
}

/// Takes what was read apart into events; see [`events_from`].
pub fn parse_events(bytes: &Vec<u8>, order: ByteOrder) -> (r: Vec<InotifyEvent>)
    ensures
        event_views(r@) == events_from(bytes@, 0, order),
{
    let mut events: Vec<InotifyEvent> = Vec::new();
    let mut offset: usize = 0;
    assert(event_views(events@) + events_from(bytes@, 0, order) =~= events_from(bytes@, 0, order));
    while offset <= bytes.len() && EVENT_HEADER_LEN <= bytes.len() - offset
        invariant_except_break
            offset <= bytes@.len(),
            event_views(events@) + events_from(bytes@, offset as int, order) == events_from(
                bytes@,
                0,
                order,
            ),
        ensures
            event_views(events@) == events_from(bytes@, 0, order),
        decreases bytes@.len() - offset,
    {
        let mask = read_u32(bytes, offset + 4, order);
        let name_len = read_u32(bytes, offset + 12, order);
        let room: usize = bytes.len() - offset - EVENT_HEADER_LEN;
        if name_len as u64 > room as u64 {
            assert(events_from(bytes@, offset as int, order) == Seq::<InotifyEventView>::empty());
            assert(event_views(events@) + Seq::<InotifyEventView>::empty() =~= event_views(events@));
            break;
        }
        let end: usize = offset + EVENT_HEADER_LEN + name_len as usize;
        let mut event: Vec<u8> = Vec::new();
        let mut i: usize = offset;
        while i < end
            invariant
                offset <= i <= end <= bytes@.len(),
                event@ == bytes@.subrange(offset as int, i as int),
            decreases end - i,
        {
            event.push(bytes[i]);
            i += 1;
            assert(event@ =~= bytes@.subrange(offset as int, i as int));
        }
        let ghost before = event_views(events@);
        let event = InotifyEvent { mask, bytes: event };
        assert(event@ == event_at(bytes@, offset as int, order));
        events.push(event);
        proof {
            assert(event_views(events@) =~= before.push(event@));
            let rest = events_from(bytes@, end as int, order);
            assert(before.push(event@) + rest =~= before + (seq![event@] + rest));
        }
        offset = end;
    }
    events
}

/// The name that an event is about: what stands behind its fixed part, up to the
/// first zero.
pub open spec fn event_name(bytes: Seq<u8>) -> Seq<u8> {
    up_to_zero(bytes.skip(EVENT_HEADER_LEN as int))
}

/// Bytes up to, and without, the first zero.
pub open spec fn up_to_zero(bytes: Seq<u8>) -> Seq<u8>
    decreases bytes.len(),
{
    if bytes.len() == 0 || bytes[0] == 0 {
        Seq::empty()
    } else {
        seq![bytes[0]] + up_to_zero(bytes.skip(1))
    }
}

/// Whether an event is about the file of this name. An event without a name is
/// about no file.
pub fn event_name_matches(event_bytes: &Vec<u8>, target_file_name: &Vec<u8>) -> (r: bool)
    ensures
        r == (event_bytes@.len() > EVENT_HEADER_LEN && event_name(event_bytes@)
            == target_file_name@),
{
    if event_bytes.len() <= EVENT_HEADER_LEN {
        return false;
    }
    let ghost whole = event_bytes@.skip(EVENT_HEADER_LEN as int);
    let mut i: usize = EVENT_HEADER_LEN;
    let mut name: Vec<u8> = Vec::new();
    assert(name@ + up_to_zero(whole) =~= up_to_zero(whole));
    while i < event_bytes.len() && event_bytes[i] != 0
        invariant
            EVENT_HEADER_LEN <= i <= event_bytes@.len(),
            name@ + up_to_zero(event_bytes@.skip(i as int)) == up_to_zero(whole),
        decreases event_bytes@.len() - i,
    {
        proof {
            let rest = event_bytes@.skip(i as int);
            assert(rest[0] == event_bytes@[i as int]);
            assert(rest.skip(1) =~= event_bytes@.skip(i + 1));
            assert(name@ + (seq![rest[0]] + up_to_zero(rest.skip(1))) =~= name@.push(rest[0])
                + up_to_zero(rest.skip(1)));
        }
        name.push(event_bytes[i]);
        i += 1;
    }
    assert(name@ + Seq::<u8>::empty() =~= name@);
    assert(name@ == event_name(event_bytes@));
    same_bytes(&name, target_file_name)
}

fn same_bytes(a: &Vec<u8>, b: &Vec<u8>) -> (r: bool)
    ensures
        r == (a@ == b@),
{
    if a.len() != b.len() {
        return false;
    }
    let mut i: usize = 0;
    while i < a.len()
        invariant
            i <= a@.len(),
            a@.len() == b@.len(),
            forall|j: int| 0 <= j < i ==> a@[j] == b@[j],
        decreases a@.len() - i,
    {
        if a[i] != b[i] {
            return false;
        }
        i += 1;
    }
    assert(a@ =~= b@);
    true
}

/// How a round of watching ended.
#[derive(Debug, Clone, Copy, PartialEq, Eq, Structural)]
pub enum MonitorLoopResult {
    /// Open the file again, or wait for it.
    Reopen,
    /// The monitor was told to end.
    Closed,
    /// The monitor cannot go on.
    Stop,
}

/// What an event about the watched file asks for.
#[derive(Debug, Clone, Copy, PartialEq, Eq, Structural)]
pub enum FileEventAction {
    /// The file is gone, or about to be.
    Reopen,
    /// Look whether the file was cut off, if `check_reset` says so; and then, if
    /// `modified` says so, look once more and read what is new.
    Continue { check_reset: bool, modified: bool },
}

/// Whether the answer to an event depends on the file still being there.
pub open spec fn asks_existence(mask: u32) -> bool {
    mask & IN_IGNORED == 0 && mask & IN_MOVE_SELF == 0 && mask & IN_DELETE_SELF == 0 && mask
        & IN_ATTRIB != 0
}

/// What an event about the watched file asks for: a file that moved, was deleted
/// or is no longer watched is opened again.
pub open spec fn file_event(mask: u32, present: bool) -> FileEventAction {
    if mask & IN_IGNORED != 0 || mask & IN_MOVE_SELF != 0 || mask & IN_DELETE_SELF != 0 {
        FileEventAction::Reopen
    } else if mask & IN_ATTRIB != 0 && !present {
        FileEventAction::Reopen
    } else {
        FileEventAction::Continue {
            check_reset: mask & IN_ATTRIB != 0,
            modified: mask & IN_MODIFY != 0,
        }
    }
}

/// Whether an event says that events were lost.
pub fn queue_overflowed(mask: u32) -> (r: bool)
    ensures
        r == (mask & IN_Q_OVERFLOW != 0),
{
    mask & IN_Q_OVERFLOW != 0
}

/// See [`asks_existence`].
pub fn needs_existence(mask: u32) -> (r: bool)
    ensures
        r == asks_existence(mask),
{
    mask & IN_IGNORED == 0 && mask & IN_MOVE_SELF == 0 && mask & IN_DELETE_SELF == 0 && mask
        & IN_ATTRIB != 0
}

/// See [`file_event`]; `present` only counts where [`needs_existence`] says so.
pub fn watch_file_event(mask: u32, present: bool) -> (r: FileEventAction)
    ensures
        r == file_event(mask, present),
        !asks_existence(mask) ==> r == file_event(mask, !present),
{
    if mask & IN_IGNORED != 0 {
        return FileEventAction::Reopen;
    }
    if mask & IN_MOVE_SELF != 0 || mask & IN_DELETE_SELF != 0 {
        return FileEventAction::Reopen;
    }
    if mask & IN_ATTRIB != 0 && !present {
        return FileEventAction::Reopen;
    }
    FileEventAction::Continue {
        check_reset: mask & IN_ATTRIB != 0,
        modified: mask & IN_MODIFY != 0,
    }
}

/// One step of dealing with events about the watched file.
#[derive(Debug, Clone, Copy, PartialEq, Eq, Structural)]
pub enum FileStep {
    /// Look whether the file is still there.
    CheckExists,
    /// Look whether the file was cut off, and begin anew if it was.
    CheckReset,
    /// Read the lines that are new.
    ReadLines,
    /// Open the file again, or wait for it; no event is looked at any more.
    Reopen,
}

/// How far the event at hand was dealt with.
#[derive(Debug, Clone, Copy, PartialEq, Eq, Structural)]
pub enum FileWatchPhase {
    /// Not at all.
    Next,
    /// It was asked whether the file is there.
    Asked,
    /// A change of attributes was dealt with.
    AttributesDone,
    /// The lines are about to be read.
    Reading,
    /// The file is to be opened again.
    Ended,
}

/// Goes through the events that were read at once, in order.
#[derive(Debug, PartialEq, Eq)]
pub struct FileWatch {
    pub masks: Vec<u32>,
    /// The event at hand.
    pub at: usize,
    pub phase: FileWatchPhase,
}

/// What is done about the event at hand, once it is known whether the file is
/// there.
pub open spec fn act_next(masks: Seq<u32>, at: int, present: bool) -> (
    int,
    FileWatchPhase,
    Option<FileStep>,
)
    decreases masks.len() - at, 0int,
    when 0 <= at < masks.len()
{
    match file_event(masks[at], present) {
        FileEventAction::Reopen => (at, FileWatchPhase::Ended, Some(FileStep::Reopen)),
        FileEventAction::Continue { check_reset, modified } => if check_reset {
            (at, FileWatchPhase::AttributesDone, Some(FileStep::CheckReset))
        } else if modified {
            (at, FileWatchPhase::Reading, Some(FileStep::CheckReset))
        } else {
            watch_next(masks, at + 1, FileWatchPhase::Next, present)
        },
    }
}

/// What is done next about the events, and where that leads; nothing if all of
/// them were dealt with.
pub open spec fn watch_next(masks: Seq<u32>, at: int, phase: FileWatchPhase, present: bool) -> (
    int,
    FileWatchPhase,
    Option<FileStep>,
)
    decreases masks.len() - at, 1int,
    when 0 <= at <= masks.len()
{
    if at >= masks.len() {
        (at, phase, None)
    } else {
        match phase {
            FileWatchPhase::Next => if asks_existence(masks[at]) {
                (at, FileWatchPhase::Asked, Some(FileStep::CheckExists))
            } else {
                act_next(masks, at, present)
            },
            FileWatchPhase::Asked => act_next(masks, at, present),
            FileWatchPhase::AttributesDone => if masks[at] & IN_MODIFY != 0 {
                (at, FileWatchPhase::Reading, Some(FileStep::CheckReset))
            } else {
                watch_next(masks, at + 1, FileWatchPhase::Next, present)
            },
            FileWatchPhase::Reading => (at + 1, FileWatchPhase::Next, Some(FileStep::ReadLines)),
            FileWatchPhase::Ended => (at, phase, None),
        }
    }
}

impl FileWatch {
    /// The event at hand is one of the events.
    pub open spec fn wf(&self) -> bool {
        self.at <= self.masks@.len()
    }

    /// About to deal with these events.
    pub fn new(events: &Vec<InotifyEvent>) -> (r: Self)
        ensures
            r.wf(),
            r.at == 0,
            r.phase == FileWatchPhase::Next,
            r.masks@ == event_views(events@).map_values(|e: InotifyEventView| e.mask),
    {
        let mut masks: Vec<u32> = Vec::new();
        let mut i: usize = 0;
        while i < events.len()
            invariant
                i <= events@.len(),
                masks@.len() == i,
                forall|j: int| 0 <= j < i ==> masks@[j] == events@[j].mask,
            decreases events@.len() - i,
        {
            masks.push(events[i].mask);
            i += 1;
        }
        assert(masks@ =~= event_views(events@).map_values(|e: InotifyEventView| e.mask));
        FileWatch { masks, at: 0, phase: FileWatchPhase::Next }
    }

    fn act(&mut self, present: bool) -> (r: Option<FileStep>)
        requires
            old(self).at < old(self).masks.len(),
        ensures
            final(self).wf(),
            final(self).masks == old(self).masks,
            (final(self).at as int, final(self).phase, r) == act_next(
                old(self).masks@,
                old(self).at as int,
                present,
            ),
        decreases old(self).masks@.len() - old(self).at, 0int,
    {
        match watch_file_event(self.masks[self.at], present) {
            FileEventAction::Reopen => {
                self.phase = FileWatchPhase::Ended;
                Some(FileStep::Reopen)
            },
            FileEventAction::Continue { check_reset, modified } => {
                if check_reset {
                    self.phase = FileWatchPhase::AttributesDone;
                    Some(FileStep::CheckReset)
                } else if modified {
                    self.phase = FileWatchPhase::Reading;
                    Some(FileStep::CheckReset)
                } else {
                    self.at = self.at + 1;
                    self.phase = FileWatchPhase::Next;
                    self.step(present)
                }
            },
        }
    }

    /// What to do next; see [`watch_next`]. `present` only counts behind
    /// [`FileStep::CheckExists`]. `None` means that all events were dealt with.
    pub fn step(&mut self, present: bool) -> (r: Option<FileStep>)
        requires
            old(self).wf(),
        ensures
            final(self).wf(),
            final(self).masks == old(self).masks,
            (final(self).at as int, final(self).phase, r) == watch_next(
                old(self).masks@,
                old(self).at as int,
                old(self).phase,
                present,
            ),
        decreases old(self).masks@.len() - old(self).at, 1int,
    {
        if self.at >= self.masks.len() {
            return None;
        }
        match self.phase {
            FileWatchPhase::Next => {
                if needs_existence(self.masks[self.at]) {
                    self.phase = FileWatchPhase::Asked;
                    Some(FileStep::CheckExists)
                } else {
                    self.act(present)
                }
            },
            FileWatchPhase::Asked => self.act(present),
            FileWatchPhase::AttributesDone => {
                if self.masks[self.at] & IN_MODIFY != 0 {
                    self.phase = FileWatchPhase::Reading;
                    Some(FileStep::CheckReset)
                } else {
                    self.at = self.at + 1;
                    self.phase = FileWatchPhase::Next;
                    self.step(present)
                }
            },
            FileWatchPhase::Reading => {
                self.at = self.at + 1;
                self.phase = FileWatchPhase::Next;
                Some(FileStep::ReadLines)
            },
            FileWatchPhase::Ended => None,
        }
    }
}

/// All that is done about one event, if `present` tells whether the file is there.
pub open spec fn event_steps(mask: u32, present: bool) -> Seq<FileStep> {
    let asked = if asks_existence(mask) {
        seq![FileStep::CheckExists]
    } else {
        Seq::empty()
    };
    asked + match file_event(mask, present) {
        FileEventAction::Reopen => seq![FileStep::Reopen],
        FileEventAction::Continue { check_reset, modified } => {
            (if check_reset {
                seq![FileStep::CheckReset]
            } else {
                Seq::empty()
            }) + (if modified {
                seq![FileStep::CheckReset, FileStep::ReadLines]
            } else {
                Seq::empty()
            })
        },
    }
}

/// All that is done about some events, the one at `at` first: what is done about
/// each in turn, up to one after which the file is opened again. `present` tells of
/// each event whether the file is there.
pub open spec fn batch_steps(masks: Seq<u32>, at: int, present: spec_fn(int) -> bool) -> Seq<FileStep>
    decreases masks.len() - at,
{
    if at < 0 || at >= masks.len() {
        Seq::empty()
    } else if file_event(masks[at], present(at)) == FileEventAction::Reopen {
        event_steps(masks[at], present(at))
    } else {
        event_steps(masks[at], present(at)) + batch_steps(masks, at + 1, present)
    }
}

/// How much is left to do about the event at hand, at most.
pub open spec fn phase_rank(phase: FileWatchPhase) -> int {
    match phase {
        FileWatchPhase::Next => 4,
        FileWatchPhase::Asked => 3,
        FileWatchPhase::AttributesDone => 2,
        FileWatchPhase::Reading => 1,
        FileWatchPhase::Ended => 0,
    }
}

/// Everything that [`watch_next`] asks for, step by step.
pub open spec fn watch_run(
    masks: Seq<u32>,
    at: int,
    phase: FileWatchPhase,
    present: spec_fn(int) -> bool,
) -> Seq<FileStep>
    decreases masks.len() - at, phase_rank(phase),
    when 0 <= at <= masks.len()
    via watch_run_ends
{
    let (next_at, next_phase, step) = watch_next(masks, at, phase, present(at));
    match step {
        None => Seq::empty(),
        Some(step) => seq![step] + watch_run(masks, next_at, next_phase, present),
    }
}

#[via_fn]
proof fn watch_run_ends(
    masks: Seq<u32>,
    at: int,
    phase: FileWatchPhase,
    present: spec_fn(int) -> bool,
) {
    lemma_watch_next_moves(masks, at, phase, present(at));
}

proof fn lemma_watch_next_moves(masks: Seq<u32>, at: int, phase: FileWatchPhase, present: bool)
    requires
        0 <= at <= masks.len(),
    ensures
        ({
            let (next_at, next_phase, step) = watch_next(masks, at, phase, present);
            at <= next_at <= masks.len() && (step is Some ==> next_at > at || phase_rank(next_phase)
                < phase_rank(phase))
        }),
    decreases masks.len() - at,
{
    reveal_with_fuel(watch_next, 2);
    reveal_with_fuel(act_next, 2);
    if at < masks.len() {
        lemma_watch_next_moves(masks, at + 1, FileWatchPhase::Next, present);
    }
}

/// Steps that do not depend on the file being there may be asked for with either
/// answer.
proof fn lemma_unasked(masks: Seq<u32>, at: int, a: bool, b: bool)
    requires
        0 <= at <= masks.len(),
    ensures
        watch_next(masks, at, FileWatchPhase::Next, a) == watch_next(
            masks,
            at,
            FileWatchPhase::Next,
            b,
        ),
    decreases masks.len() - at,
{
    reveal_with_fuel(watch_next, 2);
    reveal_with_fuel(act_next, 2);
    if at < masks.len() {
        lemma_unasked(masks, at + 1, a, b);
    }
}

/// Going through events step by step does about each what the event asks for, in
/// order: what was cut off is noticed before new lines are read, and nothing
/// follows once the file has to be opened again.
pub proof fn law_events_are_dealt_with_in_order(
    masks: Seq<u32>,
    at: int,
    present: spec_fn(int) -> bool,
)
    requires
        0 <= at <= masks.len(),
    ensures
        watch_run(masks, at, FileWatchPhase::Next, present) == batch_steps(masks, at, present),
    decreases masks.len() - at,
{
    reveal_with_fuel(watch_next, 2);
    reveal_with_fuel(act_next, 2);
    reveal_with_fuel(watch_run, 2);
    if at < masks.len() {
        law_events_are_dealt_with_in_order(masks, at + 1, present);
        let mask = masks[at];
        let here = present(at);
        let rest = batch_steps(masks, at + 1, present);
        lemma_watch_next_moves(masks, at, FileWatchPhase::Next, here);
        lemma_unasked(masks, at + 1, here, present(at + 1));
        assert(watch_run(masks, at, FileWatchPhase::Reading, present) =~= seq![FileStep::ReadLines]
            + rest);
        assert(watch_run(masks, at, FileWatchPhase::Ended, present) =~= Seq::empty());
        let modified = if mask & IN_MODIFY != 0 {
            seq![FileStep::CheckReset, FileStep::ReadLines]
        } else {
            Seq::empty()
        };
        assert(watch_run(masks, at, FileWatchPhase::AttributesDone, present) =~= modified + rest);
        let acted = match file_event(mask, here) {
            FileEventAction::Reopen => seq![FileStep::Reopen],
            FileEventAction::Continue { check_reset, modified: _ } => (if check_reset {
                seq![FileStep::CheckReset]
            } else {
                Seq::empty()
            }) + modified + rest,
        };
        assert(watch_run(masks, at, FileWatchPhase::Asked, present) =~= acted);
        assert(watch_run(masks, at, FileWatchPhase::Next, present) =~= batch_steps(masks, at, present));
    }
}

/// What an event about the directory of a missing file means, if anything.
pub open spec fn directory_event(
    event: InotifyEventView,
    target: Seq<u8>,
    shutdown: bool,
) -> Option<MonitorLoopResult> {
    if event.mask & IN_IGNORED != 0 {
        Some(
            if shutdown {
                MonitorLoopResult::Closed
            } else {
                MonitorLoopResult::Stop
            },
        )
    } else if event.mask & IN_MOVE_SELF != 0 || event.mask & IN_DELETE_SELF != 0 {
        Some(MonitorLoopResult::Stop)
    } else if (event.mask & IN_CREATE != 0 || event.mask & IN_MOVED_TO != 0) && event.bytes.len()
        > EVENT_HEADER_LEN && event_name(event.bytes) == target {
        Some(MonitorLoopResult::Reopen)
    } else {
        None
    }
}

/// The meaning of the first event that has one.
pub open spec fn directory_events(
    events: Seq<InotifyEventView>,
    target: Seq<u8>,
    shutdown: bool,
) -> Option<MonitorLoopResult>
    decreases events.len(),
{
    if events.len() == 0 {
        None
    } else {
        match directory_event(events[0], target, shutdown) {
            Some(result) => Some(result),
            None => directory_events(events.skip(1), target, shutdown),
        }
    }
}

/// What some events about the directory of a missing file mean: `None` to go on
/// waiting. See [`directory_events`].
pub fn watch_directory_events(
    events: &Vec<InotifyEvent>,
    target_file_name: &Vec<u8>,
    shutdown: bool,
) -> (r: Option<MonitorLoopResult>)
    ensures
        r == directory_events(event_views(events@), target_file_name@, shutdown),
{
    let ghost all = event_views(events@);
    let mut i: usize = 0;
    assert(all.skip(0) =~= all);
    while i < events.len()
        invariant
            i <= events@.len(),
            all == event_views(events@),
            directory_events(all, target_file_name@, shutdown) == directory_events(
                all.skip(i as int),
                target_file_name@,
                shutdown,
            ),
        decreases events@.len() - i,
    {
        let event = &events[i];
        proof {
            assert(all.skip(i as int)[0] == event@);
            assert(all.skip(i as int).skip(1) =~= all.skip(i + 1));
        }
        if event.mask & IN_IGNORED != 0 {
            return Some(
                if shutdown {
                    MonitorLoopResult::Closed
                } else {
                    MonitorLoopResult::Stop
                },
            );
        }
        if event.mask & IN_MOVE_SELF != 0 || event.mask & IN_DELETE_SELF != 0 {
            return Some(MonitorLoopResult::Stop);
        }
        if (event.mask & IN_CREATE != 0 || event.mask & IN_MOVED_TO != 0) && event_name_matches(
            &event.bytes,
            target_file_name,
        ) {
            return Some(MonitorLoopResult::Reopen);
        }
        i += 1;
    }
    None
}

/// What came of waiting for, or reading, events.
#[derive(Debug, Clone, Copy, PartialEq, Eq, Structural)]
pub enum ReadEvent {
    /// Nothing was tried yet.
    Begin,
    /// The wait failed with this error number.
    PollFailed(i32),
    /// The wait ended with these states of the events and of the end signal.
    Polled { file_revents: i16, shutdown_revents: i16 },
    /// The read failed with this error number.
    ReadFailed(i32),
    /// So many bytes were read.
    Read(usize),
}

/// What to do next about reading events.
#[derive(Debug, Clone, Copy, PartialEq, Eq, Structural)]
pub enum ReadAction {
    /// Wait for events or for the end signal.
    Poll,
    /// Read the events.
    Read,
    /// So many bytes of events are there.
    Events(usize),
    /// The monitor was told to end.
    Closed,
    /// A system call failed with this error number.
    FailedCall(i32),
    /// The wait ended in a state that makes no sense.
    FailedState(i16),
}

/// A wait begins, unless the monitor was told to end.
pub open spec fn begin_read(shutdown: bool) -> ReadAction {
    if shutdown {
        ReadAction::Closed
    } else {
        ReadAction::Poll
    }
}

/// What to do next about reading events. The end signal comes before everything
/// else, calls that were interrupted are made again, and errors that come of
/// ending do not count.
pub open spec fn read_next(event: ReadEvent, shutdown: bool) -> ReadAction {
    match event {
        ReadEvent::Begin => begin_read(shutdown),
        ReadEvent::PollFailed(errno) => if errno == EINTR {
            begin_read(shutdown)
        } else {
            ReadAction::FailedCall(errno)
        },
        ReadEvent::Polled { file_revents, shutdown_revents } => if shutdown_revents & POLLIN != 0 {
            ReadAction::Closed
        } else if file_revents == 0 {
            begin_read(shutdown)
        } else if file_revents & POLLERR != 0 || file_revents & POLLHUP != 0 || file_revents
            & POLLNVAL != 0 {
            if shutdown {
                ReadAction::Closed
            } else {
                ReadAction::FailedState(file_revents)
            }
        } else if file_revents & POLLIN == 0 {
            begin_read(shutdown)
        } else {
            ReadAction::Read
        },
        ReadEvent::ReadFailed(errno) => if errno == EINTR || errno == EAGAIN {
            begin_read(shutdown)
        } else if shutdown && (errno == EBADF || errno == EINVAL) {
            ReadAction::Closed
        } else {
            ReadAction::FailedCall(errno)
        },
        ReadEvent::Read(len) => if len == 0 {
            begin_read(shutdown)
        } else {
            ReadAction::Events(len)
        },
    }
}

/// Decides what to do next about reading events; see [`read_next`].
pub fn read_inotify_events(event: ReadEvent, shutdown: bool) -> (r: ReadAction)
    ensures
        r == read_next(event, shutdown),
{
    let again = if shutdown {
        ReadAction::Closed
    } else {
        ReadAction::Poll
    };
    match event {
        ReadEvent::Begin => again,
        ReadEvent::PollFailed(errno) => {
            if errno == EINTR {
                again
            } else {
                ReadAction::FailedCall(errno)
            }
        },
        ReadEvent::Polled { file_revents, shutdown_revents } => {
            if shutdown_revents & POLLIN != 0 {
                return ReadAction::Closed;
            }
            if file_revents == 0 {
                return again;
            }
            if file_revents & POLLERR != 0 || file_revents & POLLHUP != 0 || file_revents & POLLNVAL
                != 0 {
                if shutdown {
                    return ReadAction::Closed;
                }
                return ReadAction::FailedState(file_revents);
            }
            if file_revents & POLLIN == 0 {
                return again;
            }
            ReadAction::Read
        },
        ReadEvent::ReadFailed(errno) => {
            if errno == EINTR || errno == EAGAIN {
                return again;
            }
            if shutdown && (errno == EBADF || errno == EINVAL) {
                return ReadAction::Closed;
            }
            ReadAction::FailedCall(errno)
        },
        ReadEvent::Read(len) => {
            if len == 0 {
                again
            } else {
                ReadAction::Events(len)
            }
        },
    }
}

/// The text of a wait that ended in a state that makes no sense.
pub fn unexpected_revents(file_revents: i16) -> (r: String)
    ensures
        r@ == "inotify poll returned unexpected revents: "@ + signed_decimal(file_revents as int),
{
    let mut text = "inotify poll returned unexpected revents: ".to_string();
    text.append(signed_decimal_of(file_revents as i64).as_str());
    text
}

/// Whether a watch that could not be added means that the monitor was told to
/// end, rather than that something is wrong.
pub fn watch_failure_is_close(shutdown: bool, errno: Option<i32>) -> (r: bool)
    ensures
        r == (shutdown && (errno == Some(EBADF) || errno == Some(EINVAL))),
{
    shutdown && match errno {
        Some(errno) => errno == EBADF || errno == EINVAL,
        None => false,
    }
}

/// Told to end, a monitor never waits: whatever it hears next, it does not begin
/// another wait.
pub proof fn law_closed_monitor_does_not_wait(event: ReadEvent)
    ensures
        read_next(event, true) != ReadAction::Poll,
        read_next(ReadEvent::Begin, true) == ReadAction::Closed,
{
}

/// The end signal ends a wait, whatever else happened during it.
pub proof fn law_end_signal_ends_the_wait(file_revents: i16, shutdown_revents: i16, shutdown: bool)
    requires
        shutdown_revents & POLLIN != 0,
    ensures
        read_next(ReadEvent::Polled { file_revents, shutdown_revents }, shutdown)
            == ReadAction::Closed,
{
}

/// The lines of a text that say anything, without the white space around them.
pub open spec fn spoken_lines(lines: Seq<Seq<char>>) -> Seq<Seq<char>>
    decreases lines.len(),
{
    if lines.len() == 0 {
        Seq::empty()
    } else {
        let before = spoken_lines(lines.drop_last());
        if trim(lines.last()).len() == 0 {
            before
        } else {
            before.push(trim(lines.last()))
        }
    }
}

/// A line without the white space around it, if it says anything.
pub fn new_line(line: &str) -> (r: Option<String>)
    ensures
        r is Some <==> trim(line@).len() > 0,
        r matches Some(text) ==> text@ == trim(line@),
{
    let text = trimmed(line);
    if text.as_str().is_empty() {
        None
    } else {
        Some(text)
    }
}

/// The text ends in the middle of a line.
pub open spec fn ends_unfinished(text: Seq<char>) -> bool {
    text.len() > 0 && text.last() != '\n'
}

/// The lines of a text that are complete, each with the line feed that ends it.
pub open spec fn complete_lines(text: Seq<char>) -> Seq<Seq<char>> {
    if ends_unfinished(text) {
        lines_inclusive(text).drop_last()
    } else {
        lines_inclusive(text)
    }
}

/// The line that a text breaks off in; empty if the text ends with a line.
pub open spec fn unfinished_line(text: Seq<char>) -> Seq<char> {
    if ends_unfinished(text) {
        lines_inclusive(text).last()
    } else {
        Seq::empty()
    }
}

/// What was read of a line whose end has not been written yet.
#[derive(Debug, PartialEq, Eq)]
pub struct LineBuffer {
    pub unfinished: String,
}

impl LineBuffer {
    /// Nothing was read yet.
    pub fn new() -> (r: Self)
        ensures
            r.unfinished@ == Seq::<char>::empty(),
    {
        LineBuffer { unfinished: String::new() }
    }

    /// Whether a file was cut off behind the reader's back: it is shorter than what
    /// was already read. Reading begins anew then, and what was read of an unfinished
    /// line is forgotten.
    pub fn handle_file_reset_if_needed(&mut self, position: u64, size: u64) -> (r: bool)
        ensures
            r == (size < position),
            final(self).unfinished@ == if r {
                Seq::<char>::empty()
            } else {
                old(self).unfinished@
            },
    {
        if size < position {
            self.unfinished = String::new();
            true
        } else {
            false
        }
    }

    /// The lines that were added to a file, out of the text that was; see
    /// [`spoken_lines`]. Only complete lines are handed out; a line that is not is left
    /// for the next time.
    pub fn drain_new_lines(&mut self, added: &str) -> (r: Vec<String>)
        ensures
            texts(r@) == spoken_lines(complete_lines(old(self).unfinished@ + added@)),
            final(self).unfinished@ == unfinished_line(old(self).unfinished@ + added@),
    {
        let mut text = self.unfinished.clone();
        text.append(added);
        let mut lines = lines_with_ends(text.as_str());
        let ghost whole = lines_inclusive(text@);
        let ghost all = complete_lines(text@);
        let mut unfinished = String::new();
        proof {
            lemma_lines_nonempty(text@);
        }
        if let Some(line) = lines.pop() {
            assert(texts(lines@) =~= whole.drop_last());
            assert(line@ == whole.last());
            if ends_with_line_feed(line.as_str()) {
                lines.push(line);
                assert(texts(lines@) =~= whole);
            } else {
                unfinished = line;
            }
        }
        assert(texts(lines@) =~= all);
        self.unfinished = unfinished;
        let mut out: Vec<String> = Vec::new();
        let mut i: usize = 0;
        assert(all.take(0) =~= Seq::empty());
        assert(texts(out@) =~= spoken_lines(all.take(0)));
        while i < lines.len()
            invariant
                i <= lines@.len(),
                texts(lines@) == all,
                texts(out@) == spoken_lines(all.take(i as int)),
            decreases lines@.len() - i,
        {
            let ghost before = texts(out@);
            proof {
                assert(all.take(i + 1).drop_last() =~= all.take(i as int));
                assert(all.take(i + 1).last() == lines@[i as int]@) by {
                    assert(texts(lines@)[i as int] == lines@[i as int]@);
                }
            }
            match new_line(lines[i].as_str()) {
                Some(line) => {
                    out.push(line);
                    assert(texts(out@) =~= before.push(line@));
                },
                None => {},
            }
            i += 1;
        }
        assert(all.take(i as int) =~= all);
        out
    }
}

fn ends_with_line_feed(line: &str) -> (r: bool)
    ensures
        r == (line@.len() > 0 && line@.last() == '\n'),
{
    let chars = chars_of(line);
    chars.len() > 0 && chars[chars.len() - 1] == '\n'
}

proof fn lemma_last_line_is_one_line(text: Seq<char>)
    requires
        text.len() > 0,
    ensures
        lines_inclusive(text).len() > 0,
        lines_inclusive(lines_inclusive(text).last()) == seq![lines_inclusive(text).last()],
    decreases text.len(),
{
    lemma_lines_nonempty(text);
    let before = lines_inclusive(text.drop_last());
    let line = lines_inclusive(text).last();
    let last = seq![line];
    if before.len() == 0 || before.last().last() == '\n' {
        assert(line.drop_last() =~= Seq::empty());
        assert(lines_inclusive(line.drop_last()) =~= Seq::empty());
        assert(lines_inclusive(line) =~= last);
    } else {
        lemma_lines_nonempty(text.drop_last());
        lemma_last_line_is_one_line(text.drop_last());
        assert(line.drop_last() =~= before.last());
        assert(lines_inclusive(line) =~= last);
    }
}

proof fn lemma_lines_after_an_unfinished_one(a: Seq<char>, b: Seq<char>)
    ensures
        lines_inclusive(a + b) == complete_lines(a) + lines_inclusive(unfinished_line(a) + b),
    decreases b.len(),
{
    let left = unfinished_line(a);
    lemma_lines_nonempty(a);
    if b.len() == 0 {
        assert(a + b =~= a);
        assert(left + b =~= left);
        if ends_unfinished(a) {
            lemma_last_line_is_one_line(a);
            assert(complete_lines(a) + seq![left] =~= lines_inclusive(a));
        } else {
            assert(lines_inclusive(left) =~= Seq::empty());
            assert(complete_lines(a) + lines_inclusive(left) =~= lines_inclusive(a));
        }
    } else {
        let rest = b.drop_last();
        lemma_lines_after_an_unfinished_one(a, rest);
        assert((a + b).drop_last() =~= a + rest);
        assert((left + b).drop_last() =~= left + rest);
        assert((a + b).last() == b.last() && (left + b).last() == b.last());
        lemma_lines_nonempty(a + rest);
        lemma_lines_nonempty(left + rest);
        let before = lines_inclusive(a + rest);
        let after = lines_inclusive(left + rest);
        if after.len() > 0 {
            assert(before.last() == after.last());
            assert(before.drop_last() =~= complete_lines(a) + after.drop_last());
        } else {
            assert(before =~= complete_lines(a));
            assert(rest.len() == 0 && left.len() == 0);
            assert(a + rest =~= a);
        }
        assert(lines_inclusive(a + b) =~= complete_lines(a) + lines_inclusive(left + b));
    }
}

proof fn lemma_spoken_lines_concat(a: Seq<Seq<char>>, b: Seq<Seq<char>>)
    ensures
        spoken_lines(a + b) == spoken_lines(a) + spoken_lines(b),
    decreases b.len(),
{
    if b.len() == 0 {
        assert(a + b =~= a);
        assert(spoken_lines(a) + spoken_lines(b) =~= spoken_lines(a));
    } else {
        lemma_spoken_lines_concat(a, b.drop_last());
        assert((a + b).drop_last() =~= a + b.drop_last());
        assert(spoken_lines(a + b) =~= spoken_lines(a) + spoken_lines(b));
    }
}

/// It does not matter in which pieces a text is read: a second piece completes the
/// line that the first one broke off in, and every line is handed out once.
pub proof fn law_pieces_of_lines_do_not_matter(a: Seq<char>, b: Seq<char>)
    ensures
        spoken_lines(complete_lines(a)) + spoken_lines(complete_lines(unfinished_line(a) + b))
            == spoken_lines(complete_lines(a + b)),
        unfinished_line(unfinished_line(a) + b) == unfinished_line(a + b),
{
    let left = unfinished_line(a);
    lemma_lines_after_an_unfinished_one(a, b);
    lemma_lines_nonempty(a);
    lemma_lines_nonempty(left + b);
    lemma_spoken_lines_concat(complete_lines(a), complete_lines(left + b));
    if b.len() == 0 {
        assert(a + b =~= a && left + b =~= left);
    } else {
        assert((a + b).last() == b.last() && (left + b).last() == b.last());
    }
    assert(ends_unfinished(a + b) == ends_unfinished(left + b));
    if ends_unfinished(a + b) {
        assert(lines_inclusive(a + b).last() == lines_inclusive(left + b).last());
        assert(complete_lines(a + b) =~= complete_lines(a) + complete_lines(left + b));
    } else {
        assert(complete_lines(a + b) =~= complete_lines(a) + complete_lines(left + b));
    }
}

/// Where a file monitor stands.
#[derive(Debug, Clone, Copy, PartialEq, Eq, Structural)]
pub enum MonitorPhase {
    /// About to open the file.
    Opening,
    /// Watching the file.
    WatchingFile,
    /// Watching the directory for the file to come back.
    WatchingDirectory,
    Exited,
}

/// What a file monitor met with.
#[derive(Debug, Clone, Copy, PartialEq, Eq, Structural)]
pub enum MonitorEvent {
    /// It was started.
    Started,
    /// Whether the file is there.
    Opened(bool),
    /// How watching the file, or its directory, ended.
    Watched(MonitorLoopResult),
}

/// What a file monitor does next.
#[derive(Debug, Clone, Copy, PartialEq, Eq, Structural)]
pub enum MonitorAction {
    /// Open the file, to read what is added to it from now on.
    Open,
    WatchFile,
    WatchDirectory,
    Exit,
}

/// What a file monitor does about an event: it watches the file while it is
/// there and its directory while it is not, until it is told to end or cannot go
/// on.
pub open spec fn monitor_next(event: MonitorEvent, shutdown: bool) -> (MonitorPhase, MonitorAction) {
    match event {
        MonitorEvent::Opened(true) => (MonitorPhase::WatchingFile, MonitorAction::WatchFile),
        MonitorEvent::Opened(false) => (
            MonitorPhase::WatchingDirectory,
            MonitorAction::WatchDirectory,
        ),
        MonitorEvent::Watched(MonitorLoopResult::Closed) => (
            MonitorPhase::Exited,
            MonitorAction::Exit,
        ),
        MonitorEvent::Watched(MonitorLoopResult::Stop) => (MonitorPhase::Exited, MonitorAction::Exit),
        _ => if shutdown {
            (MonitorPhase::Exited, MonitorAction::Exit)
        } else {
            (MonitorPhase::Opening, MonitorAction::Open)
        },
    }
}

/// Decides what a file monitor does next; see [`monitor_next`].
pub fn monitor_file(event: MonitorEvent, shutdown: bool) -> (r: (MonitorPhase, MonitorAction))
    ensures
        r == monitor_next(event, shutdown),
{
    match event {
        MonitorEvent::Opened(true) => (MonitorPhase::WatchingFile, MonitorAction::WatchFile),
        MonitorEvent::Opened(false) => (
            MonitorPhase::WatchingDirectory,
            MonitorAction::WatchDirectory,
        ),
        MonitorEvent::Watched(MonitorLoopResult::Closed) => (
            MonitorPhase::Exited,
            MonitorAction::Exit,
        ),
        MonitorEvent::Watched(MonitorLoopResult::Stop) => (
            MonitorPhase::Exited,
            MonitorAction::Exit,
        ),
        _ => {
            if shutdown {
                (MonitorPhase::Exited, MonitorAction::Exit)
            } else {
                (MonitorPhase::Opening, MonitorAction::Open)
            }
        },
    }
}

/// The means to end a file monitor.
#[derive(Debug, Clone, Copy, PartialEq, Eq)]
pub struct FileMonitorControl {
    pub shutdown_requested: bool,
}

/// What came of giving the end signal.
#[derive(Debug, Clone, Copy, PartialEq, Eq, Structural)]
pub enum SignalOutcome {
    /// Give it again.
    Retry,
    /// It was given, or need not be.
    Done,
    /// It could not be given.
    Failed,
}

impl FileMonitorControl {
    /// Nobody asked for an end yet.
    pub fn new() -> (r: Self)
        ensures
            !r.shutdown_requested,
    {
        FileMonitorControl { shutdown_requested: false }
    }

    /// Whether the monitor was told to end.
    pub fn is_shutdown_requested(&self) -> (r: bool)
        ensures
            r == self.shutdown_requested,
    {
        self.shutdown_requested
    }

    /// Tells the monitor to end. `true` means that it had not been told before,
    /// and that the end signal has to be given.
    pub fn close(&mut self) -> (r: bool)
        ensures
            r == !old(self).shutdown_requested,
            final(self).shutdown_requested,
    {
        if self.shutdown_requested {
            return false;
        }
        self.shutdown_requested = true;
        true
    }
}

/// What came of giving the end signal, by the error number if it failed. A signal
/// that cannot be given because it is pending already is given.
pub fn signal_outcome(errno: Option<i32>) -> (r: SignalOutcome)
    ensures
        r == match errno {
            None => SignalOutcome::Done,
            Some(errno) => if errno == EINTR {
                SignalOutcome::Retry
            } else if errno == EAGAIN {
                SignalOutcome::Done
            } else {
                SignalOutcome::Failed
            },
        },
{
    match errno {
        None => SignalOutcome::Done,
        Some(errno) => {
            if errno == EINTR {
                SignalOutcome::Retry
            } else if errno == EAGAIN {
                SignalOutcome::Done
            } else {
                SignalOutcome::Failed
            }
        },
    }
}

proof fn lemma_trim_of_a_line(text: Seq<char>)
    ensures
        trim(text.push('\n')) == trim(text),
{
    law_trimmed_text_is_a_piece(text);
    let (from, to) = choose|from: int, to: int|
        0 <= from <= to <= text.len() && trim(text) == #[trigger] text.subrange(from, to) && (
        forall|i: int| 0 <= i < from || to <= i < text.len() ==> is_white_space(#[trigger] text[i]));
    let (before, middle) = (text.take(from), trim(text));
    let after = text.skip(to).push('\n');
    assert(text.push('\n') =~= before + middle + after);
    assert forall|i: int| 0 <= i < after.len() implies is_white_space(#[trigger] after[i]) by {
        if i < after.len() - 1 {
            assert(after[i] == text[to + i]);
        }
    }
    assert forall|i: int| 0 <= i < before.len() implies is_white_space(#[trigger] before[i]) by {
        assert(before[i] == text[i]);
    }
    law_trim_takes_off_white_space(before, middle, after);
}

/// Every line that says anything is handed out, however long it is, without the white space around
/// it, and in order: a complete line comes before all that follow it, a blank one is passed over,
/// and a text without a line feed is kept until its line is complete.
pub proof fn law_every_complete_line_is_handed_out(line: Seq<char>, rest: Seq<char>)
    requires
        !line.contains('\n'),
    ensures
        spoken_lines(complete_lines(line.push('\n') + rest)) == (if trim(line).len() == 0 {
            Seq::<Seq<char>>::empty()
        } else {
            seq![trim(line)]
        }) + spoken_lines(complete_lines(rest)),
        unfinished_line(line.push('\n') + rest) == unfinished_line(rest),
        spoken_lines(complete_lines(line)) == Seq::<Seq<char>>::empty(),
        unfinished_line(line) == line,
{
    let whole = line.push('\n') + rest;
    law_lines_end_with_line_feeds(line, rest);
    lemma_lines_nonempty(rest);
    lemma_lines_nonempty(line);
    lemma_trim_of_a_line(line);
    let first = seq![line.push('\n')];
    if rest.len() > 0 {
        assert(whole.last() == rest.last());
    } else {
        assert(whole.last() == '\n');
    }
    assert(complete_lines(whole) =~= first + complete_lines(rest));
    lemma_spoken_lines_concat(first, complete_lines(rest));
    assert(first.drop_last() =~= Seq::empty());
    assert(spoken_lines(first.drop_last()) =~= Seq::empty());
    assert(spoken_lines(first) =~= if trim(line).len() == 0 {
        Seq::<Seq<char>>::empty()
    } else {
        seq![trim(line)]
    });
    if line.len() > 0 {
        assert(line[line.len() - 1] != '\n');
        assert(complete_lines(line) =~= Seq::empty());
    } else {
        assert(complete_lines(line) =~= Seq::empty());
        assert(unfinished_line(line) =~= line);
    }
}

proof fn lemma_events_behind(front: Seq<u8>, rest: Seq<u8>, at: int, order: ByteOrder)
    requires
        0 <= at <= rest.len(),
    ensures
        events_from(front + rest, front.len() + at, order) == events_from(rest, at, order),
    decreases rest.len() - at,
{
    let whole = front + rest;
    let from = front.len() + at;
    if at + 16 <= rest.len() {
        assert forall|i: int| 0 <= i < 16 implies whole[from + i] == #[trigger] rest[at + i] by {}
        assert(u32_at(whole, from + 12, order) == u32_at(rest, at + 12, order)) by {
            assert(rest[at + 12] == whole[from + 12] && rest[at + 13] == whole[from + 13]
                && rest[at + 14] == whole[from + 14] && rest[at + 15] == whole[from + 15]);
        }
        assert(u32_at(whole, from + 4, order) == u32_at(rest, at + 4, order)) by {
            assert(rest[at + 4] == whole[from + 4] && rest[at + 5] == whole[from + 5] && rest[at + 6]
                == whole[from + 6] && rest[at + 7] == whole[from + 7]);
        }
        let next = at + 16 + u32_at(rest, at + 12, order);
        if next <= rest.len() {
            lemma_events_behind(front, rest, next, order);
            assert(whole.subrange(from, front.len() + next) =~= rest.subrange(at, next));
        }
    }
}

/// The number of four bytes, the lowest first.
pub open spec fn number_of(a: u8, b: u8, c: u8, d: u8) -> int {
    a + 256 * (b + 256 * (c + 256 * d))
}

/// Events lie one behind the other: of 16 bytes, the second four of which are the mask and the
/// last four of which tell how long the name behind them is. Each is handed out with all its bytes
/// and followed by the events of the rest; what is too short for an event is none.
pub proof fn law_events_lie_behind_one_another(event: Seq<u8>, rest: Seq<u8>, order: ByteOrder)
    requires
        event.len() >= 16,
        event.len() - 16 == match order {
            ByteOrder::Little => number_of(event[12], event[13], event[14], event[15]),
            ByteOrder::Big => number_of(event[15], event[14], event[13], event[12]),
        },
    ensures
        ({
            let events = events_from(event + rest, 0, order);
            &&& events.len() == 1 + events_from(rest, 0, order).len()
            &&& events[0].bytes == event
            &&& events[0].mask == match order {
                ByteOrder::Little => number_of(event[4], event[5], event[6], event[7]),
                ByteOrder::Big => number_of(event[7], event[6], event[5], event[4]),
            }
            &&& events.skip(1) == events_from(rest, 0, order)
        }),
        forall|n: int|
            0 <= n < event.len() ==> events_from(#[trigger] event.take(n), 0, order) == Seq::<
                InotifyEventView,
            >::empty(),
{
    let whole = event + rest;
    assert(whole[4] == event[4] && whole[5] == event[5] && whole[6] == event[6] && whole[7]
        == event[7]);
    assert(whole[12] == event[12] && whole[13] == event[13] && whole[14] == event[14] && whole[15]
        == event[15]);
    lemma_events_behind(event, rest, 0, order);
    let mask = u32_at(whole, 4, order);
    assert(0 <= mask < 0x1_0000_0000);
    assert(mask as u32 == mask);
    assert(whole.subrange(0, event.len() as int) =~= event);
    let later = events_from(rest, 0, order);
    assert(events_from(whole, 0, order) == seq![event_at(whole, 0, order)] + later);
    assert((seq![event_at(whole, 0, order)] + later).skip(1) =~= later);
    assert forall|n: int| 0 <= n < event.len() implies events_from(#[trigger] event.take(n), 0, order)
        == Seq::<InotifyEventView>::empty() by {
        let part = event.take(n);
        if n >= 16 {
            assert(part[12] == event[12] && part[13] == event[13] && part[14] == event[14]
                && part[15] == event[15]);
        }
    }
}

/// The name of an event is what stands behind its 16 bytes, up to the zeros that fill it up.
pub proof fn law_name_stands_behind_the_event(header: Seq<u8>, name: Seq<u8>, fill: Seq<u8>)
    requires
        header.len() == 16,
        forall|i: int| 0 <= i < name.len() ==> #[trigger] name[i] != 0,
        fill.len() > 0 ==> fill[0] == 0,
    ensures
        event_name(header + name + fill) == name,
{
    assert((header + name + fill).skip(16) =~= name + fill);
    lemma_up_to_zero(name, fill);
}

proof fn lemma_up_to_zero(name: Seq<u8>, fill: Seq<u8>)
    requires
        forall|i: int| 0 <= i < name.len() ==> #[trigger] name[i] != 0,
        fill.len() > 0 ==> fill[0] == 0,
    ensures
        up_to_zero(name + fill) == name,
    decreases name.len(),
{
    let whole = name + fill;
    if name.len() > 0 {
        assert(name[0] != 0);
        let rest = name.skip(1);
        assert forall|i: int| 0 <= i < rest.len() implies #[trigger] rest[i] != 0 by {
            assert(rest[i] == name[i + 1]);
        }
        lemma_up_to_zero(rest, fill);
        assert(whole.skip(1) =~= rest + fill);
        assert(seq![name[0]] + rest =~= name);
    } else {
        assert(whole =~= fill);
        assert(up_to_zero(whole) =~= name);
    }
}

/// The file is gone, moved away or no longer watched, as far as an event says so.
pub open spec fn says_gone(mask: u32, present: bool) -> bool {
    mask & 0x8000 != 0 || mask & 0x800 != 0 || mask & 0x400 != 0 || (mask & 0x4 != 0 && !present)
}

/// New lines are read after every change of the file, behind a look whether it was cut off, and
/// the file is opened again whenever it is gone. Whether it is there is asked where only its
/// attributes changed.
pub proof fn law_every_change_is_read(mask: u32, present: bool)
    ensures
        says_gone(mask, present) ==> event_steps(mask, present).last() == FileStep::Reopen,
        !says_gone(mask, present) && mask & 0x2 != 0 ==> {
            let steps = event_steps(mask, present);
            steps.len() >= 2 && steps.last() == FileStep::ReadLines && steps[steps.len() - 2]
                == FileStep::CheckReset
        },
        !says_gone(mask, present) && mask & 0x2 == 0 ==> !event_steps(mask, present).contains(
            FileStep::ReadLines,
        ) && !event_steps(mask, present).contains(FileStep::Reopen),
        !says_gone(mask, present) && mask & 0x4 != 0 ==> event_steps(mask, present).len() >= 2
            && event_steps(mask, present)[0] == FileStep::CheckExists && event_steps(mask, present)[1]
            == FileStep::CheckReset,
        mask & 0x4 == 0 ==> !event_steps(mask, present).contains(FileStep::CheckExists),
{
    let steps = event_steps(mask, present);
    if !says_gone(mask, present) {
        assert(file_event(mask, present) is Continue);
    }
}

/// No event is passed over: what is done about events is what is done about the first, and then
/// about the others, unless the file has to be opened again.
pub proof fn law_no_event_is_passed_over(
    masks: Seq<u32>,
    at: int,
    present: spec_fn(int) -> bool,
)
    requires
        0 <= at < masks.len(),
    ensures
        watch_run(masks, at, FileWatchPhase::Next, present) == if says_gone(
            masks[at],
            present(at),
        ) {
            event_steps(masks[at], present(at))
        } else {
            event_steps(masks[at], present(at)) + watch_run(
                masks,
                at + 1,
                FileWatchPhase::Next,
                present,
            )
        },
        watch_run(masks, masks.len() as int, FileWatchPhase::Next, present) == Seq::<
            FileStep,
        >::empty(),
{
    law_events_are_dealt_with_in_order(masks, at, present);
    law_events_are_dealt_with_in_order(masks, at + 1, present);
    law_events_are_dealt_with_in_order(masks, masks.len() as int, present);
}

/// What an event about the directory means, by its bits: an end of the watch stops the monitor, or
/// closes it if it was told to end; a directory that is gone stops it; the file that is waited for
/// is opened once it is made or moved there. Nothing else means anything.
pub proof fn law_directory_events_by_their_bits(
    event: InotifyEventView,
    target: Seq<u8>,
    shutdown: bool,
)
    ensures
        event.mask & 0x8000 != 0 ==> directory_event(event, target, shutdown) == Some(
            if shutdown {
                MonitorLoopResult::Closed
            } else {
                MonitorLoopResult::Stop
            },
        ),
        event.mask & 0x8000 == 0 && (event.mask & 0x800 != 0 || event.mask & 0x400 != 0)
            ==> directory_event(event, target, shutdown) == Some(MonitorLoopResult::Stop),
        event.mask & 0x8000 == 0 && event.mask & 0x800 == 0 && event.mask & 0x400 == 0
            ==> directory_event(event, target, shutdown) == if (event.mask & 0x100 != 0 || event.mask
            & 0x80 != 0) && event.bytes.len() > 16 && event_name(event.bytes) == target {
            Some(MonitorLoopResult::Reopen)
        } else {
            None
        },
{
}

/// Of several events about the directory the first that means anything counts, wherever it stands.
pub proof fn law_first_directory_event_counts(
    before: Seq<InotifyEventView>,
    event: InotifyEventView,
    after: Seq<InotifyEventView>,
    target: Seq<u8>,
    shutdown: bool,
)
    requires
        forall|i: int|
            0 <= i < before.len() ==> directory_event(#[trigger] before[i], target, shutdown) is None,
    ensures
        directory_event(event, target, shutdown) is Some ==> directory_events(
            before.push(event) + after,
            target,
            shutdown,
        ) == directory_event(event, target, shutdown),
        directory_events(before, target, shutdown) is None,
    decreases before.len(),
{
    let whole = before.push(event) + after;
    if before.len() == 0 {
        assert(whole[0] == event);
    } else {
        assert(directory_event(before[0], target, shutdown) is None);
        let rest = before.skip(1);
        assert forall|i: int| 0 <= i < rest.len() implies directory_event(
            #[trigger] rest[i],
            target,
            shutdown,
        ) is None by {
            assert(rest[i] == before[i + 1]);
        }
        law_first_directory_event_counts(rest, event, after, target, shutdown);
        assert(whole[0] == before[0]);
        assert(whole.skip(1) =~= rest.push(event) + after);
    }
}

/// Reading events, by the numbers of the system: a call that was interrupted or found nothing is
/// made again, events that are there are read, all that were read are handed on, and any other
/// failure is reported with its number. A state in which nothing can be read any more is a failure
/// too. Once told to end, the monitor ends instead of waiting again.
pub proof fn law_reading_by_the_numbers(
    errno: i32,
    len: usize,
    file: i16,
    signal: i16,
    shutdown: bool,
)
    ensures
        ({
            let again = if shutdown {
                ReadAction::Closed
            } else {
                ReadAction::Poll
            };
            let polled = read_next(
                ReadEvent::Polled { file_revents: file, shutdown_revents: signal },
                shutdown,
            );
            let bad = file & 8 != 0 || file & 16 != 0 || file & 32 != 0;
            &&& read_next(ReadEvent::Begin, shutdown) == again
            &&& read_next(ReadEvent::PollFailed(4), shutdown) == again
            &&& errno != 4 ==> read_next(ReadEvent::PollFailed(errno), shutdown)
                == ReadAction::FailedCall(errno)
            &&& read_next(ReadEvent::ReadFailed(4), shutdown) == again
            &&& read_next(ReadEvent::ReadFailed(11), shutdown) == again
            &&& errno != 4 && errno != 11 ==> read_next(ReadEvent::ReadFailed(errno), shutdown) == if (
            errno == 9 || errno == 22) && shutdown {
                ReadAction::Closed
            } else {
                ReadAction::FailedCall(errno)
            }
            &&& read_next(ReadEvent::Read(0), shutdown) == again
            &&& len > 0 ==> read_next(ReadEvent::Read(len), shutdown) == ReadAction::Events(len)
            &&& signal & 1 != 0 ==> polled == ReadAction::Closed
            &&& signal & 1 == 0 && !bad && file & 1 != 0 ==> polled == ReadAction::Read
            &&& signal & 1 == 0 && !bad && file & 1 == 0 ==> polled == again
            &&& signal & 1 == 0 && bad ==> polled == if shutdown {
                ReadAction::Closed
            } else {
                ReadAction::FailedState(file)
            }
        }),
{
    assert(0i16 & 1 == 0 && 0i16 & 8 == 0 && 0i16 & 16 == 0 && 0i16 & 32 == 0) by (bit_vector);
}

/// A monitor that was not told to end goes on for ever as long as it can: it watches the file
/// while it is there and its directory while it is not, and opens the file again whenever either
/// watch says so.
pub proof fn law_monitor_goes_on(result: MonitorLoopResult, shutdown: bool, there: bool)
    ensures
        monitor_next(MonitorEvent::Started, false).1 == MonitorAction::Open,
        monitor_next(MonitorEvent::Opened(there), shutdown).1 == if there {
            MonitorAction::WatchFile
        } else {
            MonitorAction::WatchDirectory
        },
        monitor_next(MonitorEvent::Watched(MonitorLoopResult::Reopen), false).1
            == MonitorAction::Open,
        result != MonitorLoopResult::Reopen ==> monitor_next(
            MonitorEvent::Watched(result),
            shutdown,
        ).1 == MonitorAction::Exit,
        monitor_next(MonitorEvent::Watched(result), true).1 == MonitorAction::Exit,
        monitor_next(MonitorEvent::Started, true).1 == MonitorAction::Exit,
{
}

/// Draining hands every line out that is complete and says anything, however long it is: the line
/// that was begun before is the first of them, and the next begins behind its line feed.
pub proof fn law_draining_hands_out_every_line(
    buffer: &mut LineBuffer,
    added: &str,
    line: Seq<char>,
    rest: Seq<char>,
    r: Vec<String>,
)
    requires
        call_ensures(LineBuffer::drain_new_lines, (buffer, added), r),
        !line.contains('\n'),
    ensures
        old(buffer).unfinished@ + added@ == line.push('\n') + rest && trim(line).len() > 0
            ==> r@.len() > 0 && r@[0]@ == trim(line),
        old(buffer).unfinished@ + added@ == line.push('\n') + rest && !rest.contains('\n') ==> {
            &&& final(buffer).unfinished@ == rest
            &&& r@.len() == if trim(line).len() == 0 {
                0int
            } else {
                1int
            }
        },
        old(buffer).unfinished@ + added@ == line ==> r@.len() == 0 && final(buffer).unfinished@
            == line,
{
    law_every_complete_line_is_handed_out(line, rest);
    if !rest.contains('\n') {
        law_every_complete_line_is_handed_out(rest, Seq::empty());
    }
    assert(texts(r@).len() == r@.len());
    if r@.len() > 0 {
        assert(texts(r@)[0] == r@[0]@);
    }
}

/// Draining a text is draining its first lines and then the others: the lines come in the same
/// order, and none is lost or repeated.
pub proof fn law_draining_goes_line_by_line(
    buffer: &mut LineBuffer,
    other: &mut LineBuffer,
    added: &str,
    more: &str,
    line: Seq<char>,
    r: Vec<String>,
    later: Vec<String>,
)
    requires
        call_ensures(LineBuffer::drain_new_lines, (buffer, added), r),
        call_ensures(LineBuffer::drain_new_lines, (other, more), later),
        !line.contains('\n'),
        old(buffer).unfinished@ + added@ == line.push('\n') + (old(other).unfinished@ + more@),
    ensures
        trim(line).len() == 0 ==> texts(r@) == texts(later@),
        trim(line).len() > 0 ==> texts(r@) == seq![trim(line)] + texts(later@),
        final(buffer).unfinished@ == final(other).unfinished@,
{
    law_every_complete_line_is_handed_out(line, old(other).unfinished@ + more@);
    assert(Seq::<Seq<char>>::empty() + texts(later@) =~= texts(later@));
}

/// The contents of a list of events are those of each, in order.
pub proof fn law_contents_of_events(events: Seq<InotifyEvent>, i: int)
    ensures
        event_views(events).len() == events.len(),
        0 <= i < events.len() ==> event_views(events)[i].mask == events[i].mask
            && event_views(events)[i].bytes == events[i].bytes@,
{
}

/// Events are read out of bytes and dealt with as the laws about them say.
pub proof fn law_events_are_read_and_dealt_with(
    bytes: &Vec<u8>,
    order: ByteOrder,
    events: Vec<InotifyEvent>,
    watch: &mut FileWatch,
    fresh: FileWatch,
    present: bool,
    step: Option<FileStep>,
    target: &Vec<u8>,
    shutdown: bool,
    result: Option<MonitorLoopResult>,
    holds: bool,
    i: int,
)
    ensures
        call_ensures(parse_events, (bytes, order), events) ==> event_views(events@) == events_from(
            bytes@,
            0,
            order,
        ),
        call_ensures(event_name_matches, (bytes, target), holds) ==> (holds <==> bytes@.len() > 16
            && event_name(bytes@) == target@),
        call_ensures(watch_directory_events, (&events, target, shutdown), result) ==> result
            == directory_events(event_views(events@), target@, shutdown),
        call_ensures(FileWatch::new, (&events,), fresh) ==> fresh.at == 0 && fresh.phase
            == FileWatchPhase::Next && fresh.masks@.len() == events@.len() && (0 <= i < events@.len()
            ==> fresh.masks@[i] == events@[i].mask),
        call_ensures(FileWatch::step, (watch, present), step) ==> final(watch).masks == old(watch).masks
            && (final(watch).at as int, final(watch).phase, step) == watch_next(
            old(watch).masks@,
            old(watch).at as int,
            old(watch).phase,
            present,
        ),
{
}

/// Single events mean what their bits say.
pub proof fn law_single_events_by_their_bits(mask: u32, present: bool, holds: bool, action: FileEventAction)
    ensures
        call_ensures(queue_overflowed, (mask,), holds) ==> (holds <==> mask & 0x4000 != 0),
        call_ensures(needs_existence, (mask,), holds) ==> (holds <==> mask & 0x8000 == 0 && mask & 0x800
            == 0 && mask & 0x400 == 0 && mask & 0x4 != 0),
        call_ensures(watch_file_event, (mask, present), action) ==> {
            let gone = mask & 0x8000 != 0 || mask & 0x800 != 0 || mask & 0x400 != 0 || (mask & 0x4 != 0
                && !present);
            &&& gone ==> action is Reopen
            &&& !gone ==> action == (FileEventAction::Continue {
                check_reset: mask & 0x4 != 0,
                modified: mask & 0x2 != 0,
            })
        },
{
}

/// A line that says anything is handed out without the white space around it; a file that became
/// shorter than what was read is read anew, and what was begun of a line is forgotten.
pub proof fn law_lines_and_resets(
    line: &str,
    r: Option<String>,
    buffer: &mut LineBuffer,
    position: u64,
    size: u64,
    reset: bool,
    fresh: LineBuffer,
)
    ensures
        call_ensures(new_line, (line,), r) ==> match r {
            Some(text) => text@ == trim(line@) && text@.len() > 0,
            None => trim(line@).len() == 0,
        },
        call_ensures(LineBuffer::handle_file_reset_if_needed, (buffer, position, size), reset) ==> {
            &&& reset <==> size < position
            &&& reset ==> final(buffer).unfinished@.len() == 0
            &&& !reset ==> final(buffer).unfinished@ == old(buffer).unfinished@
        },
        call_ensures(LineBuffer::new, (), fresh) ==> fresh.unfinished@.len() == 0,
{
}

/// Reading and watching go on as the laws about them say, and an end that was asked for is asked for
/// once.
pub proof fn law_monitor_does_as_it_is_told(
    event: ReadEvent,
    shutdown: bool,
    action: ReadAction,
    monitor: MonitorEvent,
    next: (MonitorPhase, MonitorAction),
    revents: i16,
    text: String,
    errno: Option<i32>,
    holds: bool,
    control: &mut FileMonitorControl,
    outcome: SignalOutcome,
    fresh: FileMonitorControl,
)
    ensures
        call_ensures(read_inotify_events, (event, shutdown), action) ==> action == read_next(
            event,
            shutdown,
        ),
        call_ensures(monitor_file, (monitor, shutdown), next) ==> next == monitor_next(monitor, shutdown),
        call_ensures(unexpected_revents, (revents,), text) ==> text@
            == "inotify poll returned unexpected revents: "@ + signed_decimal(revents as int),
        call_ensures(watch_failure_is_close, (shutdown, errno), holds) ==> (holds <==> shutdown && (errno
            == Some(9i32) || errno == Some(22i32))),
        call_ensures(FileMonitorControl::close, (control,), holds) ==> final(control).shutdown_requested
            && (holds <==> !old(control).shutdown_requested),
        call_ensures(FileMonitorControl::new, (), fresh) ==> !fresh.shutdown_requested,
        call_ensures(FileMonitorControl::is_shutdown_requested, (&fresh,), holds) ==> holds
            == fresh.shutdown_requested,
        call_ensures(signal_outcome, (errno,), outcome) ==> {
            &&& errno is None || errno == Some(11i32) ==> outcome is Done
            &&& errno == Some(4i32) ==> outcome is Retry
            &&& errno is Some && errno != Some(4i32) && errno != Some(11i32) ==> outcome is Failed
        },
{
}

} // verus!
