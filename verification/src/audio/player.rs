//! Playing sound through an `aplay` process.

use crate::audio::config::{config_or_default, format_name, AudioConfig, AudioConfigView};
use crate::audio::recorder::has_option;
use crate::text::{decimal, decimal_of, texts};
use crate::transport::queue::{SyncQueue, TryRecvError, TrySendError};
use vstd::prelude::*;

verus! {

/// How many blocks may wait to be played.
pub const PLAY_QUEUE_CAPACITY: usize = 50;

/// The arguments of `aplay` for a format.
pub open spec fn aplay_args(config: AudioConfigView) -> Seq<Seq<char>> {
    seq![
        "--quiet"@,
        "-t"@,
        "raw"@,
        "-f"@,
        format_name(config.bits_per_sample),
        "-r"@,
        decimal(config.sample_rate as nat),
        "-c"@,
        decimal(config.channels as nat),
        "--buffer-size"@,
        decimal(config.buffer_size as nat),
        "--period-size"@,
        decimal(config.period_size as nat),
        "-"@,
    ]
}

/// See [`aplay_args`].
pub fn build_aplay_args(config: &AudioConfig) -> (r: Vec<String>)
    ensures
        texts(r@) == aplay_args(config@),
{
    let mut args: Vec<String> = Vec::new();
    args.push("--quiet".to_string());
    args.push("-t".to_string());
    args.push("raw".to_string());
    args.push("-f".to_string());
    args.push(config.format_name());
    args.push("-r".to_string());
    args.push(decimal_of(config.sample_rate as u64));
    args.push("-c".to_string());
    args.push(decimal_of(config.channels as u64));
    args.push("--buffer-size".to_string());
    args.push(decimal_of(config.buffer_size as u64));
    args.push("--period-size".to_string());
    args.push(decimal_of(config.period_size as u64));
    args.push("-".to_string());
    assert(texts(args@) =~= aplay_args(config@));
    args
}

/// What has to be done to stop a player, in this order: the playback thread,
/// which sees the end of its queue, is waited for, and only then is the process
/// killed, so that nothing is written to a process that is gone.
#[derive(Debug, Clone, Copy, PartialEq, Eq)]
pub struct PlayerStop {
    pub join_task: bool,
    pub kill_child: bool,
}

/// What has to be done to start a player: stop the one that runs, then start
/// `aplay` with these arguments.
#[derive(Debug, PartialEq, Eq)]
pub struct PlayerStart {
    pub stop: PlayerStop,
    pub args: Vec<String>,
}

/// What became of a block that was to be played.
#[derive(Debug, PartialEq, Eq)]
pub enum Enqueued {
    /// It will be played.
    Queued,
    /// No player was started, so it was dropped.
    NotStarted,
    /// The queue is full: wait for room and try again.
    Waits(Vec<u8>),
    /// The playback thread is gone.
    Disconnected,
}

/// What the playback thread does next.
#[derive(Debug, PartialEq, Eq)]
pub enum Playback {
    /// Write this block to the process.
    Write(Vec<u8>),
    /// Wait for a block.
    Wait,
    /// End.
    End,
}

/// A player: at most one process and one playback thread, with a queue between
/// them and whoever has something to play.
pub struct AudioPlayer {
    /// The queue of the playback thread, if one was started. Its sending side is
    /// gone once the player was stopped.
    pub queue: Option<SyncQueue<Vec<u8>>>,
    pub task: bool,
    pub child: bool,
}

impl AudioPlayer {
    pub open spec fn wf(&self) -> bool {
        &&& self.queue matches Some(queue) ==> queue.wf() && queue.capacity == PLAY_QUEUE_CAPACITY
        &&& self.task == self.child
        &&& self.task ==> self.is_started()
        &&& self.is_started() ==> self.task
    }

    /// Blocks are taken in.
    pub open spec fn is_started(&self) -> bool {
        self.queue matches Some(queue) && queue.sender_alive
    }

    /// The blocks that wait to be played.
    pub open spec fn waiting(&self) -> Seq<Vec<u8>> {
        match self.queue {
            Some(queue) => queue@,
            None => Seq::empty(),
        }
    }

    /// The playback thread still takes blocks out of the queue.
    pub open spec fn is_read(&self) -> bool {
        self.queue matches Some(queue) && queue.receiver_alive
    }

    /// A player that was not started.
    pub fn new() -> (r: Self)
        ensures
            r.wf(),
            !r.is_started(),
            !r.task,
            r.waiting().len() == 0,
    {
        AudioPlayer { queue: None, task: false, child: false }
    }

    /// Begins to start a player in the given format, or the usual one. Whatever
    /// runs is stopped first; once the process runs, [`AudioPlayer::started`]
    /// completes the start.
    pub fn start(&mut self, config: Option<AudioConfig>) -> (r: PlayerStart)
        requires
            old(self).wf(),
        ensures
            final(self).wf(),
            !final(self).is_started(),
            final(self).is_read() == old(self).is_read(),
            final(self).waiting() == old(self).waiting(),
            r.stop == (PlayerStop { join_task: old(self).task, kill_child: old(self).child }),
            texts(r.args@) == aplay_args(config_or_default(config)),
    {
        let stop = self.stop();
        let config = AudioConfig::or_standard(config);
        PlayerStart { stop, args: build_aplay_args(&config) }
    }

    /// The process and the playback thread run; blocks are taken in from now on,
    /// into an empty queue.
    pub fn started(&mut self)
        requires
            old(self).wf(),
            !old(self).is_started(),
        ensures
            final(self).wf(),
            final(self).is_started(),
            final(self).is_read(),
            final(self).waiting().len() == 0,
    {
        self.queue = Some(SyncQueue::new(PLAY_QUEUE_CAPACITY));
        self.task = true;
        self.child = true;
    }

    /// Queues a block to be played. Without a started player it is dropped, and
    /// that is no error: blocks may come early or late.
    pub fn enqueue(&mut self, bytes: Vec<u8>) -> (r: Enqueued)
        requires
            old(self).wf(),
        ensures
            final(self).wf(),
            final(self).is_started() == old(self).is_started(),
            final(self).task == old(self).task,
            final(self).is_read() == old(self).is_read(),
            !old(self).is_started() ==> r == Enqueued::NotStarted,
            old(self).is_started() && !old(self).is_read() ==> r == Enqueued::Disconnected,
            old(self).is_started() && old(self).is_read() && old(self).waiting().len()
                == PLAY_QUEUE_CAPACITY ==> r == Enqueued::Waits(bytes),
            old(self).is_started() && old(self).is_read() && old(self).waiting().len()
                < PLAY_QUEUE_CAPACITY ==> r == Enqueued::Queued,
            final(self).waiting() == if r == Enqueued::Queued {
                old(self).waiting().push(bytes)
            } else {
                old(self).waiting()
            },
    {
        match self.queue.as_mut() {
            Some(queue) => {
                if !queue.sender_alive {
                    return Enqueued::NotStarted;
                }
                match queue.try_send(bytes) {
                    Ok(()) => Enqueued::Queued,
                    Err(TrySendError::Full(bytes)) => Enqueued::Waits(bytes),
                    Err(TrySendError::Disconnected(_)) => Enqueued::Disconnected,
                }
            },
            None => Enqueued::NotStarted,
        }
    }

    /// What the playback thread does next. What was queued before a stop is
    /// still played.
    pub fn next_block(&mut self) -> (r: Playback)
        requires
            old(self).wf(),
        ensures
            final(self).wf(),
            final(self).is_started() == old(self).is_started(),
            final(self).task == old(self).task,
            final(self).is_read() == old(self).is_read(),
            old(self).waiting().len() > 0 ==> r == Playback::Write(old(self).waiting()[0])
                && final(self).waiting() == old(self).waiting().skip(1),
            old(self).waiting().len() == 0 ==> final(self).waiting() == old(self).waiting() && r
                == if old(self).is_started() {
                Playback::Wait
            } else {
                Playback::End
            },
    {
        match self.queue.as_mut() {
            Some(queue) => match queue.try_recv() {
                Ok(bytes) => Playback::Write(bytes),
                Err(TryRecvError::Empty) => Playback::Wait,
                Err(TryRecvError::Disconnected) => Playback::End,
            },
            None => Playback::End,
        }
    }

    /// The playback thread ended; nothing more is played.
    pub fn playback_ended(&mut self)
        requires
            old(self).wf(),
        ensures
            final(self).wf(),
            final(self).is_started() == old(self).is_started(),
            final(self).task == old(self).task,
            !final(self).is_read(),
            final(self).waiting().len() == 0,
    {
        match self.queue.as_mut() {
            Some(queue) => {
                queue.drop_receiver();
            },
            None => {},
        }
    }

    /// Stops the player: no block is taken in any more, and whatever runs has to
    /// be ended as the result says.
    pub fn stop(&mut self) -> (r: PlayerStop)
        requires
            old(self).wf(),
        ensures
            final(self).wf(),
            !final(self).is_started(),
            !final(self).task,
            final(self).is_read() == old(self).is_read(),
            final(self).waiting() == old(self).waiting(),
            r == (PlayerStop { join_task: old(self).task, kill_child: old(self).child }),
    {
        let steps = PlayerStop { join_task: self.task, kill_child: self.child };
        match self.queue.as_mut() {
            Some(queue) => {
                queue.drop_sender();
            },
            None => {},
        }
        self.task = false;
        self.child = false;
        steps
    }
}

/// Stopping twice does no more than stopping once: a player that does not run
/// has nothing to be ended.
pub proof fn law_stopped_player_has_nothing_to_stop(player: AudioPlayer)
    requires
        player.wf(),
        !player.is_started(),
    ensures
        !player.task,
        !player.child,
{
}

/// `aplay` is told the format, the rate, the channels and the sizes of its buffers, and to read what
/// it is given.
pub proof fn law_aplay_is_told_the_format(config: AudioConfigView)
    ensures
        ({
            let args = aplay_args(config);
            &&& args.len() == 14
            &&& args[0] == "--quiet"@
            &&& has_option(args, "-t"@, "raw"@)
            &&& has_option(args, "-f"@, "S"@ + decimal(config.bits_per_sample as nat) + "_LE"@)
            &&& has_option(args, "-r"@, decimal(config.sample_rate as nat))
            &&& has_option(args, "-c"@, decimal(config.channels as nat))
            &&& has_option(args, "--buffer-size"@, decimal(config.buffer_size as nat))
            &&& has_option(args, "--period-size"@, decimal(config.period_size as nat))
            &&& args.last() == "-"@
        }),
{
    let args = aplay_args(config);
    assert(args[1] == "-t"@ && args[2] == "raw"@);
    assert(args[3] == "-f"@ && args[4] == format_name(config.bits_per_sample));
    assert(args[5] == "-r"@ && args[6] == decimal(config.sample_rate as nat));
    assert(args[7] == "-c"@ && args[8] == decimal(config.channels as nat));
    assert(args[9] == "--buffer-size"@ && args[10] == decimal(config.buffer_size as nat));
    assert(args[11] == "--period-size"@ && args[12] == decimal(config.period_size as nat));
}

/// What waits to be played are the blocks in the queue of the player, and blocks are taken in
/// exactly while the queue has a sender.
pub proof fn law_queue_holds_what_waits(player: AudioPlayer)
    ensures
        player.queue matches Some(queue) ==> player.waiting() == queue.items@ && player.is_started()
            == queue.sender_alive && player.is_read() == queue.receiver_alive,
        player.queue is None ==> player.waiting().len() == 0 && !player.is_started()
            && !player.is_read(),
{
}

/// Every block is queued behind those that wait, whatever it holds, while a player runs and has room
/// for 50; with a full queue it comes back, and without a player it is dropped.
pub proof fn law_block_is_queued_while_a_player_runs(
    player: &mut AudioPlayer,
    bytes: Vec<u8>,
    r: Enqueued,
)
    requires
        call_ensures(AudioPlayer::enqueue, (player, bytes), r),
        old(player).wf(),
    ensures
        match old(player).queue {
            Some(queue) => {
                let started = queue.sender_alive;
                &&& !started ==> r == Enqueued::NotStarted
                &&& started && !queue.receiver_alive ==> r == Enqueued::Disconnected
                &&& started && queue.receiver_alive && queue.items@.len() == 50 ==> r
                    == Enqueued::Waits(bytes)
                &&& started && queue.receiver_alive && queue.items@.len() < 50 ==> r
                    == Enqueued::Queued && final(player).waiting() == queue.items@ + seq![bytes]
                &&& r != Enqueued::Queued ==> final(player).waiting() == queue.items@
            },
            None => r == Enqueued::NotStarted && final(player).waiting().len() == 0,
        },
{
    assert(old(player).waiting().push(bytes) =~= old(player).waiting() + seq![bytes]);
}

/// Blocks are played in the order in which they came, each as it is, and what was queued is played
/// to the end even after a stop.
pub proof fn law_blocks_are_played_in_order(player: &mut AudioPlayer, r: Playback)
    requires
        call_ensures(AudioPlayer::next_block, (player,), r),
    ensures
        old(player).waiting().len() > 0 ==> (r matches Playback::Write(bytes) && seq![bytes] + final(player).waiting() == old(player).waiting()),
        old(player).waiting().len() == 0 ==> final(player).waiting().len() == 0 && (r is Wait <==> old(player).is_started()) && (r is End <==> !old(player).is_started()),
        final(player).is_started() == old(player).is_started(),
{
    if old(player).waiting().len() > 0 {
        assert(seq![old(player).waiting()[0]] + old(player).waiting().skip(1) =~= old(player).waiting());
    }
}

/// A player is started in the format that is asked for after what runs was ended, with an empty
/// queue; one that is stopped takes nothing in and keeps what waits.
pub proof fn law_player_is_started_and_stopped(
    player: &mut AudioPlayer,
    config: Option<AudioConfig>,
    start: PlayerStart,
    stop: PlayerStop,
)
    ensures
        call_ensures(AudioPlayer::start, (player, config), start) ==> {
            &&& start.stop.join_task == old(player).task && start.stop.kill_child == old(player).child
            &&& config matches Some(asked) ==> texts(start.args@) == aplay_args(asked@)
            &&& !final(player).is_started() && final(player).waiting() == old(player).waiting()
        },
        call_ensures(AudioPlayer::started, (player,), ()) ==> final(player).is_started() && final(player).is_read() && final(player).waiting().len() == 0 && final(player).task && final(player).child,
        call_ensures(AudioPlayer::stop, (player,), stop) ==> {
            &&& stop.join_task == old(player).task && stop.kill_child == old(player).child
            &&& !final(player).is_started() && !final(player).task
            &&& final(player).waiting() == old(player).waiting()
            &&& final(player).is_read() == old(player).is_read()
        },
        call_ensures(AudioPlayer::playback_ended, (player,), ()) ==> !final(player).is_read() && final(player).waiting().len() == 0 && final(player).is_started() == old(player).is_started(),
{
}

/// The arguments of `aplay` are those that the law about them describes.
pub proof fn law_arguments_of_aplay(config: &AudioConfig, args: Vec<String>)
    requires
        call_ensures(build_aplay_args, (config,), args),
    ensures
        texts(args@) == aplay_args(config@),
{
}

} // verus!
