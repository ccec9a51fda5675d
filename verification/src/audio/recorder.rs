//! Recording sound through an `arecord` process.

use crate::audio::config::{config_or_default, format_name, AudioConfig, AudioConfigView};
use crate::protocol::data::{is_uuid_v4, Stream};
use crate::text::{decimal, decimal_of, texts};
use crate::transport::queue::TrySendError;
use vstd::prelude::*;

verus! {

/// The width in which the A113 microphone is read when 16 bits are wanted.
pub const A113_CAPTURE_BITS_PER_SAMPLE: u16 = 32;

pub const FAST_RECORDING_BITS_PER_SAMPLE: u16 = 16;

pub const FAST_RECORDING_SAMPLE_RATE: u32 = 16_000;

pub const FAST_RECORDING_KWS_CHANNELS: u16 = 1;

pub const FAST_RECORDING_LLM_CHANNELS: u16 = 2;

pub const FAST_RECORDING_PERIOD_SIZE: u32 = 320;

pub const FAST_RECORDING_BUFFER_SIZE: u32 = 2_048;

/// The kind of recording that runs.
#[derive(Debug, Clone, Copy, PartialEq, Eq, Structural)]
pub enum ArecordProfile {
    /// In a format of the peer's choice.
    Standard,
    /// Fast, while waiting for the wake word.
    FastKws,
    /// Fast, during a conversation.
    FastLlm,
}

impl ArecordProfile {
    /// Whether the format is of the peer's choice.
    pub fn is_standard(self) -> (r: bool)
        ensures
            r == (self is Standard),
    {
        match self {
            ArecordProfile::Standard => true,
            _ => false,
        }
    }
}

/// What fast recording is used for.
#[derive(Debug, Clone, Copy, PartialEq, Eq, Structural)]
pub enum FastRecordingMode {
    /// Waiting for the wake word.
    Kws,
    /// A conversation.
    LlmRaw,
}

impl FastRecordingMode {
    /// See [`FastRecordingMode::channel_count`].
    pub open spec fn channels(self) -> u16 {
        match self {
            FastRecordingMode::Kws => FAST_RECORDING_KWS_CHANNELS,
            FastRecordingMode::LlmRaw => FAST_RECORDING_LLM_CHANNELS,
        }
    }

    /// One channel for the wake word, two for a conversation.
    pub fn channel_count(self) -> (r: u16)
        ensures
            r == self.channels(),
    {
        match self {
            FastRecordingMode::Kws => FAST_RECORDING_KWS_CHANNELS,
            FastRecordingMode::LlmRaw => FAST_RECORDING_LLM_CHANNELS,
        }
    }
}

/// The profile of a mode.
pub open spec fn profile_of(mode: FastRecordingMode) -> ArecordProfile {
    match mode {
        FastRecordingMode::Kws => ArecordProfile::FastKws,
        FastRecordingMode::LlmRaw => ArecordProfile::FastLlm,
    }
}

/// See [`profile_of`].
pub fn fast_recording_profile_for_mode(mode: FastRecordingMode) -> (r: ArecordProfile)
    ensures
        r == profile_of(mode),
{
    match mode {
        FastRecordingMode::Kws => ArecordProfile::FastKws,
        FastRecordingMode::LlmRaw => ArecordProfile::FastLlm,
    }
}

/// The fixed format of a mode.
pub open spec fn fast_config(mode: FastRecordingMode) -> AudioConfigView {
    AudioConfigView {
        pcm: "lx06_aec_2ch"@,
        channels: mode.channels(),
        bits_per_sample: FAST_RECORDING_BITS_PER_SAMPLE,
        sample_rate: FAST_RECORDING_SAMPLE_RATE,
        period_size: FAST_RECORDING_PERIOD_SIZE,
        buffer_size: FAST_RECORDING_BUFFER_SIZE,
    }
}

/// See [`fast_config`].
pub fn fast_recording_config_for_mode(mode: FastRecordingMode) -> (r: AudioConfig)
    ensures
        r@ == fast_config(mode),
{
    AudioConfig {
        pcm: "lx06_aec_2ch".to_string(),
        channels: mode.channel_count(),
        bits_per_sample: FAST_RECORDING_BITS_PER_SAMPLE,
        sample_rate: FAST_RECORDING_SAMPLE_RATE,
        period_size: FAST_RECORDING_PERIOD_SIZE,
        buffer_size: FAST_RECORDING_BUFFER_SIZE,
    }
}

/// The format in which the device is read so that `requested` can be delivered.
pub open spec fn capture_config(requested: AudioConfigView) -> AudioConfigView {
    AudioConfigView {
        bits_per_sample: if requested.bits_per_sample == 16 {
            A113_CAPTURE_BITS_PER_SAMPLE
        } else {
            requested.bits_per_sample
        },
        ..requested
    }
}

/// See [`capture_config`].
pub fn capture_config_for_recording(requested: &AudioConfig) -> (r: AudioConfig)
    ensures
        r@ == capture_config(requested@),
{
    let mut capture = requested.clone();
    if requested.bits_per_sample == 16 {
        capture.bits_per_sample = A113_CAPTURE_BITS_PER_SAMPLE;
    }
    capture
}

/// The arguments of `arecord` for a format; only a standard recording chooses
/// its buffers.
pub open spec fn arecord_args(config: AudioConfigView, profile: ArecordProfile) -> Seq<Seq<char>> {
    seq![
        "--quiet"@,
        "-t"@,
        "raw"@,
        "-D"@,
        config.pcm,
        "-f"@,
        format_name(config.bits_per_sample),
        "-r"@,
        decimal(config.sample_rate as nat),
        "-c"@,
        decimal(config.channels as nat),
    ] + if profile is Standard {
        seq![
            "--buffer-size"@,
            decimal(config.buffer_size as nat),
            "--period-size"@,
            decimal(config.period_size as nat),
        ]
    } else {
        Seq::empty()
    }
}

/// See [`arecord_args`].
pub fn build_arecord_args(config: &AudioConfig, profile: ArecordProfile) -> (r: Vec<String>)
    ensures
        texts(r@) == arecord_args(config@, profile),
{
    let mut args: Vec<String> = Vec::new();
    args.push("--quiet".to_string());
    args.push("-t".to_string());
    args.push("raw".to_string());
    args.push("-D".to_string());
    args.push(config.pcm.clone());
    args.push("-f".to_string());
    args.push(config.format_name());
    args.push("-r".to_string());
    args.push(decimal_of(config.sample_rate as u64));
    args.push("-c".to_string());
    args.push(decimal_of(config.channels as u64));
    if profile.is_standard() {
        args.push("--buffer-size".to_string());
        args.push(decimal_of(config.buffer_size as u64));
        args.push("--period-size".to_string());
        args.push(decimal_of(config.period_size as u64));
    }
    assert(texts(args@) =~= arecord_args(config@, profile));
    args
}

/// What has to be done to stop a recording, in this order: the process is
/// killed, and the recording thread, which then reads no more, is waited for.
#[derive(Debug, Clone, Copy, PartialEq, Eq)]
pub struct RecorderStop {
    pub kill_child: bool,
    pub join_task: bool,
}

/// A recording that is to be started.
#[derive(Debug, PartialEq, Eq)]
pub struct RecordingPlan {
    pub profile: ArecordProfile,
    /// The format in which the peer gets the recording.
    pub requested: AudioConfig,
    /// The format in which the device is read.
    pub capture: AudioConfig,
    /// The arguments of `arecord`.
    pub args: Vec<String>,
}

/// What has to be done to start a recording.
#[derive(Debug, PartialEq, Eq)]
pub enum RecorderStart {
    /// Nothing: such a recording runs already.
    AlreadyRunning,
    /// Stop what runs, then start this.
    Launch { stop: RecorderStop, plan: RecordingPlan },
}

/// The format in which the device is read for a profile.
pub open spec fn capture_for(requested: AudioConfigView, profile: ArecordProfile) -> AudioConfigView {
    if profile is Standard {
        capture_config(requested)
    } else {
        requested
    }
}

/// The recorder of one peer: at most one process and one recording thread.
#[derive(Debug, Clone, Copy, PartialEq, Eq)]
pub struct AudioRecorder {
    pub child: bool,
    pub task: bool,
    /// What runs, if anything does.
    pub profile: Option<ArecordProfile>,
}

/// What starting a recording amounts to, given what runs.
pub open spec fn starts(
    before: AudioRecorder,
    requested: AudioConfigView,
    profile: ArecordProfile,
    r: RecorderStart,
    after: AudioRecorder,
) -> bool {
    if before.profile == Some(profile) {
        r == RecorderStart::AlreadyRunning && after == before
    } else {
        &&& after == stopped_recorder()
        &&& r matches RecorderStart::Launch { stop, plan } && {
            &&& stop == (RecorderStop { kill_child: before.child, join_task: before.task })
            &&& plan.profile == profile
            &&& plan.requested@ == requested
            &&& plan.capture@ == capture_for(requested, profile)
            &&& texts(plan.args@) == arecord_args(capture_for(requested, profile), profile)
        }
    }
}

/// A recorder that does not run.
pub open spec fn stopped_recorder() -> AudioRecorder {
    AudioRecorder { child: false, task: false, profile: None }
}

/// A recorder that runs.
pub open spec fn running_recorder(profile: ArecordProfile) -> AudioRecorder {
    AudioRecorder { child: true, task: true, profile: Some(profile) }
}

impl AudioRecorder {
    /// A recorder either runs as a whole or not at all.
    pub open spec fn wf(&self) -> bool {
        self.child == self.profile is Some && self.task == self.profile is Some
    }

    /// A recorder that does not run.
    pub fn new() -> (r: Self)
        ensures
            r == stopped_recorder(),
            r.wf(),
    {
        AudioRecorder { child: false, task: false, profile: None }
    }

    /// Begins a recording in the given format, or the usual one.
    pub fn start_recording(&mut self, config: Option<AudioConfig>) -> (r: RecorderStart)
        requires
            old(self).wf(),
        ensures
            final(self).wf(),
            starts(
                *old(self),
                config_or_default(config),
                ArecordProfile::Standard,
                r,
                *final(self),
            ),
    {
        let requested = AudioConfig::or_standard(config);
        self.start_recording_with_profile(requested, ArecordProfile::Standard)
    }

    /// Begins a fast recording for the wake word.
    pub fn start_fast_recording(&mut self) -> (r: RecorderStart)
        requires
            old(self).wf(),
        ensures
            final(self).wf(),
            starts(
                *old(self),
                fast_config(FastRecordingMode::Kws),
                ArecordProfile::FastKws,
                r,
                *final(self),
            ),
    {
        self.start_fast_recording_for_mode(FastRecordingMode::Kws)
    }

    /// Begins a fast recording.
    pub fn start_fast_recording_for_mode(&mut self, mode: FastRecordingMode) -> (r: RecorderStart)
        requires
            old(self).wf(),
        ensures
            final(self).wf(),
            starts(*old(self), fast_config(mode), profile_of(mode), r, *final(self)),
    {
        self.start_recording_with_profile(
            fast_recording_config_for_mode(mode),
            fast_recording_profile_for_mode(mode),
        )
    }

    /// Changes over to the two channels of a conversation.
    pub fn switch_to_llm_start_audio(&mut self) -> (r: RecorderStart)
        requires
            old(self).wf(),
        ensures
            final(self).wf(),
            starts(
                *old(self),
                fast_config(FastRecordingMode::LlmRaw),
                ArecordProfile::FastLlm,
                r,
                *final(self),
            ),
    {
        self.start_fast_recording_for_mode(FastRecordingMode::LlmRaw)
    }

    /// Changes back to the one channel for the wake word.
    pub fn switch_to_llm_stop_audio(&mut self) -> (r: RecorderStart)
        requires
            old(self).wf(),
        ensures
            final(self).wf(),
            starts(
                *old(self),
                fast_config(FastRecordingMode::Kws),
                ArecordProfile::FastKws,
                r,
                *final(self),
            ),
    {
        self.start_fast_recording_for_mode(FastRecordingMode::Kws)
    }

    /// Begins a recording. One with the same profile that runs already is left
    /// alone; any other is stopped first. Once the process runs,
    /// [`AudioRecorder::started`] completes the start.
    pub fn start_recording_with_profile(
        &mut self,
        requested: AudioConfig,
        profile: ArecordProfile,
    ) -> (r: RecorderStart)
        requires
            old(self).wf(),
        ensures
            final(self).wf(),
            starts(*old(self), requested@, profile, r, *final(self)),
    {
        if let Some(running) = self.profile {
            if running == profile {
                return RecorderStart::AlreadyRunning;
            }
        }
        let stop = self.stop_recording();
        let capture = if profile.is_standard() {
            capture_config_for_recording(&requested)
        } else {
            requested.clone()
        };
        let args = build_arecord_args(&capture, profile);
        RecorderStart::Launch { stop, plan: RecordingPlan { profile, requested, capture, args } }
    }

    /// The process and the recording thread run.
    pub fn started(&mut self, profile: ArecordProfile)
        ensures
            final(self).wf(),
            *final(self) == running_recorder(profile),
    {
        self.child = true;
        self.task = true;
        self.profile = Some(profile);
    }

    /// Stops the recording; whatever runs has to be ended as the result says.
    pub fn stop_recording(&mut self) -> (r: RecorderStop)
        ensures
            final(self).wf(),
            *final(self) == stopped_recorder(),
            r == (RecorderStop { kill_child: old(self).child, join_task: old(self).task }),
    {
        let steps = RecorderStop { kill_child: self.child, join_task: self.task };
        self.child = false;
        self.task = false;
        self.profile = None;
        steps
    }
}

/// Starting what runs already changes nothing and touches no process.
pub proof fn law_starting_twice_is_starting_once(
    profile: ArecordProfile,
    requested: AudioConfigView,
    r: RecorderStart,
    after: AudioRecorder,
)
    requires
        starts(running_recorder(profile), requested, profile, r, after),
    ensures
        r == RecorderStart::AlreadyRunning,
        after == running_recorder(profile),
{
}

/// Changing between the wake word and a conversation always restarts the
/// recording, after the old one was ended.
pub proof fn law_changing_mode_restarts(
    mode: FastRecordingMode,
    other: FastRecordingMode,
    r: RecorderStart,
    after: AudioRecorder,
)
    requires
        mode != other,
        starts(running_recorder(profile_of(mode)), fast_config(other), profile_of(other), r, after),
    ensures
        r matches RecorderStart::Launch { stop, plan } && stop == (RecorderStop {
            kill_child: true,
            join_task: true,
        }) && plan.profile == profile_of(other),
{
}

/// A signed number clamped to 16 bits.
pub open spec fn clamp_i16(n: int) -> int {
    if n < -32768 {
        -32768
    } else if n > 32767 {
        32767
    } else {
        n
    }
}

/// A sample of the A113 in 16 bits. Its data is in the low 24 bits, so that only
/// 8 bits are dropped; what does not fit is clamped.
pub open spec fn sample_16(sample: int) -> int {
    clamp_i16(sample / 256)
}

/// See [`sample_16`].
pub fn convert_a113_s32_sample_to_s16(sample: i32) -> (r: i16)
    ensures
        r == sample_16(sample as int),
{
    let shifted: i32 = sample >> 8;
    assert(shifted * 256 <= sample && sample < shifted * 256 + 256) by (bit_vector)
        requires
            shifted == sample >> 8,
    ;
    if shifted < -32768 {
        -32768
    } else if shifted > 32767 {
        32767
    } else {
        shifted as i16
    }
}

/// The signed number that four bytes stand for, the lowest byte first.
pub open spec fn le_i32(bytes: Seq<u8>, at: int) -> int {
    let unsigned = bytes[at] + 0x100 * bytes[at + 1] + 0x1_0000 * bytes[at + 2] + 0x100_0000
        * bytes[at + 3];
    if bytes[at + 3] < 128 {
        unsigned
    } else {
        unsigned - 0x1_0000_0000
    }
}

/// One of the two bytes of a signed 16 bit number, the lowest byte first.
pub open spec fn le_byte(n: int, which: int) -> u8 {
    let unsigned = if n < 0 {
        n + 0x1_0000
    } else {
        n
    };
    if which == 0 {
        (unsigned % 0x100) as u8
    } else {
        (unsigned / 0x100) as u8
    }
}

/// A block of 32 bit samples in 16 bits; a block that is no whole number of
/// samples gives nothing.
pub open spec fn converted(chunk: Seq<u8>) -> Seq<u8> {
    if chunk.len() % 4 != 0 {
        Seq::empty()
    } else {
        Seq::new(
            chunk.len() / 2,
            |i: int| le_byte(sample_16(le_i32(chunk, 4 * (i / 2))), i % 2),
        )
    }
}

/// See [`converted`].
pub fn convert_a113_s32_to_s16(chunk: &Vec<u8>) -> (r: Vec<u8>)
    ensures
        r@ == converted(chunk@),
{
    if chunk.len() % 4 != 0 {
        return Vec::new();
    }
    let mut out: Vec<u8> = Vec::new();
    let mut base: usize = 0;
    while base < chunk.len()
        invariant
            base <= chunk@.len(),
            base % 4 == 0,
            chunk@.len() % 4 == 0,
            out@ == converted(chunk@).take(base as int / 2),
        decreases chunk@.len() - base,
    {
        let low: i64 = chunk[base] as i64 + 0x100 * chunk[base + 1] as i64 + 0x1_0000 * chunk[base
            + 2] as i64 + 0x100_0000 * chunk[base + 3] as i64;
        let sample: i32 = if chunk[base + 3] < 128 {
            low as i32
        } else {
            (low - 0x1_0000_0000) as i32
        };
        let mapped = convert_a113_s32_sample_to_s16(sample);
        let unsigned: u32 = if mapped < 0 {
            (mapped as i32 + 0x1_0000) as u32
        } else {
            mapped as u32
        };
        let ghost done = out@;
        out.push((unsigned % 0x100) as u8);
        out.push((unsigned / 0x100) as u8);
        proof {
            let half = base as int / 2;
            assert(sample == le_i32(chunk@, base as int));
            assert(4 * (half / 2) == base && 4 * ((half + 1) / 2) == base);
            assert(half % 2 == 0 && (half + 1) % 2 == 1);
            let all = converted(chunk@);
            assert(all[half] == le_byte(mapped as int, 0));
            assert(all[half + 1] == le_byte(mapped as int, 1));
            assert((base + 4) as int / 2 == half + 2);
            assert(out@ =~= all.take(half + 2));
        }
        base += 4;
    }
    assert(converted(chunk@).take(base as int / 2) =~= converted(chunk@));
    out
}

/// A block in the requested format: it is converted only where 32 bits were read
/// because 16 are wanted.
pub open spec fn transformed(
    chunk: Seq<u8>,
    requested: AudioConfigView,
    capture: AudioConfigView,
) -> Seq<u8> {
    if requested.bits_per_sample != 16 || capture.bits_per_sample != A113_CAPTURE_BITS_PER_SAMPLE {
        chunk
    } else {
        converted(chunk)
    }
}

/// See [`transformed`].
pub fn transform_stream_chunk(
    chunk: Vec<u8>,
    requested: &AudioConfig,
    capture: &AudioConfig,
) -> (r: Vec<u8>)
    ensures
        r@ == transformed(chunk@, requested@, capture@),
{
    if requested.bits_per_sample != 16 || capture.bits_per_sample != A113_CAPTURE_BITS_PER_SAMPLE {
        return chunk;
    }
    convert_a113_s32_to_s16(&chunk)
}

/// The larger of two numbers.
pub open spec fn at_least(n: int, least: int) -> int {
    if n < least {
        least
    } else {
        n
    }
}

/// The bytes of one frame, a sample of every channel.
pub open spec fn frame_bytes(config: AudioConfigView) -> int {
    (at_least(config.bits_per_sample as int, 8) / 8) * at_least(config.channels as int, 1)
}

/// The bytes of a block that is sent.
pub open spec fn block_bytes(config: AudioConfigView) -> int {
    at_least(config.buffer_size as int, 1) * frame_bytes(config)
}

/// The bytes that are read at once.
pub open spec fn read_bytes(config: AudioConfigView) -> int {
    at_least(config.period_size as int, 1) * frame_bytes(config)
}

/// A recorded block as it is sent under a profile.
pub open spec fn block_of(
    chunk: Seq<u8>,
    profile: ArecordProfile,
    requested: AudioConfigView,
    capture: AudioConfigView,
) -> Seq<u8> {
    if profile is Standard {
        transformed(chunk, requested, capture)
    } else {
        chunk
    }
}

/// Cuts what an `arecord` process delivers into blocks.
pub struct RecordPump {
    pub profile: ArecordProfile,
    pub requested: AudioConfig,
    pub capture: AudioConfig,
    pub target_size: u64,
    pub read_size: u64,
    /// What was read and is not yet a whole block.
    pub accumulated: Vec<u8>,
    pub dropped_audio_frames: u64,
}

proof fn lemma_sizes(config: AudioConfigView)
    ensures
        1 <= frame_bytes(config) <= 8191 * 65535,
        1 <= block_bytes(config) <= 0xffff_ffff * (8191 * 65535),
        1 <= read_bytes(config) <= 0xffff_ffff * (8191 * 65535),
        config.bits_per_sample == 32 ==> frame_bytes(config) % 4 == 0 && block_bytes(config) % 4 == 0,
{
    let sample = at_least(config.bits_per_sample as int, 8) / 8;
    let channels = at_least(config.channels as int, 1);
    assert(1 <= sample * channels <= 8191 * 65535) by (nonlinear_arith)
        requires
            1 <= sample <= 8191,
            1 <= channels <= 65535,
    ;
    let frame = frame_bytes(config);
    let buffer = at_least(config.buffer_size as int, 1);
    let period = at_least(config.period_size as int, 1);
    assert(1 <= buffer * frame <= 0xffff_ffff * (8191 * 65535)) by (nonlinear_arith)
        requires
            1 <= buffer <= 0xffff_ffff,
            1 <= frame <= 8191 * 65535,
    ;
    assert(1 <= period * frame <= 0xffff_ffff * (8191 * 65535)) by (nonlinear_arith)
        requires
            1 <= period <= 0xffff_ffff,
            1 <= frame <= 8191 * 65535,
    ;
    if config.bits_per_sample == 32 {
        assert(frame == 4 * channels);
        assert(buffer * frame == 4 * (buffer * channels)) by (nonlinear_arith)
            requires
                frame == 4 * channels,
        ;
    }
}

/// The blocks that can be cut from `bytes`, and what is left.
pub open spec fn cut(bytes: Seq<u8>, size: int) -> (Seq<Seq<u8>>, Seq<u8>)
    decreases bytes.len(),
{
    if size <= 0 || bytes.len() < size {
        (Seq::empty(), bytes)
    } else {
        let (blocks, rest) = cut(bytes.skip(size), size);
        (seq![bytes.take(size)] + blocks, rest)
    }
}

/// All blocks in one piece.
pub open spec fn joined(blocks: Seq<Seq<u8>>) -> Seq<u8>
    decreases blocks.len(),
{
    if blocks.len() == 0 {
        Seq::empty()
    } else {
        blocks[0] + joined(blocks.skip(1))
    }
}

/// Cutting loses nothing and changes no order: the blocks and what is left, put
/// together, are what was recorded. Every block has the full size, and what is
/// left is less than one.
pub proof fn law_cutting_loses_nothing(bytes: Seq<u8>, size: int)
    requires
        size > 0,
    ensures
        joined(cut(bytes, size).0) + cut(bytes, size).1 == bytes,
        cut(bytes, size).1.len() < size,
        forall|i: int|
            0 <= i < cut(bytes, size).0.len() ==> (#[trigger] cut(bytes, size).0[i]).len() == size,
    decreases bytes.len(),
{
    let (blocks, rest) = cut(bytes, size);
    if bytes.len() >= size {
        law_cutting_loses_nothing(bytes.skip(size), size);
        let (later, _) = cut(bytes.skip(size), size);
        assert(blocks.skip(1) =~= later);
        assert(joined(blocks) + rest =~= bytes.take(size) + (joined(later) + rest));
        assert(bytes.take(size) + bytes.skip(size) =~= bytes);
        assert forall|i: int| 0 <= i < blocks.len() implies (#[trigger] blocks[i]).len() == size by {
            if i > 0 {
                assert(blocks[i] == later[i - 1]);
            }
        }
    } else {
        assert(joined(blocks) + rest =~= bytes);
    }
}

/// It does not matter in which pieces the recording was read: reading `more`
/// later continues where the cutting stopped.
pub proof fn law_cutting_goes_on_where_it_stopped(bytes: Seq<u8>, more: Seq<u8>, size: int)
    requires
        size > 0,
    ensures
        cut(bytes + more, size).0 == cut(bytes, size).0 + cut(cut(bytes, size).1 + more, size).0,
        cut(bytes + more, size).1 == cut(cut(bytes, size).1 + more, size).1,
    decreases bytes.len(),
{
    if bytes.len() >= size {
        law_cutting_goes_on_where_it_stopped(bytes.skip(size), more, size);
        assert((bytes + more).take(size) =~= bytes.take(size));
        assert((bytes + more).skip(size) =~= bytes.skip(size) + more);
        assert(cut(bytes + more, size).0 =~= cut(bytes, size).0 + cut(
            cut(bytes, size).1 + more,
            size,
        ).0);
    } else {
        assert(Seq::<Seq<u8>>::empty() + cut(bytes + more, size).0 =~= cut(bytes + more, size).0);
    }
}

/// Everything that was read, in one piece.
pub open spec fn all_read(reads: Seq<Seq<u8>>) -> Seq<u8>
    decreases reads.len(),
{
    if reads.len() == 0 {
        Seq::empty()
    } else {
        all_read(reads.drop_last()) + reads.last()
    }
}

/// What comes of reading piece after piece and cutting off whole blocks after each:
/// all the blocks, and what is left.
pub open spec fn pumped(reads: Seq<Seq<u8>>, size: int) -> (Seq<Seq<u8>>, Seq<u8>)
    decreases reads.len(),
{
    if reads.len() == 0 {
        (Seq::empty(), Seq::empty())
    } else {
        let (blocks, left) = pumped(reads.drop_last(), size);
        let (more, rest) = cut(left + reads.last(), size);
        (blocks + more, rest)
    }
}

/// In whatever pieces a recording is read, the blocks that are cut off on the way
/// are those of the whole recording, and so is what is left.
pub proof fn law_pieces_do_not_matter(reads: Seq<Seq<u8>>, size: int)
    requires
        size > 0,
    ensures
        pumped(reads, size) == cut(all_read(reads), size),
    decreases reads.len(),
{
    if reads.len() > 0 {
        law_pieces_do_not_matter(reads.drop_last(), size);
        law_cutting_goes_on_where_it_stopped(all_read(reads.drop_last()), reads.last(), size);
    }
}

impl RecordPump {
    pub open spec fn wf(&self) -> bool {
        &&& self.capture@ == capture_for(self.requested@, self.profile)
        &&& self.target_size == block_bytes(self.capture@)
        &&& self.read_size == read_bytes(self.capture@)
    }

    /// Nothing but what was read is different from `other`.
    pub open spec fn same_setup(&self, other: &Self) -> bool {
        &&& self.profile == other.profile
        &&& self.requested == other.requested
        &&& self.capture == other.capture
        &&& self.target_size == other.target_size
        &&& self.read_size == other.read_size
    }

    /// The pump of a recording that was just started.
    pub fn new(plan: RecordingPlan) -> (r: Self)
        requires
            plan.capture@ == capture_for(plan.requested@, plan.profile),
        ensures
            r.wf(),
            r.profile == plan.profile,
            r.requested == plan.requested,
            r.capture == plan.capture,
            r.accumulated@ == Seq::<u8>::empty(),
            r.dropped_audio_frames == 0,
    {
        let capture = plan.capture;
        proof {
            lemma_sizes(capture@);
        }
        let bits: u64 = if capture.bits_per_sample < 8 {
            8
        } else {
            capture.bits_per_sample as u64
        };
        let channels: u64 = if capture.channels < 1 {
            1
        } else {
            capture.channels as u64
        };
        let target_frames: u64 = if capture.buffer_size < 1 {
            1
        } else {
            capture.buffer_size as u64
        };
        let read_frames: u64 = if capture.period_size < 1 {
            1
        } else {
            capture.period_size as u64
        };
        let bytes_per_frame: u64 = (bits / 8) * channels;
        let target_size: u64 = target_frames * bytes_per_frame;
        let read_size: u64 = read_frames * bytes_per_frame;
        RecordPump {
            profile: plan.profile,
            requested: plan.requested,
            capture,
            target_size,
            read_size,
            accumulated: Vec::new(),
            dropped_audio_frames: 0,
        }
    }

    /// Takes in what was read.
    pub fn feed(&mut self, data: &Vec<u8>)
        requires
            old(self).wf(),
        ensures
            final(self).wf(),
            final(self).same_setup(old(self)),
            final(self).dropped_audio_frames == old(self).dropped_audio_frames,
            final(self).accumulated@ == old(self).accumulated@ + data@,
    {
        let mut i: usize = 0;
        while i < data.len()
            invariant
                i <= data@.len(),
                self.wf(),
                self.same_setup(old(self)),
                self.dropped_audio_frames == old(self).dropped_audio_frames,
                self.accumulated@ == old(self).accumulated@ + data@.take(i as int),
            decreases data@.len() - i,
        {
            self.accumulated.push(data[i]);
            i += 1;
            assert(self.accumulated@ =~= old(self).accumulated@ + data@.take(i as int));
        }
        assert(data@.take(i as int) =~= data@);
    }

    /// Cuts the next block, in the requested format, off what was read. There is
    /// one whenever enough was read, and it is never empty.
    pub fn next_block(&mut self) -> (r: Option<Vec<u8>>)
        requires
            old(self).wf(),
        ensures
            final(self).wf(),
            final(self).same_setup(old(self)),
            final(self).dropped_audio_frames == old(self).dropped_audio_frames,
            r is Some <==> old(self).accumulated@.len() >= old(self).target_size,
            r matches Some(block) ==> {
                let size = old(self).target_size as int;
                &&& block@ == block_of(
                    old(self).accumulated@.take(size),
                    old(self).profile,
                    old(self).requested@,
                    old(self).capture@,
                )
                &&& block@.len() > 0
                &&& final(self).accumulated@ == old(self).accumulated@.skip(size)
            },
            r is None ==> final(self).accumulated@ == old(self).accumulated@,
    {
        if (self.accumulated.len() as u64) < self.target_size {
            return None;
        }
        let size: usize = self.target_size as usize;
        let rest = self.accumulated.split_off(size);
        let mut chunk: Vec<u8> = Vec::new();
        chunk.append(&mut self.accumulated);
        self.accumulated = rest;
        proof {
            assert(chunk@ =~= old(self).accumulated@.take(size as int));
            assert(self.accumulated@ =~= old(self).accumulated@.skip(size as int));
            lemma_sizes(self.capture@);
        }
        let block = if self.profile.is_standard() {
            transform_stream_chunk(chunk, &self.requested, &self.capture)
        } else {
            chunk
        };
        Some(block)
    }

    /// Takes in what was read and gives the blocks that are whole now, as they are
    /// sent.
    pub fn pump(&mut self, data: &Vec<u8>) -> (r: Vec<Vec<u8>>)
        requires
            old(self).wf(),
        ensures
            final(self).wf(),
            final(self).same_setup(old(self)),
            final(self).dropped_audio_frames == old(self).dropped_audio_frames,
            ({
                let (blocks, rest) = cut(
                    old(self).accumulated@ + data@,
                    old(self).target_size as int,
                );
                &&& final(self).accumulated@ == rest
                &&& r@.len() == blocks.len()
                &&& forall|i: int|
                    0 <= i < r@.len() ==> (#[trigger] r@[i])@ == block_of(
                        blocks[i],
                        old(self).profile,
                        old(self).requested@,
                        old(self).capture@,
                    )
            }),
    {
        let ghost size = self.target_size as int;
        proof {
            lemma_sizes(self.capture@);
        }
        self.feed(data);
        let ghost all = self.accumulated@;
        let ghost (blocks, rest) = cut(all, size);
        let mut out: Vec<Vec<u8>> = Vec::new();
        loop
            invariant
                self.wf(),
                self.same_setup(old(self)),
                self.dropped_audio_frames == old(self).dropped_audio_frames,
                size == old(self).target_size,
                size > 0,
                (blocks, rest) == cut(all, size),
                out@.len() <= blocks.len(),
                cut(self.accumulated@, size) == (blocks.skip(out@.len() as int), rest),
                forall|i: int|
                    0 <= i < out@.len() ==> (#[trigger] out@[i])@ == block_of(
                        blocks[i],
                        old(self).profile,
                        old(self).requested@,
                        old(self).capture@,
                    ),
            ensures
                out@.len() == blocks.len(),
                self.accumulated@ == rest,
            decreases self.accumulated@.len(),
        {
            let ghost before = self.accumulated@;
            let ghost done = out@.len() as int;
            match self.next_block() {
                Some(block) => {
                    proof {
                        let (later, _) = cut(before.skip(size), size);
                        assert(blocks.skip(done)[0] == before.take(size));
                        assert(blocks.skip(done).skip(1) =~= later);
                        assert(blocks.skip(done).skip(1) =~= blocks.skip(done + 1));
                    }
                    out.push(block);
                },
                None => {
                    break;
                },
            }
        }
        out
    }

    /// What became of a block that was offered to the peer. A block that found no
    /// room is counted as dropped. `false` means that nobody reads the peer's
    /// audio any more.
    pub fn offered(&mut self, outcome: Result<(), TrySendError<Vec<u8>>>) -> (r: bool)
        requires
            old(self).wf(),
        ensures
            final(self).wf(),
            final(self).same_setup(old(self)),
            final(self).accumulated@ == old(self).accumulated@,
            r == !(outcome matches Err(TrySendError::Disconnected(_))),
            final(self).dropped_audio_frames == if (outcome matches Err(TrySendError::Full(_)))
                && old(self).dropped_audio_frames < u64::MAX {
                (old(self).dropped_audio_frames + 1) as u64
            } else {
                old(self).dropped_audio_frames
            },
    {
        match outcome {
            Ok(()) => true,
            Err(TrySendError::Full(_)) => {
                self.dropped_audio_frames = self.dropped_audio_frames.saturating_add(1);
                true
            },
            Err(TrySendError::Disconnected(_)) => false,
        }
    }
}

/// The stream that carries a recorded block to the peer; an empty block is not
/// worth one.
pub fn record_stream(block: Vec<u8>) -> (r: Option<Stream>)
    ensures
        r is Some <==> block@.len() > 0,
        r matches Some(stream) ==> is_uuid_v4(stream.id@) && stream@.tag == "record"@
            && stream@.bytes == block@ && stream@.data is None,
{
    if block.len() == 0 {
        return None;
    }
    Some(Stream::new("record", block, None))
}

/// Conversion goes sample by sample: a block of whole samples is converted piece by piece, in
/// order, and half as long. A block that breaks off within a sample gives nothing.
pub proof fn law_conversion_goes_by_sample(a: Seq<u8>, b: Seq<u8>)
    requires
        a.len() % 4 == 0,
    ensures
        b.len() % 4 == 0 ==> converted(a + b) == converted(a) + converted(b),
        b.len() % 4 != 0 ==> converted(a + b) == Seq::<u8>::empty(),
        converted(a).len() == a.len() / 2,
{
    if b.len() % 4 == 0 {
        let (left, right) = (converted(a), converted(b));
        assert forall|i: int| 0 <= i < converted(a + b).len() implies #[trigger] converted(a + b)[i]
            == (left + right)[i] by {
            let at = 4 * (i / 2);
            if i < left.len() {
                assert(at + 3 < a.len());
                assert((a + b)[at] == a[at] && (a + b)[at + 1] == a[at + 1] && (a + b)[at + 2] == a[at
                    + 2] && (a + b)[at + 3] == a[at + 3]);
            } else {
                let j = i - left.len();
                let from = 4 * (j / 2);
                assert(at == from + a.len());
                assert(j % 2 == i % 2);
                assert((a + b)[at] == b[from] && (a + b)[at + 1] == b[from + 1] && (a + b)[at + 2]
                    == b[from + 2] && (a + b)[at + 3] == b[from + 3]);
            }
        }
        assert(converted(a + b) =~= left + right);
    }
}

/// One sample loses its lowest byte, rounding down, and what does not fit into 16 bits becomes
/// the nearest number that does. Numbers are written lowest byte first, negative ones as what is
/// missing to the next power.
pub proof fn law_sample_loses_its_lowest_byte(b0: u8, b1: u8, b2: u8, b3: u8)
    ensures
        ({
            let sample = b0 + 256 * b1 + 65536 * b2 + 16777216 * b3 - if b3 >= 128 {
                4294967296int
            } else {
                0int
            };
            let out = converted(seq![b0, b1, b2, b3]);
            let value = out[0] + 256 * out[1] - if out[1] >= 128 {
                65536int
            } else {
                0int
            };
            &&& out.len() == 2
            &&& -8388608 <= sample < 8388608 ==> 256 * value <= sample < 256 * value + 256
            &&& sample >= 8388608 ==> value == 32767
            &&& sample < -8388608 ==> value == -32768
        }),
{
    let bytes = seq![b0, b1, b2, b3];
    let n = sample_16(le_i32(bytes, 0));
    let out = converted(bytes);
    assert(out[0] == le_byte(n, 0) && out[1] == le_byte(n, 1));
    let unsigned = if n < 0 {
        n + 65536
    } else {
        n
    };
    assert(out[0] == unsigned % 256 && out[1] == unsigned / 256);
}

/// A block is converted exactly where the device is read with 32 bits because 16 are wanted, and
/// only in a standard recording; otherwise it is sent as it was read.
pub proof fn law_blocks_are_sent_as_read_or_converted(
    chunk: Seq<u8>,
    profile: ArecordProfile,
    requested: AudioConfigView,
    capture: AudioConfigView,
)
    ensures
        block_of(chunk, profile, requested, capture) == if profile == ArecordProfile::Standard
            && requested.bits_per_sample == 16 && capture.bits_per_sample == 32 {
            converted(chunk)
        } else {
            chunk
        },
        transformed(chunk, requested, capture) == block_of(
            chunk,
            ArecordProfile::Standard,
            requested,
            capture,
        ),
{
}

/// Blocks are cut at the multiples of their size: the block with the number `i` is what was
/// recorded from there on, there are as many as fit, and the rest is left.
pub proof fn law_blocks_lie_at_multiples_of_their_size(bytes: Seq<u8>, size: int, i: int)
    requires
        size > 0,
        i >= 0,
    ensures
        i < cut(bytes, size).0.len() <==> (i + 1) * size <= bytes.len(),
        i < cut(bytes, size).0.len() ==> cut(bytes, size).0[i] == bytes.subrange(
            i * size,
            (i + 1) * size,
        ),
        i == cut(bytes, size).0.len() ==> cut(bytes, size).1 == bytes.skip(i * size),
    decreases bytes.len(),
{
    assert((i + 1) * size == i * size + size) by (nonlinear_arith);
    if bytes.len() < size {
        assert((i + 1) * size >= size && (i == 0 ==> i * size == 0)) by (nonlinear_arith)
            requires
                size > 0,
                i >= 0,
        ;
        assert(bytes.skip(0) =~= bytes);
    } else if i == 0 {
        assert(0 * size == 0 && 1 * size == size) by (nonlinear_arith);
        assert(bytes.subrange(0, size) =~= bytes.take(size));
    } else {
        let rest = bytes.skip(size);
        law_blocks_lie_at_multiples_of_their_size(rest, size, i - 1);
        assert((i - 1) * size == i * size - size && (i - 1) * size >= 0) by (nonlinear_arith)
            requires
                size > 0,
                i >= 1,
        ;
        assert(i - 1 + 1 == i);
        let (later, _) = cut(rest, size);
        assert(cut(bytes, size).0.len() == later.len() + 1);
        if i - 1 < later.len() {
            assert(cut(bytes, size).0[i] == later[i - 1]);
            assert(rest.subrange((i - 1) * size, i * size) =~= bytes.subrange(
                i * size,
                (i + 1) * size,
            ));
        }
        if i - 1 == later.len() {
            if i >= 2 {
                law_blocks_lie_at_multiples_of_their_size(rest, size, i - 2);
                assert(i - 2 + 1 == i - 1);
            } else {
                assert(1 * size == size) by (nonlinear_arith);
            }
            assert(rest.skip((i - 1) * size) =~= bytes.skip(i * size));
        }
    }
}

/// A block holds as many frames as the buffer, a read as many as the period, and a frame the
/// bytes of one sample per channel; what is too small counts as the smallest that is possible.
pub proof fn law_sizes_follow_the_format(config: AudioConfigView)
    ensures
        config.bits_per_sample >= 8 && config.channels >= 1 ==> frame_bytes(config) == (
        config.bits_per_sample / 8) * config.channels,
        config.bits_per_sample < 8 ==> frame_bytes(config) == frame_bytes(
            AudioConfigView { bits_per_sample: 8, ..config },
        ),
        config.channels == 0 ==> frame_bytes(config) == frame_bytes(
            AudioConfigView { channels: 1, ..config },
        ),
        config.buffer_size >= 1 ==> block_bytes(config) == config.buffer_size * frame_bytes(config),
        config.buffer_size == 0 ==> block_bytes(config) == frame_bytes(config),
        config.period_size >= 1 ==> read_bytes(config) == config.period_size * frame_bytes(config),
        config.period_size == 0 ==> read_bytes(config) == frame_bytes(config),
{
    assert(1 * frame_bytes(config) == frame_bytes(config)) by (nonlinear_arith);
}

/// Whether an option is followed by a value.
pub open spec fn has_option(args: Seq<Seq<char>>, option: Seq<char>, value: Seq<char>) -> bool {
    exists|i: int| 0 <= i < args.len() - 1 && #[trigger] args[i] == option && args[i + 1] == value
}

/// `arecord` is told the device, the format, the rate and the channels, and in a standard
/// recording also the sizes of its buffers; it is told nothing else.
pub proof fn law_arecord_is_told_the_format(config: AudioConfigView, profile: ArecordProfile)
    ensures
        ({
            let args = arecord_args(config, profile);
            &&& has_option(args, "-t"@, "raw"@)
            &&& has_option(args, "-D"@, config.pcm)
            &&& has_option(args, "-f"@, "S"@ + decimal(config.bits_per_sample as nat) + "_LE"@)
            &&& has_option(args, "-r"@, decimal(config.sample_rate as nat))
            &&& has_option(args, "-c"@, decimal(config.channels as nat))
            &&& args[0] == "--quiet"@
            &&& profile == ArecordProfile::Standard ==> args.len() == 15 && has_option(
                args,
                "--buffer-size"@,
                decimal(config.buffer_size as nat),
            ) && has_option(args, "--period-size"@, decimal(config.period_size as nat))
            &&& profile != ArecordProfile::Standard ==> args.len() == 11
        }),
{
    let args = arecord_args(config, profile);
    assert(args[1] == "-t"@ && args[2] == "raw"@);
    assert(args[3] == "-D"@ && args[4] == config.pcm);
    assert(args[5] == "-f"@ && args[6] == format_name(config.bits_per_sample));
    assert(args[7] == "-r"@ && args[8] == decimal(config.sample_rate as nat));
    assert(args[9] == "-c"@ && args[10] == decimal(config.channels as nat));
    if profile is Standard {
        assert(args[11] == "--buffer-size"@ && args[12] == decimal(config.buffer_size as nat));
        assert(args[13] == "--period-size"@ && args[14] == decimal(config.period_size as nat));
    }
}

/// A recording other than the one that runs is launched in the format that was asked for, after
/// whatever runs was ended. The device is read in that format too, but for 16 bits in a standard
/// recording, for which it is read with 32.
pub proof fn law_recording_is_launched_as_asked(
    before: AudioRecorder,
    requested: AudioConfigView,
    profile: ArecordProfile,
    r: RecorderStart,
    after: AudioRecorder,
)
    requires
        starts(before, requested, profile, r, after),
    ensures
        before.profile == Some(profile) ==> r == RecorderStart::AlreadyRunning && after == before,
        before.profile != Some(profile) ==> {
            &&& !after.child && !after.task && after.profile is None
            &&& r matches RecorderStart::Launch { stop, plan } && stop.kill_child == before.child
                && stop.join_task == before.task && plan.profile == profile && plan.requested@
                == requested && plan.capture@.pcm == requested.pcm && plan.capture@.channels
                == requested.channels && plan.capture@.sample_rate == requested.sample_rate
                && plan.capture@.period_size == requested.period_size && plan.capture@.buffer_size
                == requested.buffer_size && plan.capture@.bits_per_sample == (if profile
                == ArecordProfile::Standard && requested.bits_per_sample == 16 {
                32u16
            } else {
                requested.bits_per_sample
            }) && texts(plan.args@) == arecord_args(plan.capture@, profile)
        },
{
}

/// Fast recordings have 16 bits, 16000 samples a second and one channel while waiting for the
/// wake word, and two in a conversation; each has a profile of its own.
pub proof fn law_fast_recordings_differ_in_their_channels(mode: FastRecordingMode)
    ensures
        fast_config(mode).bits_per_sample == 16,
        fast_config(mode).sample_rate == 16000,
        fast_config(mode).pcm == "lx06_aec_2ch"@,
        fast_config(mode).channels == if mode == FastRecordingMode::Kws {
            1u16
        } else {
            2u16
        },
        profile_of(mode) == if mode == FastRecordingMode::Kws {
            ArecordProfile::FastKws
        } else {
            ArecordProfile::FastLlm
        },
{
}

/// Each sample of a block is converted by itself and stays in its place: from every four bytes two
/// are made, which stand for the 256th part, rounded down, of what the four stand for.
pub proof fn law_every_sample_is_converted_in_its_place(chunk: &Vec<u8>, r: Vec<u8>, i: int)
    requires
        call_ensures(convert_a113_s32_to_s16, (chunk,), r),
    ensures
        chunk@.len() % 4 != 0 ==> r@.len() == 0,
        chunk@.len() % 4 == 0 ==> r@.len() * 2 == chunk@.len(),
        chunk@.len() % 4 == 0 && 0 <= i && 4 * i + 3 < chunk@.len() ==> {
            let sample = chunk@[4 * i] + 256 * chunk@[4 * i + 1] + 65536 * chunk@[4 * i + 2]
                + 16777216 * chunk@[4 * i + 3] - if chunk@[4 * i + 3] >= 128 {
                4294967296int
            } else {
                0int
            };
            let value = r@[2 * i] + 256 * r@[2 * i + 1] - if r@[2 * i + 1] >= 128 {
                65536int
            } else {
                0int
            };
            &&& -8388608 <= sample < 8388608 ==> 256 * value <= sample < 256 * value + 256
            &&& sample >= 8388608 ==> value == 32767
            &&& sample < -8388608 ==> value == -32768
        },
{
    if chunk@.len() % 4 == 0 && 0 <= i && 4 * i + 3 < chunk@.len() {
        let (before, at, after) = (
            chunk@.take(4 * i),
            chunk@.subrange(4 * i, 4 * i + 4),
            chunk@.skip(4 * i + 4),
        );
        assert(chunk@ =~= before + (at + after));
        law_conversion_goes_by_sample(before, at + after);
        law_conversion_goes_by_sample(at, after);
        law_sample_loses_its_lowest_byte(at[0], at[1], at[2], at[3]);
        assert(at =~= seq![at[0], at[1], at[2], at[3]]);
        assert(r@[2 * i] == converted(at)[0] && r@[2 * i + 1] == converted(at)[1]);
    }
}

/// A pump cuts its blocks off what was read, in order and without a gap: each block is the next
/// `target_size` bytes, as the profile has them sent, and what is left waits for more.
pub proof fn law_pump_cuts_without_a_gap(pump: &mut RecordPump, data: &Vec<u8>, r: Vec<Vec<u8>>, i: int)
    requires
        call_ensures(RecordPump::pump, (pump, data), r),
        old(pump).target_size > 0,
        i >= 0,
    ensures
        ({
            let (all, size) = (old(pump).accumulated@ + data@, old(pump).target_size as int);
            &&& i < r@.len() <==> (i + 1) * size <= all.len()
            &&& i < r@.len() ==> r@[i]@ == block_of(
                all.subrange(i * size, (i + 1) * size),
                old(pump).profile,
                old(pump).requested@,
                old(pump).capture@,
            )
            &&& i == r@.len() ==> final(pump).accumulated@ == all.skip(i * size)
        }),
        final(pump).profile == old(pump).profile && final(pump).requested == old(pump).requested
            && final(pump).capture == old(pump).capture && final(pump).target_size == old(pump).target_size && final(pump).read_size == old(pump).read_size,
{
    law_blocks_lie_at_multiples_of_their_size(
        old(pump).accumulated@ + data@,
        old(pump).target_size as int,
        i,
    );
}

/// What is read is put behind what was read before; a block is cut off the front as soon as there is
/// enough for one; and every block that found no room is counted, as far as can be counted.
pub proof fn law_pump_takes_in_and_counts(
    pump: &mut RecordPump,
    data: &Vec<u8>,
    block: Option<Vec<u8>>,
    outcome: Result<(), TrySendError<Vec<u8>>>,
    goes_on: bool,
)
    ensures
        call_ensures(RecordPump::feed, (pump, data), ()) ==> final(pump).accumulated@ == old(pump).accumulated@ + data@ && final(pump).dropped_audio_frames == old(pump).dropped_audio_frames,
        call_ensures(RecordPump::next_block, (pump,), block) ==> {
            let size = old(pump).target_size as int;
            &&& block is Some <==> old(pump).accumulated@.len() >= size
            &&& block is None ==> final(pump).accumulated@ == old(pump).accumulated@
            &&& block matches Some(bytes) ==> final(pump).accumulated@ == old(pump).accumulated@.skip(size) && bytes@ == block_of(
                old(pump).accumulated@.take(size),
                old(pump).profile,
                old(pump).requested@,
                old(pump).capture@,
            )
        },
        call_ensures(RecordPump::offered, (pump, outcome), goes_on) ==> {
            &&& final(pump).accumulated@ == old(pump).accumulated@
            &&& goes_on <==> (outcome is Ok || outcome->Err_0 is Full)
            &&& outcome is Err && outcome->Err_0 is Full && old(pump).dropped_audio_frames < u64::MAX
                ==> final(pump).dropped_audio_frames == old(pump).dropped_audio_frames + 1
            &&& outcome is Ok || outcome->Err_0 is Disconnected || old(pump).dropped_audio_frames
                == u64::MAX ==> final(pump).dropped_audio_frames == old(pump).dropped_audio_frames
        },
{
}

/// A pump is set up for the plan of its recording, with the sizes of the format that is read; a block
/// that is not empty becomes a stream of recorded sound with all its bytes.
pub proof fn law_pump_follows_its_plan(
    plan: RecordingPlan,
    pump: RecordPump,
    block: Vec<u8>,
    stream: Option<Stream>,
)
    ensures
        call_ensures(RecordPump::new, (plan,), pump) ==> {
            &&& pump.profile == plan.profile && pump.requested == plan.requested && pump.capture
                == plan.capture
            &&& pump.target_size == block_bytes(plan.capture@)
            &&& pump.read_size == read_bytes(plan.capture@)
            &&& pump.accumulated@.len() == 0 && pump.dropped_audio_frames == 0
        },
        call_ensures(record_stream, (block,), stream) ==> {
            &&& stream is Some <==> block@.len() > 0
            &&& stream matches Some(sent) ==> sent.tag@ == "record"@ && sent.bytes@ == block@
                && sent.data is None
        },
{
}

/// The recordings that can be started are those that were asked for: in the peer's format, or in the
/// fixed one of the wake word or of a conversation.
pub proof fn law_recorder_starts_what_is_asked(
    recorder: &mut AudioRecorder,
    config: Option<AudioConfig>,
    requested: AudioConfig,
    profile: ArecordProfile,
    mode: FastRecordingMode,
    r: RecorderStart,
)
    ensures
        call_ensures(AudioRecorder::start_recording, (recorder, config), r) ==> starts(
            *old(recorder),
            config_or_default(config),
            ArecordProfile::Standard,
            r,
            *final(recorder),
        ),
        call_ensures(AudioRecorder::start_recording_with_profile, (recorder, requested, profile), r)
            ==> starts(*old(recorder), requested@, profile, r, *final(recorder)),
        call_ensures(AudioRecorder::start_fast_recording, (recorder,), r) || call_ensures(
            AudioRecorder::switch_to_llm_stop_audio,
            (recorder,),
            r,
        ) ==> starts(
            *old(recorder),
            fast_config(FastRecordingMode::Kws),
            ArecordProfile::FastKws,
            r,
            *final(recorder),
        ),
        call_ensures(AudioRecorder::switch_to_llm_start_audio, (recorder,), r) ==> starts(
            *old(recorder),
            fast_config(FastRecordingMode::LlmRaw),
            ArecordProfile::FastLlm,
            r,
            *final(recorder),
        ),
        call_ensures(AudioRecorder::start_fast_recording_for_mode, (recorder, mode), r) ==> starts(
            *old(recorder),
            fast_config(mode),
            profile_of(mode),
            r,
            *final(recorder),
        ),
{
}

/// A recorder that was started runs as a whole, and one that was stopped not at all; what has to be
/// ended is what ran.
pub proof fn law_recorder_runs_as_a_whole(
    recorder: &mut AudioRecorder,
    profile: ArecordProfile,
    stop: RecorderStop,
)
    ensures
        call_ensures(AudioRecorder::started, (recorder, profile), ()) ==> final(recorder).child && final(recorder).task && final(recorder).profile == Some(profile),
        call_ensures(AudioRecorder::stop_recording, (recorder,), stop) ==> !final(recorder).child
            && !final(recorder).task && final(recorder).profile is None && stop.kill_child == old(recorder).child && stop.join_task == old(recorder).task,
        running_recorder(profile) == (AudioRecorder {
            child: true,
            task: true,
            profile: Some(profile),
        }),
        stopped_recorder() == (AudioRecorder { child: false, task: false, profile: None }),
        profile_of(FastRecordingMode::Kws) == ArecordProfile::FastKws,
        profile_of(FastRecordingMode::LlmRaw) == ArecordProfile::FastLlm,
{
}

/// Single samples, blocks, formats and arguments are made as the laws about them say.
pub proof fn law_recording_is_made_of_these(
    sample: i32,
    short: i16,
    chunk: Vec<u8>,
    requested: &AudioConfig,
    capture: &AudioConfig,
    block: Vec<u8>,
    config: AudioConfig,
    mode: FastRecordingMode,
    profile: ArecordProfile,
    args: Vec<String>,
)
    ensures
        call_ensures(convert_a113_s32_sample_to_s16, (sample,), short) ==> {
            &&& -8388608 <= sample < 8388608 ==> 256 * short <= sample < 256 * short + 256
            &&& sample >= 8388608 ==> short == 32767
            &&& sample < -8388608 ==> short == -32768
        },
        call_ensures(transform_stream_chunk, (chunk, requested, capture), block) ==> block@ == if requested.bits_per_sample
            == 16 && capture.bits_per_sample == 32 {
            converted(chunk@)
        } else {
            chunk@
        },
        call_ensures(capture_config_for_recording, (requested,), config) ==> config@ == (
        AudioConfigView {
            bits_per_sample: if requested.bits_per_sample == 16 {
                32
            } else {
                requested.bits_per_sample
            },
            ..requested@
        }),
        call_ensures(fast_recording_config_for_mode, (mode,), config) ==> config@ == fast_config(mode),
        call_ensures(fast_recording_profile_for_mode, (mode,), profile) ==> profile == profile_of(mode),
        call_ensures(build_arecord_args, (requested, profile), args) ==> texts(args@) == arecord_args(
            requested@,
            profile,
        ),
{
}

/// A mode has its channels, and only a standard recording has a format of the peer's choice.
pub proof fn law_modes_have_their_channels(
    mode: FastRecordingMode,
    profile: ArecordProfile,
    channels: u16,
    holds: bool,
)
    ensures
        call_ensures(FastRecordingMode::channel_count, (mode,), channels) ==> channels == if mode
            == FastRecordingMode::Kws {
            1u16
        } else {
            2u16
        },
        call_ensures(ArecordProfile::is_standard, (profile,), holds) ==> (holds <==> profile
            == ArecordProfile::Standard),
{
}

} // verus!
