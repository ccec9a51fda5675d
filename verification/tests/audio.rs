use client_rust::audio::config::AudioConfig;
use client_rust::audio::player::{
    build_aplay_args, AudioPlayer, Enqueued, Playback, PlayerStop, PLAY_QUEUE_CAPACITY,
};
use client_rust::audio::recorder::{
    build_arecord_args, capture_config_for_recording, convert_a113_s32_sample_to_s16,
    convert_a113_s32_to_s16, fast_recording_config_for_mode, fast_recording_profile_for_mode,
    record_stream, transform_stream_chunk, ArecordProfile, AudioRecorder, FastRecordingMode,
    RecordPump, RecorderStart, RecorderStop, RecordingPlan,
};
use client_rust::protocol::json::Json;
use client_rust::transport::queue::TrySendError;

fn config(bits_per_sample: u16) -> AudioConfig {
    AudioConfig {
        pcm: "noop".to_string(),
        channels: 1,
        bits_per_sample,
        sample_rate: 16_000,
        period_size: 160,
        buffer_size: 480,
    }
}

// ---------------------------------------------------------------------------
// The format

#[test]
fn usual_format() {
    let standard = AudioConfig::standard();
    assert_eq!(standard.pcm, "noop");
    assert_eq!(standard.channels, 1);
    assert_eq!(standard.bits_per_sample, 32);
    assert_eq!(standard.sample_rate, 48000);
    assert_eq!(standard.period_size, 384);
    assert_eq!(standard.buffer_size, 6144);
    assert_eq!(AudioConfig::or_standard(None), standard);
    assert_eq!(AudioConfig::or_standard(Some(config(16))), config(16));
    assert_eq!(config(16).format_name(), "S16_LE");
}

fn config_json(channels: Json) -> Json {
    Json::Object(vec![
        ("pcm".to_string(), Json::Str("noop".to_string())),
        ("channels".to_string(), channels),
        ("bits_per_sample".to_string(), Json::Uint(16)),
        ("sample_rate".to_string(), Json::Uint(16_000)),
        ("period_size".to_string(), Json::Uint(160)),
        ("extra".to_string(), Json::Null),
        ("buffer_size".to_string(), Json::Uint(480)),
    ])
}

#[test]
fn format_out_of_json() {
    assert_eq!(AudioConfig::from_value(&config_json(Json::Uint(1))), Some(config(16)));
    assert_eq!(AudioConfig::from_value(&config_json(Json::Uint(65536))), None);
    assert_eq!(AudioConfig::from_value(&config_json(Json::Int(-1))), None);
    assert_eq!(AudioConfig::from_value(&config_json(Json::Float("1.0".to_string()))), None);
    assert_eq!(AudioConfig::from_value(&config_json(Json::Null)), None);
    assert_eq!(AudioConfig::from_value(&Json::Null), None);
    assert_eq!(AudioConfig::from_value(&Json::Object(Vec::new())), None);
    let list = Json::Array(vec![
        Json::Str("noop".to_string()),
        Json::Uint(1),
        Json::Uint(16),
        Json::Uint(16_000),
        Json::Uint(160),
        Json::Uint(480),
    ]);
    assert_eq!(AudioConfig::from_value(&list), Some(config(16)));
}

// ---------------------------------------------------------------------------
// The player

#[test]
fn aplay_gets_the_format() {
    assert_eq!(
        build_aplay_args(&config(16)),
        vec![
            "--quiet",
            "-t",
            "raw",
            "-f",
            "S16_LE",
            "-r",
            "16000",
            "-c",
            "1",
            "--buffer-size",
            "480",
            "--period-size",
            "160",
            "-",
        ]
    );
}

#[test]
fn player_plays_in_order_and_to_the_end() {
    let mut player = AudioPlayer::new();
    assert_eq!(player.enqueue(vec![1]), Enqueued::NotStarted);
    assert_eq!(player.next_block(), Playback::End);
    let start = player.start(None);
    assert_eq!(start.stop, PlayerStop { join_task: false, kill_child: false });
    assert_eq!(start.args, build_aplay_args(&AudioConfig::standard()));
    player.started();
    assert_eq!(player.next_block(), Playback::Wait);
    assert_eq!(player.enqueue(vec![1]), Enqueued::Queued);
    assert_eq!(player.enqueue(vec![2]), Enqueued::Queued);
    assert_eq!(player.next_block(), Playback::Write(vec![1]));
    assert_eq!(player.stop(), PlayerStop { join_task: true, kill_child: true });
    assert_eq!(player.enqueue(vec![3]), Enqueued::NotStarted);
    assert_eq!(player.next_block(), Playback::Write(vec![2]));
    assert_eq!(player.next_block(), Playback::End);
    assert_eq!(player.stop(), PlayerStop { join_task: false, kill_child: false });
}

#[test]
fn starting_a_player_stops_the_one_that_runs() {
    let mut player = AudioPlayer::new();
    player.start(None);
    player.started();
    let start = player.start(Some(config(16)));
    assert_eq!(start.stop, PlayerStop { join_task: true, kill_child: true });
    assert_eq!(start.args, build_aplay_args(&config(16)));
    assert_eq!(player.enqueue(vec![1]), Enqueued::NotStarted);
}

#[test]
fn full_or_dead_player_takes_nothing() {
    let mut player = AudioPlayer::new();
    player.start(None);
    player.started();
    for _ in 0..PLAY_QUEUE_CAPACITY {
        assert_eq!(player.enqueue(vec![0]), Enqueued::Queued);
    }
    assert_eq!(player.enqueue(vec![9]), Enqueued::Waits(vec![9]));
    player.playback_ended();
    assert_eq!(player.enqueue(vec![9]), Enqueued::Disconnected);
    assert_eq!(player.stop(), PlayerStop { join_task: true, kill_child: true });
}

// ---------------------------------------------------------------------------
// The recorder

#[test]
fn standard_arecord_args_include_buffer_and_period_sizes() {
    let config = AudioConfig {
        pcm: "noop".to_string(),
        channels: 1,
        bits_per_sample: 16,
        sample_rate: 16_000,
        period_size: 160,
        buffer_size: 480,
    };

    let args = build_arecord_args(&config, ArecordProfile::Standard);

    assert_eq!(
        args,
        vec![
            "--quiet",
            "-t",
            "raw",
            "-D",
            "noop",
            "-f",
            "S16_LE",
            "-r",
            "16000",
            "-c",
            "1",
            "--buffer-size",
            "480",
            "--period-size",
            "160",
        ]
    );
}

#[test]
fn fast_kws_arecord_args_match_expected_profile() {
    let config = fast_recording_config_for_mode(FastRecordingMode::Kws);

    let args = build_arecord_args(
        &config,
        fast_recording_profile_for_mode(FastRecordingMode::Kws),
    );

    assert_eq!(
        args,
        vec![
            "--quiet",
            "-t",
            "raw",
            "-D",
            "lx06_aec_2ch",
            "-f",
            "S16_LE",
            "-r",
            "16000",
            "-c",
            "1",
        ]
    );
}

#[test]
fn fast_llm_arecord_args_match_expected_profile() {
    let config = fast_recording_config_for_mode(FastRecordingMode::LlmRaw);

    let args = build_arecord_args(
        &config,
        fast_recording_profile_for_mode(FastRecordingMode::LlmRaw),
    );

    assert_eq!(
        args,
        vec![
            "--quiet",
            "-t",
            "raw",
            "-D",
            "lx06_aec_2ch",
            "-f",
            "S16_LE",
            "-r",
            "16000",
            "-c",
            "2",
        ]
    );
}

#[test]
fn fast_llm_and_kws_use_distinct_profiles_so_arecord_restarts() {
    assert_ne!(
        fast_recording_profile_for_mode(FastRecordingMode::Kws),
        fast_recording_profile_for_mode(FastRecordingMode::LlmRaw)
    );
    assert_eq!(
        fast_recording_profile_for_mode(FastRecordingMode::Kws),
        ArecordProfile::FastKws
    );
    assert_eq!(
        fast_recording_profile_for_mode(FastRecordingMode::LlmRaw),
        ArecordProfile::FastLlm
    );
}

#[test]
fn profiles_and_modes() {
    assert!(ArecordProfile::Standard.is_standard());
    assert!(!ArecordProfile::FastKws.is_standard());
    assert!(!ArecordProfile::FastLlm.is_standard());
    assert_eq!(FastRecordingMode::Kws.channel_count(), 1);
    assert_eq!(FastRecordingMode::LlmRaw.channel_count(), 2);
    let fast = fast_recording_config_for_mode(FastRecordingMode::LlmRaw);
    assert_eq!((fast.period_size, fast.buffer_size), (320, 2048));
    assert_eq!((fast.bits_per_sample, fast.sample_rate), (16, 16_000));
}

fn launched(start: RecorderStart) -> (RecorderStop, RecordingPlan) {
    match start {
        RecorderStart::Launch { stop, plan } => (stop, plan),
        RecorderStart::AlreadyRunning => panic!("already running"),
    }
}

#[test]
fn recorder_reads_wide_what_is_wanted_narrow() {
    assert_eq!(capture_config_for_recording(&config(16)), config(32));
    assert_eq!(capture_config_for_recording(&config(24)), config(24));
    let mut recorder = AudioRecorder::new();
    let (stop, plan) = launched(recorder.start_recording(Some(config(16))));
    assert_eq!(stop, RecorderStop { kill_child: false, join_task: false });
    assert_eq!(plan.profile, ArecordProfile::Standard);
    assert_eq!(plan.requested, config(16));
    assert_eq!(plan.capture, config(32));
    assert_eq!(plan.args, build_arecord_args(&config(32), ArecordProfile::Standard));
    // Fast recordings are read as they are delivered.
    let (_, plan) = launched(recorder.start_fast_recording());
    assert_eq!(plan.capture, fast_recording_config_for_mode(FastRecordingMode::Kws));
}

#[test]
fn recorder_restarts_only_for_another_profile() {
    let mut recorder = AudioRecorder::new();
    let (_, plan) = launched(recorder.start_fast_recording());
    recorder.started(plan.profile);
    assert_eq!(recorder.start_fast_recording(), RecorderStart::AlreadyRunning);
    assert_eq!(recorder.switch_to_llm_stop_audio(), RecorderStart::AlreadyRunning);
    let (stop, plan) = launched(recorder.switch_to_llm_start_audio());
    assert_eq!(stop, RecorderStop { kill_child: true, join_task: true });
    assert_eq!(plan.profile, ArecordProfile::FastLlm);
    recorder.started(plan.profile);
    assert_eq!(recorder.switch_to_llm_start_audio(), RecorderStart::AlreadyRunning);
    let (_, plan) = launched(recorder.start_recording(None));
    assert_eq!(plan.requested, AudioConfig::standard());
    recorder.started(plan.profile);
    // A standard recording is left alone even if another format is asked for.
    assert_eq!(recorder.start_recording(Some(config(16))), RecorderStart::AlreadyRunning);
    assert_eq!(
        recorder.stop_recording(),
        RecorderStop { kill_child: true, join_task: true }
    );
    assert_eq!(
        recorder.stop_recording(),
        RecorderStop { kill_child: false, join_task: false }
    );
}

#[test]
fn samples_lose_their_low_byte() {
    assert_eq!(convert_a113_s32_sample_to_s16(0), 0);
    assert_eq!(convert_a113_s32_sample_to_s16(0x1234_56), 0x1234);
    assert_eq!(convert_a113_s32_sample_to_s16(-1), -1);
    assert_eq!(convert_a113_s32_sample_to_s16(-257), -2);
    assert_eq!(convert_a113_s32_sample_to_s16(0x7f_ffff), 32767);
    assert_eq!(convert_a113_s32_sample_to_s16(0x80_0000), 32767);
    assert_eq!(convert_a113_s32_sample_to_s16(-0x80_0001), -32768);
    assert_eq!(convert_a113_s32_sample_to_s16(i32::MAX), 32767);
    assert_eq!(convert_a113_s32_sample_to_s16(i32::MIN), -32768);
}

#[test]
fn blocks_are_converted_sample_by_sample() {
    assert_eq!(
        convert_a113_s32_to_s16(&vec![0x56, 0x34, 0x12, 0x00, 0x00, 0xff, 0xff, 0xff]),
        vec![0x34, 0x12, 0xff, 0xff]
    );
    assert_eq!(convert_a113_s32_to_s16(&vec![1, 2, 3]), Vec::<u8>::new());
    assert_eq!(convert_a113_s32_to_s16(&Vec::new()), Vec::<u8>::new());
    for sample in [0, 1, -1, 300, -300, 0x7fff_ffff, -0x8000_0000, 8_388_607] {
        let sample: i32 = sample;
        assert_eq!(
            convert_a113_s32_to_s16(&sample.to_le_bytes().to_vec()),
            convert_a113_s32_sample_to_s16(sample).to_le_bytes().to_vec()
        );
    }
}

#[test]
fn only_narrow_blocks_are_converted() {
    let chunk = vec![0x56, 0x34, 0x12, 0x00];
    assert_eq!(
        transform_stream_chunk(chunk.clone(), &config(16), &config(32)),
        vec![0x34, 0x12]
    );
    assert_eq!(transform_stream_chunk(chunk.clone(), &config(32), &config(32)), chunk);
    assert_eq!(transform_stream_chunk(chunk.clone(), &config(16), &config(16)), chunk);
}

fn pump(requested: AudioConfig) -> RecordPump {
    let (_, plan) = launched(AudioRecorder::new().start_recording(Some(requested)));
    RecordPump::new(plan)
}

#[test]
fn sizes_of_blocks() {
    let pump = pump(config(16));
    assert_eq!((pump.target_size, pump.read_size), (1920, 640));
    // Impossible formats count as the smallest possible ones.
    let pump = self::pump(AudioConfig {
        pcm: String::new(),
        channels: 0,
        bits_per_sample: 3,
        sample_rate: 0,
        period_size: 0,
        buffer_size: 0,
    });
    assert_eq!((pump.target_size, pump.read_size), (1, 1));
}

#[test]
fn recording_is_cut_without_loss() {
    let mut format = config(8);
    format.buffer_size = 4;
    let mut pump = pump(format);
    pump.feed(&vec![1, 2, 3]);
    assert_eq!(pump.next_block(), None);
    pump.feed(&vec![4, 5, 6, 7, 8, 9]);
    assert_eq!(pump.next_block(), Some(vec![1, 2, 3, 4]));
    assert_eq!(pump.next_block(), Some(vec![5, 6, 7, 8]));
    assert_eq!(pump.next_block(), None);
    assert_eq!(pump.accumulated, vec![9]);
}

#[test]
fn pieces_do_not_matter() {
    let recorded = [
        vec![vec![1, 2, 3, 4, 5, 6, 7, 8, 9]],
        vec![vec![1, 2, 3], vec![], vec![4, 5, 6, 7, 8, 9]],
        vec![vec![1, 2, 3, 4], vec![5, 6, 7, 8], vec![9]],
    ];
    for pieces in recorded {
        let mut format = config(8);
        format.buffer_size = 4;
        let mut pump = pump(format);
        let mut blocks = Vec::new();
        for piece in &pieces {
            blocks.extend(pump.pump(piece));
        }
        assert_eq!(blocks, vec![vec![1, 2, 3, 4], vec![5, 6, 7, 8]]);
        assert_eq!(pump.accumulated, vec![9]);
    }
}

#[test]
fn cut_blocks_are_converted() {
    let mut format = config(16);
    format.buffer_size = 1;
    let mut pump = pump(format);
    pump.feed(&vec![0x56, 0x34, 0x12, 0x00, 0xff]);
    assert_eq!(pump.next_block(), Some(vec![0x34, 0x12]));
    assert_eq!(pump.next_block(), None);
}

#[test]
fn dropped_blocks_are_counted() {
    let mut pump = pump(config(8));
    assert!(pump.offered(Ok(())));
    assert_eq!(pump.dropped_audio_frames, 0);
    assert!(pump.offered(Err(TrySendError::Full(vec![1]))));
    assert!(pump.offered(Err(TrySendError::Full(vec![1]))));
    assert_eq!(pump.dropped_audio_frames, 2);
    assert!(!pump.offered(Err(TrySendError::Disconnected(vec![1]))));
    assert_eq!(pump.dropped_audio_frames, 2);
}

#[test]
fn recorded_block_as_a_stream() {
    assert!(record_stream(vec![]).is_none());
    let stream = record_stream(vec![1, 2]).unwrap();
    assert_eq!(stream.tag, "record");
    assert_eq!(stream.bytes, vec![1, 2]);
    assert_eq!(stream.data, None);
    assert_eq!(stream.id.len(), 36);
}
