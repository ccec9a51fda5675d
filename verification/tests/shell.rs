use client_rust::protocol::json::Json;
use client_rust::shell::command::{
    command_result, command_result_of, completion_message, completion_message_showing,
    format_shell_output_for_log, shell_args, CommandResult,
};
use client_rust::shell::device::{
    get_device_listen_code, get_primary_mac_address, hash_mac_to_eight_char_code,
    is_valid_mac_address, normalize_mac_address, NetworkInterface, LISTEN_CODE_COUNT,
};
use client_rust::shell::lx06_audio::{
    bind_mount, build_mount_args, contains_lx06_aec_pcm, continue_preparation, find_anchor_line_offset,
    insert_lx06_aec_config, is_lx06_answer, is_lx06_model, mount_result,
    prepare_lx06_audio_capability, AsoundEvent, AsoundMount, AsoundPhase, AsoundStep, PrepareEvent,
    PreparePhase, PrepareStep, ProcessOutput, ProgramDirError,
};
use client_rust::shell::speaker::SpeakerManager;

const ASOUND_INSERT_ANCHOR: &str = "defaults.pcm.rate_converter \"speexrate_medium\"";

const LX06_AEC_CONFIG: &str = r#"pcm.lx06_aec_2ch_route {
    type route
    slave {
        pcm "Capture"
        channels 8
    }

    ttable.0.0 1
    ttable.1.6 1
}

pcm.lx06_aec_2ch {
    type plug
    slave {
        pcm "lx06_aec_2ch_route"
        format S32_LE
        rate 48000
        channels 2
    }
}"#;

// ---------------------------------------------------------------------------
// The listen code

#[test]
fn hash_mac_to_eight_char_code_is_stable_and_alphanumeric() {
    let code = hash_mac_to_eight_char_code("aa:bb:cc:dd:ee:ff");
    assert_eq!(code.len(), 8);
    assert!(code.chars().all(|ch| ch.is_ascii_alphanumeric()));
    assert_eq!(code, hash_mac_to_eight_char_code("aa:bb:cc:dd:ee:ff"));
}

#[test]
fn hash_mac_to_eight_char_code_normalizes_uppercase_mac_before_hashing() {
    assert_eq!(
        hash_mac_to_eight_char_code("aa:bb:cc:dd:ee:ff"),
        hash_mac_to_eight_char_code("AA:BB:CC:DD:EE:FF")
    );
}

#[test]
fn normalize_mac_address_trims_and_lowercases_letters() {
    assert_eq!(
        normalize_mac_address(" AA:BB:CC:DD:EE:FF \n"),
        "aa:bb:cc:dd:ee:ff"
    );
}

#[test]
fn mac_address_validation_matches_expected_shape() {
    assert!(is_valid_mac_address("aa:bb:cc:dd:ee:ff"));
    assert!(is_valid_mac_address("01:23:45:67:89:ab"));
    assert!(!is_valid_mac_address("aa:bb:cc:dd:ee"));
    assert!(!is_valid_mac_address("aa:bb:cc:dd:ee:gg"));
    assert!(!is_valid_mac_address("aabbccddeeff"));
}

#[test]
fn mac_address_validation_at_the_edges() {
    assert!(is_valid_mac_address("AA:BB:CC:DD:EE:FF"));
    assert!(!is_valid_mac_address("aa:bb:cc:dd:ee:ff:"));
    assert!(!is_valid_mac_address("aa:bb:cc:dd:ee:ff:00"));
    assert!(!is_valid_mac_address("a:bb:cc:dd:ee:fff"));
    assert!(!is_valid_mac_address(""));
    assert!(!is_valid_mac_address("\u{e9}:bb:cc:dd:ee:ff"));
}

#[test]
fn listen_codes_of_known_addresses() {
    assert_eq!(hash_mac_to_eight_char_code("aa:bb:cc:dd:ee:ff"), "v0x5vcen");
    assert_eq!(hash_mac_to_eight_char_code("01:23:45:67:89:ab"), "1ulyrx0n");
    assert_eq!(hash_mac_to_eight_char_code(""), "hzj4ux45");
    assert_eq!(hash_mac_to_eight_char_code("\t aa:bb:cc:dd:ee:ff\n"), "v0x5vcen");
    assert_eq!(LISTEN_CODE_COUNT, 36u64.pow(8));
}

fn interface(name: &str, address: Option<&str>) -> NetworkInterface {
    NetworkInterface {
        name: name.to_string(),
        address: address.map(|address| address.to_string()),
    }
}

#[test]
fn first_usable_interface_by_name_stands_for_the_device() {
    let interfaces = vec![
        interface("wlan0", Some("AA:BB:CC:DD:EE:FF\n")),
        interface("lo", Some("11:11:11:11:11:11\n")),
        interface("eth1", Some("01:23:45:67:89:AB\n")),
        interface("eth0", Some("00:00:00:00:00:00\n")),
        interface("br0", None),
        interface("dummy", Some("nonsense")),
    ];
    assert_eq!(
        get_primary_mac_address(&interfaces),
        Ok("01:23:45:67:89:ab".to_string())
    );
    assert_eq!(
        get_device_listen_code(&interfaces),
        Ok(hash_mac_to_eight_char_code("01:23:45:67:89:ab"))
    );
}

#[test]
fn device_without_usable_interface_has_no_code() {
    let interfaces = vec![interface("lo", Some("11:11:11:11:11:11"))];
    let err = "no usable mac address found under /sys/class/net".to_string();
    assert_eq!(get_primary_mac_address(&interfaces), Err(err.clone()));
    assert_eq!(get_device_listen_code(&interfaces), Err(err));
}

// ---------------------------------------------------------------------------
// The sound setup

#[test]
fn detects_exact_lx06_aec_pcm_but_not_route_only() {
    assert!(!contains_lx06_aec_pcm("pcm.lx06_aec_2ch_route {\n}\n"));
    assert!(contains_lx06_aec_pcm("pcm.lx06_aec_2ch {\n}\n"));
}

#[test]
fn inserts_before_rate_converter_anchor() {
    let input = format!("pcm.Capture {{\n}}\n\n{ASOUND_INSERT_ANCHOR}\n");
    let output = insert_lx06_aec_config(&input);
    let pcm_pos = output.find("pcm.lx06_aec_2ch {").unwrap();
    let anchor_pos = output.find(ASOUND_INSERT_ANCHOR).unwrap();
    assert!(pcm_pos < anchor_pos);
}

#[test]
fn appends_when_anchor_is_missing() {
    let output = insert_lx06_aec_config("pcm.Capture {\n}\n");
    assert!(output.contains("pcm.lx06_aec_2ch {"));
    assert!(output.ends_with("}\n"));
}

#[test]
fn device_definition_may_be_indented_or_broken() {
    assert!(contains_lx06_aec_pcm("  pcm.lx06_aec_2ch\n{\n}\n"));
    assert!(contains_lx06_aec_pcm("a\r\n\tpcm.lx06_aec_2ch   {"));
    assert!(contains_lx06_aec_pcm("pcm.lx06_aec_2ch\r\n{"));
    assert!(!contains_lx06_aec_pcm("pcm.lx06_aec_2ch = x"));
    assert!(!contains_lx06_aec_pcm("# pcm.lx06_aec_2ch {"));
    assert!(!contains_lx06_aec_pcm(""));
}

#[test]
fn patched_configuration_is_exact() {
    let input = format!("a\n  {ASOUND_INSERT_ANCHOR}  \nb\n");
    assert_eq!(
        insert_lx06_aec_config(&input),
        format!("a\n\n{LX06_AEC_CONFIG}\n\n  {ASOUND_INSERT_ANCHOR}  \nb\n")
    );
    assert_eq!(find_anchor_line_offset(&input), Some(2));
    // The anchor may be the first line; the text before it is then empty.
    assert_eq!(
        insert_lx06_aec_config(ASOUND_INSERT_ANCHOR),
        format!("\n\n{LX06_AEC_CONFIG}\n\n{ASOUND_INSERT_ANCHOR}")
    );
    assert_eq!(
        insert_lx06_aec_config("a"),
        format!("a\n\n{LX06_AEC_CONFIG}\n")
    );
    assert_eq!(
        insert_lx06_aec_config("a\n"),
        format!("a\n\n{LX06_AEC_CONFIG}\n")
    );
    assert_eq!(find_anchor_line_offset("a"), None);
}

#[test]
fn patched_configuration_has_the_device() {
    for input in ["", "a", ASOUND_INSERT_ANCHOR, "x\n\u{5c0f}\n"] {
        assert!(!contains_lx06_aec_pcm(input));
        assert!(contains_lx06_aec_pcm(&insert_lx06_aec_config(input)));
    }
}

fn output(success: bool, code: Option<i32>, stdout: &str, stderr: &str) -> ProcessOutput {
    ProcessOutput {
        success,
        code,
        stdout: stdout.as_bytes().to_vec(),
        stderr: stderr.as_bytes().to_vec(),
    }
}

#[test]
fn model_is_read_from_the_output() {
    assert_eq!(is_lx06_model(Ok(output(true, Some(0), " LX06\n", ""))), Ok(true));
    assert_eq!(is_lx06_model(Ok(output(true, Some(0), "LX05\n", ""))), Ok(false));
    assert_eq!(is_lx06_model(Ok(output(false, Some(1), "LX06\n", ""))), Ok(false));
    assert_eq!(
        is_lx06_model(Err("no such file".to_string())),
        Err("failed to execute micocfg_model: no such file".to_string())
    );
    assert!(is_lx06_answer(true, "\tLX06 "));
    assert!(!is_lx06_answer(true, "LX066"));
    assert!(!is_lx06_answer(false, "LX06"));
    // Bytes that are no text are no model.
    let broken = ProcessOutput {
        success: true,
        code: Some(0),
        stdout: vec![0xff, b'L', b'X'],
        stderr: Vec::new(),
    };
    assert_eq!(is_lx06_model(Ok(broken)), Ok(false));
}

#[test]
fn mount_has_to_succeed() {
    assert_eq!(bind_mount("/a", "/b", Some(output(true, Some(0), "", ""))), Ok(()));
    assert_eq!(
        bind_mount("/a", "/b", Some(output(false, Some(32), "", " denied\n"))),
        Err("mount --bind /a /b failed with exit_code=32: denied".to_string())
    );
    assert_eq!(
        bind_mount("/a", "/b", Some(output(false, None, "", ""))),
        Err("mount --bind /a /b failed with exit_code=-1: ".to_string())
    );
    assert_eq!(
        mount_result("/a", "/b", &Some(output(false, Some(1), "", "")), " no \n"),
        Err("mount --bind /a /b failed with exit_code=1: no".to_string())
    );
    assert_eq!(
        bind_mount("/a", "/b", None),
        Err("failed to execute mount --bind /a /b".to_string())
    );
}

fn begun() -> AsoundMount {
    let (mount, step) =
        AsoundMount::ensure_asound_config_mounted("/etc/asound.conf", "asound.conf", "/data/bin");
    assert_eq!(step, AsoundStep::Read);
    assert_eq!(mount.patched_path, "/data/bin/asound.conf");
    mount
}

fn contents(text: &str) -> AsoundEvent {
    AsoundEvent::Contents(Some(text.to_string()))
}

#[test]
fn file_with_the_device_is_left_alone() {
    let mut mount = begun();
    assert_eq!(mount.next(contents("pcm.lx06_aec_2ch {\n}\n")), AsoundStep::Done);
    assert_eq!(mount.phase, AsoundPhase::Ready);
}

#[test]
fn existing_patched_file_is_mounted() {
    let mut mount = begun();
    assert_eq!(mount.next(contents("a\n")), AsoundStep::Look);
    assert_eq!(mount.next(AsoundEvent::Exists(true)), AsoundStep::ReadCopy);
    assert_eq!(mount.next(contents("pcm.lx06_aec_2ch {\n}\n")), AsoundStep::Mount);
    assert_eq!(
        mount.next(AsoundEvent::Mounted(Some(output(true, Some(0), "", "")))),
        AsoundStep::Done
    );
    assert_eq!(mount.phase, AsoundPhase::Ready);
    assert_eq!(mount.seen, "pcm.lx06_aec_2ch {\n}\n");
}

#[test]
fn existing_patched_file_has_to_define_the_device() {
    let failures = [
        (
            contents("a\n"),
            "program-local ALSA config does not contain pcm.lx06_aec_2ch: /data/bin/asound.conf",
        ),
        (
            AsoundEvent::Contents(None),
            "failed to read ALSA config file: /data/bin/asound.conf",
        ),
    ];
    for (event, text) in failures {
        let mut mount = begun();
        mount.next(contents("a\n"));
        mount.next(AsoundEvent::Exists(true));
        assert_eq!(mount.next(event), AsoundStep::Failed(text.to_string()));
        assert_eq!(mount.phase, AsoundPhase::Failed);
    }
}

#[test]
fn missing_patched_file_is_written_first() {
    let mut mount = begun();
    assert_eq!(mount.next(contents("a\n")), AsoundStep::Look);
    assert_eq!(mount.next(AsoundEvent::Exists(false)), AsoundStep::ReadMetadata);
    assert_eq!(
        mount.next(AsoundEvent::Worked(true)),
        AsoundStep::Write(insert_lx06_aec_config("a\n"))
    );
    assert_eq!(mount.next(AsoundEvent::Worked(true)), AsoundStep::SetPermissions);
    assert_eq!(mount.next(AsoundEvent::Worked(true)), AsoundStep::Mount);
    assert_eq!(
        mount.next(AsoundEvent::Mounted(None)),
        AsoundStep::Failed(
            "failed to execute mount --bind /data/bin/asound.conf /etc/asound.conf".to_string()
        )
    );
}

#[test]
fn every_step_of_the_setup_may_fail() {
    let mut mount = begun();
    assert_eq!(
        mount.next(AsoundEvent::Contents(None)),
        AsoundStep::Failed("failed to read ALSA config file: /etc/asound.conf".to_string())
    );
    let failures = [
        (1, "failed to read ALSA config metadata: /etc/asound.conf"),
        (2, "failed to write patched ALSA config: /data/bin/asound.conf"),
        (
            3,
            "failed to apply original permissions to patched ALSA config: /data/bin/asound.conf",
        ),
    ];
    for (steps, text) in failures {
        let mut mount = begun();
        mount.next(contents(""));
        mount.next(AsoundEvent::Exists(false));
        for _ in 1..steps {
            mount.next(AsoundEvent::Worked(true));
        }
        assert_eq!(
            mount.next(AsoundEvent::Worked(false)),
            AsoundStep::Failed(text.to_string())
        );
        assert_eq!(mount.phase, AsoundPhase::Failed);
    }
}

#[test]
fn other_devices_have_nothing_to_prepare() {
    let (phase, step) = prepare_lx06_audio_capability();
    assert_eq!(step, PrepareStep::CheckModel);
    let (phase, step) =
        continue_preparation(phase, PrepareEvent::Model(Ok(output(true, Some(0), "S12", ""))));
    assert_eq!((phase, step), (PreparePhase::Finished, PrepareStep::Done(false)));
    // Nor has a device that cannot say what it is.
    let (phase, _) = prepare_lx06_audio_capability();
    assert_eq!(
        continue_preparation(phase, PrepareEvent::Model(Err("gone".to_string()))),
        (PreparePhase::Finished, PrepareStep::Done(false))
    );
}

fn set_up(system_path: &str, file_name: &str) -> AsoundMount {
    let (mut mount, _) =
        AsoundMount::ensure_asound_config_mounted(system_path, file_name, "/data/bin");
    assert_eq!(mount.next(contents("pcm.lx06_aec_2ch {\n}\n")), AsoundStep::Done);
    mount
}

fn model_found() -> PreparePhase {
    let (phase, _) = prepare_lx06_audio_capability();
    let (phase, step) =
        continue_preparation(phase, PrepareEvent::Model(Ok(output(true, Some(0), "LX06", ""))));
    assert_eq!(step, PrepareStep::ResolveProgramDir);
    phase
}

#[test]
fn both_files_are_set_up() {
    let (phase, step) = continue_preparation(model_found(), PrepareEvent::ProgramDir(Ok(())));
    assert_eq!(
        step,
        PrepareStep::SetUp {
            system_path: "/etc/asound.conf".to_string(),
            file_name: "asound.conf".to_string(),
        }
    );
    let (phase, step) = continue_preparation(
        phase,
        PrepareEvent::File(Ok(set_up("/etc/asound.conf", "asound.conf"))),
    );
    assert_eq!(
        step,
        PrepareStep::SetUp {
            system_path: "/etc/asound.conf.dts".to_string(),
            file_name: "asound.conf.dts".to_string(),
        }
    );
    assert_eq!(
        continue_preparation(
            phase,
            PrepareEvent::File(Ok(set_up("/etc/asound.conf.dts", "asound.conf.dts"))),
        ),
        (PreparePhase::Finished, PrepareStep::Done(true))
    );
}

#[test]
fn preparation_ends_with_the_first_failure() {
    assert_eq!(
        continue_preparation(
            model_found(),
            PrepareEvent::ProgramDir(Err(ProgramDirError::Unknown))
        )
        .1,
        PrepareStep::Failed("failed to resolve current executable path".to_string())
    );
    assert_eq!(
        continue_preparation(
            model_found(),
            PrepareEvent::ProgramDir(Err(ProgramDirError::NoParent("/".to_string())))
        )
        .1,
        PrepareStep::Failed("current executable path has no parent directory: /".to_string())
    );
    let (phase, _) = continue_preparation(model_found(), PrepareEvent::ProgramDir(Ok(())));
    assert_eq!(
        continue_preparation(phase, PrepareEvent::File(Err("no".to_string()))),
        (PreparePhase::Finished, PrepareStep::Failed("no".to_string()))
    );
}

// ---------------------------------------------------------------------------
// Shell commands

#[test]
fn command_result_keeps_output_and_code() {
    assert_eq!(shell_args("echo a"), vec!["-c".to_string(), "echo a".to_string()]);
    let result = command_result(&b"out\n".to_vec(), &vec![b'e', 0xff], Some(3));
    assert_eq!(result.stdout, "out\n");
    assert_eq!(result.stderr, "e\u{fffd}");
    assert_eq!(result.exit_code, 3);
    let killed = command_result_of(String::new(), String::new(), None);
    assert_eq!(killed.exit_code, -1);
}

#[test]
fn command_result_as_json() {
    let result = CommandResult {
        stdout: "o".to_string(),
        stderr: "e".to_string(),
        exit_code: -1,
    };
    assert_eq!(
        result.to_value(),
        Json::Object(vec![
            ("exit_code".to_string(), Json::Int(-1)),
            ("stderr".to_string(), Json::Str("e".to_string())),
            ("stdout".to_string(), Json::Str("o".to_string())),
        ])
    );
    let result = command_result_of(String::new(), String::new(), Some(0));
    assert_eq!(
        result.to_value().field("exit_code", 2),
        Some(&Json::Uint(0))
    );
}

#[test]
fn completed_command_as_it_is_logged() {
    assert_eq!(format_shell_output_for_log("a\n\"b\""), "\"a\\n\\\"b\\\"\"");
    let result = CommandResult {
        stdout: "\u{e9}\n".to_string(),
        stderr: String::new(),
        exit_code: 7,
    };
    assert_eq!(
        completion_message(&result),
        "Shell command completed: exit_code=7, stdout_bytes=3, stderr_bytes=0, \
         stdout=\"\u{e9}\\n\", stderr=\"\""
    );
    assert_eq!(
        completion_message_showing(&result, "<out>", "<err>"),
        "Shell command completed: exit_code=7, stdout_bytes=3, stderr_bytes=0, stdout=<out>, \
         stderr=<err>"
    );
}

// ---------------------------------------------------------------------------
// The loudspeaker

fn printed(stdout: &str) -> CommandResult {
    command_result_of(stdout.to_string(), String::new(), Some(0))
}

#[test]
fn speaker_scripts_hold_their_arguments() {
    assert_eq!(
        SpeakerManager::get_boot_script().trim(),
        "echo $(fw_env -g boot_part)"
    );
    assert_eq!(
        SpeakerManager::set_boot_script("boot1").trim(),
        "fw_env -s boot_part boot1 >/dev/null 2>&1 && echo $(fw_env -g boot_part)"
    );
    assert_eq!(SpeakerManager::get_device_model_script().trim(), "echo $(micocfg_model)");
    assert_eq!(SpeakerManager::get_device_sn_script().trim(), "echo $(micocfg_sn)");
    assert_eq!(SpeakerManager::get_play_status_script().trim(), "mphelper mute_stat");
    assert_eq!(SpeakerManager::play_script().trim(), "mphelper play");
    assert_eq!(SpeakerManager::pause_script().trim(), "mphelper pause");
    assert_eq!(
        SpeakerManager::play_text_script("hi %s").trim(),
        "/usr/sbin/tts_play.sh 'hi %s'"
    );
    assert_eq!(
        SpeakerManager::play_url_script("http://x/y.mp3").trim(),
        r#"ubus call mediaplayer player_play_url '{"url":"http://x/y.mp3","type": 1}'"#
    );
    assert_eq!(
        SpeakerManager::get_mic_status_script().trim(),
        "[ ! -f /tmp/mipns/mute ] && echo on || echo off"
    );
    assert_eq!(
        SpeakerManager::mic_on_script().trim(),
        r#"ubus -t1 -S call pnshelper event_notify '{"src":3, "event":7}' 2>&1"#
    );
    assert_eq!(
        SpeakerManager::mic_off_script().trim(),
        r#"ubus -t1 -S call pnshelper event_notify '{"src":3, "event":8}' 2>&1"#
    );
    assert_eq!(
        SpeakerManager::ask_xiaoai_script("time?").trim(),
        r#"ubus call mibrain ai_service '{"tts":1,"nlp":1,"nlp_text":"time?"}'"#
    );
    assert_eq!(
        SpeakerManager::abort_xiaoai_script().trim(),
        "/etc/init.d/mico_aivs_lab restart >/dev/null 2>&1"
    );
    assert_eq!(
        SpeakerManager::wake_up_script(true).trim(),
        r#"ubus call pnshelper event_notify '{"src":1,"event":0}'"#
    );
    assert!(SpeakerManager::wake_up_script(false).contains("sleep 0.1"));
}

#[test]
fn speaker_answers_are_read() {
    assert_eq!(SpeakerManager::get_boot(&printed(" boot0\n")), "boot0");
    assert!(SpeakerManager::set_boot(&printed("boot1\n"), "boot1"));
    assert!(!SpeakerManager::set_boot(&printed("boot0\n"), "boot1"));
    assert_eq!(SpeakerManager::get_device_model(&printed("LX06\n")), "LX06");
    assert_eq!(SpeakerManager::get_device_sn(&printed("sn\n")), "sn");
    assert_eq!(SpeakerManager::get_play_status(&printed("1\n")), "playing");
    assert_eq!(SpeakerManager::get_play_status(&printed("2\n")), "paused");
    assert_eq!(SpeakerManager::get_play_status(&printed("21\n")), "playing");
    assert_eq!(SpeakerManager::get_play_status(&printed("0\n")), "idle");
    let spaced = printed("{ \"code\": 0 }");
    let tight = printed("{\"code\":0}");
    assert!(SpeakerManager::play(&spaced) && !SpeakerManager::play(&tight));
    assert!(SpeakerManager::pause(&spaced) && !SpeakerManager::pause(&tight));
    assert!(SpeakerManager::play_text(&spaced) && !SpeakerManager::play_text(&tight));
    assert!(SpeakerManager::play_url(&spaced) && !SpeakerManager::play_url(&tight));
    assert!(SpeakerManager::ask_xiaoai(&spaced) && !SpeakerManager::ask_xiaoai(&tight));
    assert!(SpeakerManager::wake_up(&spaced) && !SpeakerManager::wake_up(&tight));
    assert!(SpeakerManager::mic_on(&tight) && !SpeakerManager::mic_on(&spaced));
    assert!(SpeakerManager::mic_off(&tight) && !SpeakerManager::mic_off(&spaced));
    assert_eq!(SpeakerManager::get_mic_status(&printed("on\n")), "on");
    assert_eq!(SpeakerManager::get_mic_status(&printed("off\n")), "off");
    assert!(SpeakerManager::abort_xiaoai(&printed("")));
    assert!(!SpeakerManager::abort_xiaoai(&command_result_of(
        String::new(),
        String::new(),
        Some(1)
    )));
}

#[test]
fn mount_binds_one_file_over_another() {
    assert_eq!(
        build_mount_args("/opt/asound.conf", "/etc/asound.conf"),
        vec!["--bind", "/opt/asound.conf", "/etc/asound.conf"]
    );
}
