//! Asking the loudspeaker for things: the script for each, and what its answer
//! means.

use crate::shell::command::CommandResult;
use crate::text::{contains, has, trim, trimmed};
use vstd::prelude::*;

verus! {

/// The loudspeaker. Everything it does is done by its shell: a method whose name
/// ends in `_script` gives the script, and the method of the same name without
/// it reads the result.
pub struct SpeakerManager;

/// `before`, `text` and `after` in one piece.
fn filled(before: &str, text: &str, after: &str) -> (r: String)
    ensures
        r@ == before@ + text@ + after@,
{
    let mut script = before.to_string();
    script.append(text);
    script.append(after);
    script
}

impl SpeakerManager {
    /// The script that reads the boot partition.
    pub fn get_boot_script() -> (r: String)
        ensures
            r@ == "\n            echo $(fw_env -g boot_part)\n        "@,
    {
        "\n            echo $(fw_env -g boot_part)\n        ".to_string()
    }

    /// The boot partition.
    pub fn get_boot(res: &CommandResult) -> (r: String)
        ensures
            r@ == trim(res.stdout@),
    {
        trimmed(res.stdout.as_str())
    }

    /// The script that sets the boot partition and reads it back.
    pub fn set_boot_script(boot_part: &str) -> (r: String)
        ensures
            r@ == "\n            fw_env -s boot_part "@ + boot_part@ + " >/dev/null 2>&1 && echo $(fw_env -g boot_part)\n        "@,
    {
        filled("\n            fw_env -s boot_part ", boot_part, " >/dev/null 2>&1 && echo $(fw_env -g boot_part)\n        ")
    }

    /// Whether the boot partition was set: it is what was read back.
    pub fn set_boot(res: &CommandResult, boot_part: &str) -> (r: bool)
        ensures
            r == contains(res.stdout@, boot_part@),
    {
        has(res.stdout.as_str(), boot_part)
    }

    /// The script that reads the model.
    pub fn get_device_model_script() -> (r: String)
        ensures
            r@ == "\n            echo $(micocfg_model)\n        "@,
    {
        "\n            echo $(micocfg_model)\n        ".to_string()
    }

    /// The model.
    pub fn get_device_model(res: &CommandResult) -> (r: String)
        ensures
            r@ == trim(res.stdout@),
    {
        trimmed(res.stdout.as_str())
    }

    /// The script that reads the serial number.
    pub fn get_device_sn_script() -> (r: String)
        ensures
            r@ == "\n            echo $(micocfg_sn)\n        "@,
    {
        "\n            echo $(micocfg_sn)\n        ".to_string()
    }

    /// The serial number.
    pub fn get_device_sn(res: &CommandResult) -> (r: String)
        ensures
            r@ == trim(res.stdout@),
    {
        trimmed(res.stdout.as_str())
    }

    /// The script that asks whether something is played.
    pub fn get_play_status_script() -> (r: String)
        ensures
            r@ == "\n            mphelper mute_stat\n        "@,
    {
        "\n            mphelper mute_stat\n        ".to_string()
    }

    /// Whether something is played: `1` stands for playing and `2` for paused.
    pub fn get_play_status(res: &CommandResult) -> (r: String)
        ensures
            r@ == if contains(res.stdout@, "1"@) {
                "playing"@
            } else if contains(res.stdout@, "2"@) {
                "paused"@
            } else {
                "idle"@
            },
    {
        if has(res.stdout.as_str(), "1") {
            "playing".to_string()
        } else if has(res.stdout.as_str(), "2") {
            "paused".to_string()
        } else {
            "idle".to_string()
        }
    }

    /// The script that goes on playing.
    pub fn play_script() -> (r: String)
        ensures
            r@ == "\n            mphelper play\n        "@,
    {
        "\n            mphelper play\n        ".to_string()
    }

    /// Whether it does.
    pub fn play(res: &CommandResult) -> (r: bool)
        ensures
            r == contains(res.stdout@, "\"code\": 0"@),
    {
        has(res.stdout.as_str(), "\"code\": 0")
    }

    /// The script that pauses.
    pub fn pause_script() -> (r: String)
        ensures
            r@ == "\n            mphelper pause\n        "@,
    {
        "\n            mphelper pause\n        ".to_string()
    }

    /// Whether it does.
    pub fn pause(res: &CommandResult) -> (r: bool)
        ensures
            r == contains(res.stdout@, "\"code\": 0"@),
    {
        has(res.stdout.as_str(), "\"code\": 0")
    }

    /// The script that reads a text aloud.
    pub fn play_text_script(text: &str) -> (r: String)
        ensures
            r@ == "\n            /usr/sbin/tts_play.sh '"@ + text@ + "'\n        "@,
    {
        filled("\n            /usr/sbin/tts_play.sh '", text, "'\n        ")
    }

    /// Whether it is read.
    pub fn play_text(res: &CommandResult) -> (r: bool)
        ensures
            r == contains(res.stdout@, "\"code\": 0"@),
    {
        has(res.stdout.as_str(), "\"code\": 0")
    }

    /// The script that plays what is behind a URL.
    pub fn play_url_script(url: &str) -> (r: String)
        ensures
            r@ == "\n            ubus call mediaplayer player_play_url '{\"url\":\""@ + url@ + "\",\"type\": 1}'\n        "@,
    {
        filled("\n            ubus call mediaplayer player_play_url '{\"url\":\"", url, "\",\"type\": 1}'\n        ")
    }

    /// Whether it is played.
    pub fn play_url(res: &CommandResult) -> (r: bool)
        ensures
            r == contains(res.stdout@, "\"code\": 0"@),
    {
        has(res.stdout.as_str(), "\"code\": 0")
    }

    /// The script that asks whether the microphone is on.
    pub fn get_mic_status_script() -> (r: String)
        ensures
            r@ == "\n            [ ! -f /tmp/mipns/mute ] && echo on || echo off\n        "@,
    {
        "\n            [ ! -f /tmp/mipns/mute ] && echo on || echo off\n        ".to_string()
    }

    /// Whether the microphone is on.
    pub fn get_mic_status(res: &CommandResult) -> (r: String)
        ensures
            r@ == if contains(res.stdout@, "on"@) {
                "on"@
            } else {
                "off"@
            },
    {
        if has(res.stdout.as_str(), "on") {
            "on".to_string()
        } else {
            "off".to_string()
        }
    }

    /// The script that turns the microphone on.
    pub fn mic_on_script() -> (r: String)
        ensures
            r@ == "\n            ubus -t1 -S call pnshelper event_notify '{\"src\":3, \"event\":7}' 2>&1\n        "@,
    {
        "\n            ubus -t1 -S call pnshelper event_notify '{\"src\":3, \"event\":7}' 2>&1\n        ".to_string()
    }

    /// Whether it was turned on.
    pub fn mic_on(res: &CommandResult) -> (r: bool)
        ensures
            r == contains(res.stdout@, "\"code\":0"@),
    {
        has(res.stdout.as_str(), "\"code\":0")
    }

    /// The script that turns the microphone off.
    pub fn mic_off_script() -> (r: String)
        ensures
            r@ == "\n            ubus -t1 -S call pnshelper event_notify '{\"src\":3, \"event\":8}' 2>&1\n        "@,
    {
        "\n            ubus -t1 -S call pnshelper event_notify '{\"src\":3, \"event\":8}' 2>&1\n        ".to_string()
    }

    /// Whether it was turned off.
    pub fn mic_off(res: &CommandResult) -> (r: bool)
        ensures
            r == contains(res.stdout@, "\"code\":0"@),
    {
        has(res.stdout.as_str(), "\"code\":0")
    }

    /// The script that puts a question to the assistant.
    pub fn ask_xiaoai_script(text: &str) -> (r: String)
        ensures
            r@ == "\n            ubus call mibrain ai_service '{\"tts\":1,\"nlp\":1,\"nlp_text\":\""@ + text@ + "\"}'\n        "@,
    {
        filled("\n            ubus call mibrain ai_service '{\"tts\":1,\"nlp\":1,\"nlp_text\":\"", text, "\"}'\n        ")
    }

    /// Whether it was put.
    pub fn ask_xiaoai(res: &CommandResult) -> (r: bool)
        ensures
            r == contains(res.stdout@, "\"code\": 0"@),
    {
        has(res.stdout.as_str(), "\"code\": 0")
    }

    /// The script that restarts the assistant, whatever it does.
    pub fn abort_xiaoai_script() -> (r: String)
        ensures
            r@ == "\n            /etc/init.d/mico_aivs_lab restart >/dev/null 2>&1\n        "@,
    {
        "\n            /etc/init.d/mico_aivs_lab restart >/dev/null 2>&1\n        ".to_string()
    }

    /// Whether it was restarted.
    pub fn abort_xiaoai(res: &CommandResult) -> (r: bool)
        ensures
            r == (res.exit_code == 0),
    {
        res.exit_code == 0
    }

    /// The script that wakes the assistant, at once or by turning the microphone
    /// on and off.
    pub fn wake_up_script(flag: bool) -> (r: String)
        ensures
            r@ == if flag {
                "\n                ubus call pnshelper event_notify '{\"src\":1,\"event\":0}'\n            "@
            } else {
                "\n                ubus call pnshelper event_notify '{\"src\":3, \"event\":7}'\n                sleep 0.1\n                ubus call pnshelper event_notify '{\"src\":3, \"event\":8}'\n            "@
            },
    {
        if flag {
            "\n                ubus call pnshelper event_notify '{\"src\":1,\"event\":0}'\n            ".to_string()
        } else {
            "\n                ubus call pnshelper event_notify '{\"src\":3, \"event\":7}'\n                sleep 0.1\n                ubus call pnshelper event_notify '{\"src\":3, \"event\":8}'\n            ".to_string()
        }
    }

    /// Whether it was woken.
    pub fn wake_up(res: &CommandResult) -> (r: bool)
        ensures
            r == contains(res.stdout@, "\"code\": 0"@),
    {
        has(res.stdout.as_str(), "\"code\": 0")
    }
}

/// What is put into a script stands in it as it is.
pub proof fn law_scripts_hold_what_is_put_into_them(text: &str, r: String)
    ensures
        call_ensures(SpeakerManager::set_boot_script, (text,), r) ==> r@
            == "\n            fw_env -s boot_part "@ + text@
            + " >/dev/null 2>&1 && echo $(fw_env -g boot_part)\n        "@,
        call_ensures(SpeakerManager::play_text_script, (text,), r) ==> r@
            == "\n            /usr/sbin/tts_play.sh '"@ + text@ + "'\n        "@,
        call_ensures(SpeakerManager::play_url_script, (text,), r) ==> r@
            == "\n            ubus call mediaplayer player_play_url '{\"url\":\""@ + text@
            + "\",\"type\": 1}'\n        "@,
        call_ensures(SpeakerManager::ask_xiaoai_script, (text,), r) ==> r@
            == "\n            ubus call mibrain ai_service '{\"tts\":1,\"nlp\":1,\"nlp_text\":\""@ + text@
            + "\"}'\n        "@,
{
}

/// What the device says of itself is handed on without the white space around it, and what was set
/// counts as set if it is read back.
pub proof fn law_device_is_read_as_it_answers(res: &CommandResult, part: &str, r: String, holds: bool)
    ensures
        call_ensures(SpeakerManager::get_boot, (res,), r) || call_ensures(
            SpeakerManager::get_device_model,
            (res,),
            r,
        ) || call_ensures(SpeakerManager::get_device_sn, (res,), r) ==> r@ == trim(res.stdout@),
        call_ensures(SpeakerManager::set_boot, (res, part), holds) ==> holds == contains(
            res.stdout@,
            part@,
        ),
{
}

/// A request succeeded exactly if its answer holds the code of success, and a restart if it ended
/// well.
pub proof fn law_success_is_told_by_its_code(res: &CommandResult, holds: bool)
    ensures
        call_ensures(SpeakerManager::play, (res,), holds) || call_ensures(
            SpeakerManager::pause,
            (res,),
            holds,
        ) || call_ensures(SpeakerManager::play_text, (res,), holds) || call_ensures(
            SpeakerManager::play_url,
            (res,),
            holds,
        ) || call_ensures(SpeakerManager::ask_xiaoai, (res,), holds) || call_ensures(
            SpeakerManager::wake_up,
            (res,),
            holds,
        ) ==> holds == contains(res.stdout@, "\"code\": 0"@),
        call_ensures(SpeakerManager::mic_on, (res,), holds) || call_ensures(
            SpeakerManager::mic_off,
            (res,),
            holds,
        ) ==> holds == contains(res.stdout@, "\"code\":0"@),
        call_ensures(SpeakerManager::abort_xiaoai, (res,), holds) ==> holds == (res.exit_code == 0),
{
}

/// The player plays if its answer holds a 1, is paused if it holds a 2 but no 1, and is idle
/// otherwise; the microphone is on if its answer says so.
pub proof fn law_status_is_told_by_its_digit(res: &CommandResult, r: String)
    ensures
        call_ensures(SpeakerManager::get_play_status, (res,), r) ==> {
            let (one, two) = (contains(res.stdout@, "1"@), contains(res.stdout@, "2"@));
            &&& one ==> r@ == "playing"@
            &&& !one && two ==> r@ == "paused"@
            &&& !one && !two ==> r@ == "idle"@
        },
        call_ensures(SpeakerManager::get_mic_status, (res,), r) ==> {
            &&& contains(res.stdout@, "on"@) ==> r@ == "on"@
            &&& !contains(res.stdout@, "on"@) ==> r@ == "off"@
        },
{
}

/// The scripts that take nothing are always the same.
pub proof fn law_fixed_scripts(r: String, flag: bool)
    ensures
        call_ensures(SpeakerManager::get_boot_script, (), r) ==> r@
            == "\n            echo $(fw_env -g boot_part)\n        "@,
        call_ensures(SpeakerManager::get_device_model_script, (), r) ==> r@
            == "\n            echo $(micocfg_model)\n        "@,
        call_ensures(SpeakerManager::get_device_sn_script, (), r) ==> r@
            == "\n            echo $(micocfg_sn)\n        "@,
        call_ensures(SpeakerManager::get_play_status_script, (), r) ==> r@
            == "\n            mphelper mute_stat\n        "@,
        call_ensures(SpeakerManager::play_script, (), r) ==> r@
            == "\n            mphelper play\n        "@,
        call_ensures(SpeakerManager::pause_script, (), r) ==> r@
            == "\n            mphelper pause\n        "@,
        call_ensures(SpeakerManager::get_mic_status_script, (), r) ==> r@
            == "\n            [ ! -f /tmp/mipns/mute ] && echo on || echo off\n        "@,
        call_ensures(SpeakerManager::mic_on_script, (), r) ==> r@
            == "\n            ubus -t1 -S call pnshelper event_notify '{\"src\":3, \"event\":7}' 2>&1\n        "@,
        call_ensures(SpeakerManager::mic_off_script, (), r) ==> r@
            == "\n            ubus -t1 -S call pnshelper event_notify '{\"src\":3, \"event\":8}' 2>&1\n        "@,
        call_ensures(SpeakerManager::abort_xiaoai_script, (), r) ==> r@
            == "\n            /etc/init.d/mico_aivs_lab restart >/dev/null 2>&1\n        "@,
        call_ensures(SpeakerManager::wake_up_script, (flag,), r) && flag ==> r@
            == "\n                ubus call pnshelper event_notify '{\"src\":1,\"event\":0}'\n            "@,
        call_ensures(SpeakerManager::wake_up_script, (flag,), r) && !flag ==> r@
            == "\n                ubus call pnshelper event_notify '{\"src\":3, \"event\":7}'\n                sleep 0.1\n                ubus call pnshelper event_notify '{\"src\":3, \"event\":8}'\n            "@,
{
}

} // verus!
