//! The format in which sound is played and recorded.

use crate::protocol::json::{as_text, as_uint, field, is_record, member, Json, JsonView};
use crate::text::{decimal, decimal_of};
use vstd::prelude::*;

verus! {

/// How sound is taken from or given to the sound system.
#[derive(Debug, PartialEq, Eq)]
pub struct AudioConfig {
    /// The name of the PCM device.
    pub pcm: String,
    pub channels: u16,
    pub bits_per_sample: u16,
    /// In Hertz.
    pub sample_rate: u32,
    /// In frames.
    pub period_size: u32,
    /// In frames.
    pub buffer_size: u32,
}

/// The contents of an [`AudioConfig`].
pub struct AudioConfigView {
    pub pcm: Seq<char>,
    pub channels: u16,
    pub bits_per_sample: u16,
    pub sample_rate: u32,
    pub period_size: u32,
    pub buffer_size: u32,
}

impl View for AudioConfig {
    type V = AudioConfigView;

    open spec fn view(&self) -> AudioConfigView {
        AudioConfigView {
            pcm: self.pcm@,
            channels: self.channels,
            bits_per_sample: self.bits_per_sample,
            sample_rate: self.sample_rate,
            period_size: self.period_size,
            buffer_size: self.buffer_size,
        }
    }
}

impl Clone for AudioConfig {
    fn clone(&self) -> (r: Self)
        ensures
            r == *self,
    {
        AudioConfig {
            pcm: self.pcm.clone(),
            channels: self.channels,
            bits_per_sample: self.bits_per_sample,
            sample_rate: self.sample_rate,
            period_size: self.period_size,
            buffer_size: self.buffer_size,
        }
    }
}

/// The format that is used where nobody asks for another.
pub open spec fn default_config() -> AudioConfigView {
    AudioConfigView {
        pcm: "noop"@,
        channels: 1,
        bits_per_sample: 32,
        sample_rate: 48000,
        period_size: 384,
        buffer_size: 6144,
    }
}

/// The configuration that a value stands for.
pub open spec fn config_of(json: JsonView) -> Option<AudioConfigView> {
    let pcm = as_text(field(json, "pcm"@, 0));
    let channels = as_uint(field(json, "channels"@, 1), 0xffff);
    let bits_per_sample = as_uint(field(json, "bits_per_sample"@, 2), 0xffff);
    let sample_rate = as_uint(field(json, "sample_rate"@, 3), 0xffff_ffff);
    let period_size = as_uint(field(json, "period_size"@, 4), 0xffff_ffff);
    let buffer_size = as_uint(field(json, "buffer_size"@, 5), 0xffff_ffff);
    if is_record(json, 6, 6) && pcm is Some && channels is Some && bits_per_sample is Some
        && sample_rate is Some && period_size is Some && buffer_size is Some {
        Some(
            AudioConfigView {
                pcm: pcm->0,
                channels: channels->0 as u16,
                bits_per_sample: bits_per_sample->0 as u16,
                sample_rate: sample_rate->0 as u32,
                period_size: period_size->0 as u32,
                buffer_size: buffer_size->0 as u32,
            },
        )
    } else {
        None
    }
}

/// The contents of a configuration that may be missing.
pub open spec fn opt_config(config: Option<AudioConfig>) -> Option<AudioConfigView> {
    match config {
        Some(config) => Some(config@),
        None => None,
    }
}

/// The configuration that was asked for, or the usual one.
pub open spec fn config_or_default(config: Option<AudioConfig>) -> AudioConfigView {
    match config {
        Some(config) => config@,
        None => default_config(),
    }
}

/// The name of the sample format, such as `S16_LE`.
pub open spec fn format_name(bits_per_sample: u16) -> Seq<char> {
    "S"@ + decimal(bits_per_sample as nat) + "_LE"@
}

impl AudioConfig {
    /// The format that is used where nobody asks for another.
    pub fn standard() -> (r: Self)
        ensures
            r@ == default_config(),
    {
        AudioConfig {
            pcm: "noop".to_string(),
            channels: 1,
            bits_per_sample: 32,
            sample_rate: 48000,
            period_size: 384,
            buffer_size: 6144,
        }
    }

    /// The given configuration, or the usual one.
    pub fn or_standard(config: Option<AudioConfig>) -> (r: Self)
        ensures
            r@ == config_or_default(config),
    {
        match config {
            Some(config) => config,
            None => AudioConfig::standard(),
        }
    }

    /// Reads a configuration; see [`config_of`]. A member that occurs more than
    /// once counts by its last value.
    pub fn from_value(json: &Json) -> (r: Option<Self>)
        ensures
            opt_config(r) == config_of(json@),
    {
        if !json.is_record(6, 6) {
            return None;
        }
        let pcm = match json.text_field("pcm", 0) {
            Some(pcm) => pcm,
            None => {
                return None;
            },
        };
        let channels = json.uint_field("channels", 1, 0xffff);
        let bits_per_sample = json.uint_field("bits_per_sample", 2, 0xffff);
        let sample_rate = json.uint_field("sample_rate", 3, 0xffff_ffff);
        let period_size = json.uint_field("period_size", 4, 0xffff_ffff);
        let buffer_size = json.uint_field("buffer_size", 5, 0xffff_ffff);
        match (channels, bits_per_sample, sample_rate, period_size, buffer_size) {
            (Some(channels), Some(bits), Some(rate), Some(period), Some(buffer)) => Some(
                AudioConfig {
                    pcm,
                    channels: channels as u16,
                    bits_per_sample: bits as u16,
                    sample_rate: rate as u32,
                    period_size: period as u32,
                    buffer_size: buffer as u32,
                },
            ),
            _ => None,
        }
    }

    /// See [`format_name`].
    pub fn format_name(&self) -> (r: String)
        ensures
            r@ == format_name(self.bits_per_sample),
    {
        let mut name = "S".to_string();
        name.append(decimal_of(self.bits_per_sample as u64).as_str());
        name.append("_LE");
        name
    }
}

/// A format is read field by field: an object is one exactly if it has the six members, the name
/// of the device as a text and the others as numbers that fit, and it is the format of those.
pub proof fn law_format_is_read_by_name(
    members: Seq<(Seq<char>, JsonView)>,
    config: AudioConfigView,
)
    ensures
        config_of(JsonView::Object(members)) == Some(config) <==> {
            &&& member(members, "pcm"@) == Some(JsonView::Str(config.pcm))
            &&& member(members, "channels"@) == Some(JsonView::Uint(config.channels as u64))
            &&& member(members, "bits_per_sample"@) == Some(
                JsonView::Uint(config.bits_per_sample as u64),
            )
            &&& member(members, "sample_rate"@) == Some(JsonView::Uint(config.sample_rate as u64))
            &&& member(members, "period_size"@) == Some(JsonView::Uint(config.period_size as u64))
            &&& member(members, "buffer_size"@) == Some(JsonView::Uint(config.buffer_size as u64))
        },
{
    let json = JsonView::Object(members);
    assert(field(json, "pcm"@, 0) == member(members, "pcm"@));
    assert(field(json, "channels"@, 1) == member(members, "channels"@));
    assert(field(json, "bits_per_sample"@, 2) == member(members, "bits_per_sample"@));
    assert(field(json, "sample_rate"@, 3) == member(members, "sample_rate"@));
    assert(field(json, "period_size"@, 4) == member(members, "period_size"@));
    assert(field(json, "buffer_size"@, 5) == member(members, "buffer_size"@));
}

/// A format may also be written as an array of its six fields.
pub proof fn law_format_is_read_by_place(config: AudioConfigView)
    ensures
        config_of(
            JsonView::Array(
                seq![
                    JsonView::Str(config.pcm),
                    JsonView::Uint(config.channels as u64),
                    JsonView::Uint(config.bits_per_sample as u64),
                    JsonView::Uint(config.sample_rate as u64),
                    JsonView::Uint(config.period_size as u64),
                    JsonView::Uint(config.buffer_size as u64),
                ],
            ),
        ) == Some(config),
{
}

/// Whoever asks for a format gets it; the usual one is for those who do not ask.
pub proof fn law_format_that_was_asked_for_is_used(config: AudioConfig, other: AudioConfig)
    ensures
        config_or_default(Some(config)) == config@,
        opt_config(Some(config)) == Some(config@),
        opt_config(None) is None,
        config@ == other@ <==> config.pcm@ == other.pcm@ && config.channels == other.channels
            && config.bits_per_sample == other.bits_per_sample && config.sample_rate
            == other.sample_rate && config.period_size == other.period_size && config.buffer_size
            == other.buffer_size,
        config@.pcm == config.pcm@ && config@.channels == config.channels
            && config@.bits_per_sample == config.bits_per_sample && config@.sample_rate
            == config.sample_rate && config@.period_size == config.period_size
            && config@.buffer_size == config.buffer_size,
        format_name(config.bits_per_sample) == "S"@ + decimal(config.bits_per_sample as nat)
            + "_LE"@,
{
}

/// A format is read, chosen and named as the laws about formats say.
pub proof fn law_formats_are_read_and_named(
    json: &Json,
    r: Option<AudioConfig>,
    asked: Option<AudioConfig>,
    config: AudioConfig,
    name: String,
)
    ensures
        call_ensures(AudioConfig::from_value, (json,), r) ==> (match r {
            Some(given) => Some(given@),
            None => None,
        }) == config_of(json@),
        call_ensures(AudioConfig::or_standard, (asked,), config) ==> match asked {
            Some(given) => config@ == given@,
            None => config.channels == 1 && config.bits_per_sample == 32 && config.sample_rate == 48000,
        },
        call_ensures(AudioConfig::standard, (), config) ==> config@ == (AudioConfigView {
            pcm: "noop"@,
            channels: 1,
            bits_per_sample: 32,
            sample_rate: 48000,
            period_size: 384,
            buffer_size: 6144,
        }),
        call_ensures(AudioConfig::format_name, (&config,), name) ==> name@ == "S"@ + decimal(
            config.bits_per_sample as nat,
        ) + "_LE"@,
{
}

} // verus!
