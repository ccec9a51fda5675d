//! Between WebSocket frames and messages.

use crate::protocol::data::{
    app_message_json, app_message_of, kept_message, kept_stream, law_written_message_reads_back,
    law_written_stream_reads_back, stream_json, stream_of, AppMessage, AppMessageView, Stream,
};
use crate::protocol::json::{Json, JsonView};
use crate::text::{
    decimal, decimal_of, law_replacing_goes_by_character, opt_text, replace_char, replaced_char,
};
use crate::transport::control::{InboundMessage, OutboundControl, OutboundView};
use vstd::prelude::*;

verus! {

/// A frame that came in. Frames with a body carry it as JSON; `None` stands for
/// a body that cannot be read as JSON of the shape of a message.
#[derive(Debug, PartialEq, Eq)]
pub enum InboundFrame {
    Text(Option<Json>),
    Binary(Option<Json>),
    Ping,
    Pong,
    /// A raw frame.
    Frame,
    Close,
}

/// What a frame means.
#[derive(Debug, PartialEq, Eq)]
pub enum DecodeResult {
    Message(InboundMessage),
    /// The frame is in order but means nothing.
    Ignore,
    /// The peer ends the connection.
    Close,
}

/// Why a frame means nothing that is known.
#[derive(Debug, Clone, Copy, PartialEq, Eq)]
pub enum DecodeError {
    /// A text frame that holds no message.
    Text,
    /// A binary frame that holds no stream.
    Binary,
}

impl DecodeError {
    /// The error as text.
    pub fn message(&self) -> (r: String)
        ensures
            r@ == self.message_text(),
    {
        match self {
            DecodeError::Text => "decode text app message".to_string(),
            DecodeError::Binary => "decode binary stream".to_string(),
        }
    }

    /// See [`DecodeError::message`].
    pub open spec fn message_text(&self) -> Seq<char> {
        match self {
            DecodeError::Text => "decode text app message"@,
            DecodeError::Binary => "decode binary stream"@,
        }
    }
}

/// The meaning of a frame, as a value.
pub enum Decoded {
    Message(AppMessageView),
    Ignore,
    Close,
    Failed(DecodeError),
}

/// What a frame means: a text frame holds any message, a binary frame a stream,
/// a close frame ends the connection, and the rest is nobody's concern.
pub open spec fn decoded(frame: InboundFrame) -> Decoded {
    match frame {
        InboundFrame::Text(Some(json)) => match app_message_of(json@) {
            Some(message) => Decoded::Message(message),
            None => Decoded::Failed(DecodeError::Text),
        },
        InboundFrame::Text(None) => Decoded::Failed(DecodeError::Text),
        InboundFrame::Binary(Some(json)) => match stream_of(json@) {
            Some(stream) => Decoded::Message(AppMessageView::Stream(stream)),
            None => Decoded::Failed(DecodeError::Binary),
        },
        InboundFrame::Binary(None) => Decoded::Failed(DecodeError::Binary),
        InboundFrame::Close => Decoded::Close,
        InboundFrame::Ping => Decoded::Ignore,
        InboundFrame::Pong => Decoded::Ignore,
        InboundFrame::Frame => Decoded::Ignore,
    }
}

/// The result of a decoding, as a value.
pub open spec fn decoded_result(r: Result<DecodeResult, DecodeError>) -> Decoded {
    match r {
        Ok(DecodeResult::Message(message)) => Decoded::Message(message@),
        Ok(DecodeResult::Ignore) => Decoded::Ignore,
        Ok(DecodeResult::Close) => Decoded::Close,
        Err(err) => Decoded::Failed(err),
    }
}

/// Reads a frame; see [`decoded`].
pub fn decode_message(message: InboundFrame) -> (r: Result<DecodeResult, DecodeError>)
    ensures
        decoded_result(r) == decoded(message),
{
    match message {
        InboundFrame::Text(Some(json)) => {
            let app = match AppMessage::from_value(&json) {
                Some(app) => app,
                None => {
                    return Err(DecodeError::Text);
                },
            };
            let inbound = match app {
                AppMessage::Request(v) => InboundMessage::Request(v),
                AppMessage::Response(v) => InboundMessage::Response(v),
                AppMessage::Event(v) => InboundMessage::Event(v),
                AppMessage::Stream(v) => InboundMessage::Stream(v),
            };
            Ok(DecodeResult::Message(inbound))
        },
        InboundFrame::Text(None) => Err(DecodeError::Text),
        InboundFrame::Binary(Some(json)) => match Stream::from_value(&json) {
            Some(stream) => Ok(DecodeResult::Message(InboundMessage::Stream(stream))),
            None => Err(DecodeError::Binary),
        },
        InboundFrame::Binary(None) => Err(DecodeError::Binary),
        InboundFrame::Close => Ok(DecodeResult::Close),
        InboundFrame::Ping | InboundFrame::Pong | InboundFrame::Frame => Ok(DecodeResult::Ignore),
    }
}

/// A frame that goes out.
#[derive(Debug, PartialEq, Eq)]
pub enum OutboundFrame {
    Text(String),
    Binary(Vec<u8>),
    /// A close without a reason.
    Close,
}

/// The contents of an [`OutboundFrame`].
pub enum OutboundFrameView {
    Text(Seq<char>),
    Binary(Seq<u8>),
    Close,
}

impl View for OutboundFrame {
    type V = OutboundFrameView;

    open spec fn view(&self) -> OutboundFrameView {
        match self {
            OutboundFrame::Text(text) => OutboundFrameView::Text(text@),
            OutboundFrame::Binary(bytes) => OutboundFrameView::Binary(bytes@),
            OutboundFrame::Close => OutboundFrameView::Close,
        }
    }
}

/// The frame that carries an outgoing message.
pub open spec fn encoded(outbound: OutboundView) -> OutboundFrameView {
    match outbound {
        OutboundView::Text(text) => OutboundFrameView::Text(text),
        OutboundView::Binary(bytes) => OutboundFrameView::Binary(bytes),
        _ => OutboundFrameView::Close,
    }
}

/// Puts an outgoing message into a frame. A request to clear the audio queue is
/// for the writer itself and has no frame.
pub fn encode_outbound(outbound: OutboundControl) -> (r: OutboundFrame)
    requires
        !(outbound is ClearAudioQueue),
    ensures
        r@ == encoded(outbound@),
{
    match outbound {
        OutboundControl::Text(text) => OutboundFrame::Text(text),
        OutboundControl::Binary(bytes) => OutboundFrame::Binary(bytes),
        OutboundControl::Close => OutboundFrame::Close,
        OutboundControl::ClearAudioQueue(_) => OutboundFrame::Close,
    }
}

/// A JSON value of the `serde_json` crate.
#[verifier::external_type_specification]
#[verifier::external_body]
pub struct ExValue(serde_json::Value);

/// The value that a text stands for, or `None` if it is no JSON.
pub uninterp spec fn parsed_value(text: Seq<char>) -> Option<serde_json::Value>;

/// How a value is printed on one line, if it can be.
pub uninterp spec fn printed_value(value: serde_json::Value) -> Option<Seq<char>>;

/// The text of a JSON document on one line, or `None` if it is no JSON.
pub open spec fn compact_json(text: Seq<char>) -> Option<Seq<char>> {
    match parsed_value(text) {
        Some(value) => printed_value(value),
        None => None,
    }
}

/// Trusted: `serde_json::from_str` into a `serde_json::Value`. What it makes of a
/// text is a function of the text alone; it is called [`parsed_value`] and nothing
/// else is claimed of it.
#[verifier::external_body]
fn parse_value(text: &str) -> (r: Option<serde_json::Value>)
    ensures
        r == parsed_value(text@),
{
    serde_json::from_str::<serde_json::Value>(text).ok()
}

/// Trusted: `serde_json::to_string` of a `serde_json::Value`. What it makes of a
/// value is a function of the value alone; it is called [`printed_value`] and
/// nothing else is claimed of it.
#[verifier::external_body]
fn print_value(value: &serde_json::Value) -> (r: Option<String>)
    ensures
        opt_text(r) == printed_value(*value),
{
    serde_json::to_string(value).ok()
}

/// See [`compact_json`].
fn compacted_json(text: &str) -> (r: Option<String>)
    ensures
        opt_text(r) == compact_json(text@),
{
    match parse_value(text) {
        Some(value) => print_value(&value),
        None => None,
    }
}

/// What a text frame looks like in the log.
#[derive(Debug, PartialEq, Eq)]
pub enum FrameLog {
    /// The frame holds this message, which is printed as JSON.
    Message(Json),
    Text(String),
}

/// A [`FrameLog`] as a value.
pub enum FrameLogView {
    Message(JsonView),
    Text(Seq<char>),
}

impl View for FrameLog {
    type V = FrameLogView;

    open spec fn view(&self) -> FrameLogView {
        match self {
            FrameLog::Message(json) => FrameLogView::Message(json@),
            FrameLog::Text(text) => FrameLogView::Text(text@),
        }
    }
}

/// What is logged of a text frame: a message as JSON, a stream without its
/// bytes, other JSON on one line, and anything else with its line ends escaped.
pub open spec fn frame_log(
    text: Seq<char>,
    message: Option<AppMessageView>,
    compact: Option<Seq<char>>,
) -> FrameLogView {
    match message {
        Some(AppMessageView::Stream(stream)) => FrameLogView::Text(
            "<stream bytes="@ + decimal(stream.bytes.len()) + ">"@,
        ),
        Some(message) => FrameLogView::Message(app_message_json(message)),
        None => match compact {
            Some(line) => FrameLogView::Text(line),
            None => FrameLogView::Text(sanitized(text)),
        },
    }
}

/// The contents of a message that may be missing.
pub open spec fn opt_message(message: Option<AppMessage>) -> Option<AppMessageView> {
    match message {
        Some(message) => Some(message@),
        None => None,
    }
}

/// What to log of a text frame that holds `message`, or no message at all.
pub fn format_text_frame_for_log(text: &str, message: Option<AppMessage>) -> (r: FrameLog)
    ensures
        r@ == frame_log(text@, opt_message(message), compact_json(text@)),
{
    let compact = if message.is_some() {
        None
    } else {
        compacted_json(text)
    };
    frame_log_of(text, message, compact)
}

/// What to log of a text frame, given what it looks like on one line.
pub fn frame_log_of(text: &str, message: Option<AppMessage>, compact: Option<String>) -> (r: FrameLog)
    ensures
        r@ == frame_log(text@, opt_message(message), opt_text(compact)),
{
    match message {
        Some(AppMessage::Stream(stream)) => {
            let mut line = "<stream bytes=".to_string();
            line.append(decimal_of(stream.bytes.len() as u64).as_str());
            line.append(">");
            FrameLog::Text(line)
        },
        Some(message) => FrameLog::Message(message.to_value()),
        None => match compact {
            Some(line) => FrameLog::Text(line),
            None => FrameLog::Text(sanitize_text_frame_for_log(text)),
        },
    }
}

/// A text with its carriage returns and line feeds escaped.
pub open spec fn sanitized(text: Seq<char>) -> Seq<char> {
    replace_char(replace_char(text, '\r', "\\r"@), '\n', "\\n"@)
}

/// See [`sanitized`].
pub fn sanitize_text_frame_for_log(text: &str) -> (r: String)
    ensures
        r@ == sanitized(text@),
{
    replaced_char(replaced_char(text, '\r', "\\r").as_str(), '\n', "\\n")
}

/// The text does not hold the character.
pub open spec fn lacks(s: Seq<char>, c: char) -> bool {
    forall|i: int| 0 <= i < s.len() ==> #[trigger] s[i] != c
}

/// Whatever a frame holds, its escaped text is one line.
pub proof fn law_sanitized_text_is_one_line(text: Seq<char>)
    ensures
        lacks(sanitized(text), '\n'),
        lacks(sanitized(text), '\r'),
{
    reveal_strlit("\\r");
    reveal_strlit("\\n");
    lemma_replaced_is_gone(text, '\r', "\\r"@);
    let once = replace_char(text, '\r', "\\r"@);
    lemma_replaced_is_gone(once, '\n', "\\n"@);
    lemma_replacing_adds_nothing(once, '\n', "\\n"@, '\r');
}

proof fn lemma_replaced_is_gone(s: Seq<char>, from: char, to: Seq<char>)
    requires
        lacks(to, from),
    ensures
        lacks(replace_char(s, from, to), from),
    decreases s.len(),
{
    if s.len() > 0 {
        lemma_replaced_is_gone(s.drop_last(), from, to);
    }
}

proof fn lemma_replacing_adds_nothing(s: Seq<char>, from: char, to: Seq<char>, c: char)
    requires
        lacks(s, c),
        lacks(to, c),
    ensures
        lacks(replace_char(s, from, to), c),
    decreases s.len(),
{
    if s.len() > 0 {
        lemma_replacing_adds_nothing(s.drop_last(), from, to, c);
    }
}

/// A message that was written into a text frame is decoded as that message, with its
/// payload or data as they are kept.
pub proof fn law_decoding_undoes_encoding(message: AppMessage, json: Json)
    requires
        json@ == app_message_json(message@),
    ensures
        decoded(InboundFrame::Text(Some(json))) == Decoded::Message(
            kept_message(message@),
        ),
{
    law_written_message_reads_back(message@);
}

/// A stream that was written into a binary frame is decoded as that stream, with its
/// data as they are kept.
pub proof fn law_decoding_undoes_encoding_of_streams(stream: Stream, json: Json)
    requires
        json@ == stream_json(stream@),
    ensures
        decoded(InboundFrame::Binary(Some(json))) == Decoded::Message(
            AppMessageView::Stream(kept_stream(stream@)),
        ),
{
    law_written_stream_reads_back(stream@);
}

/// A frame goes out as what it is to say: a text as the text, bytes as the bytes, all of them.
pub proof fn law_frames_carry_what_was_queued(
    text: Seq<char>,
    bytes: Seq<u8>,
    s: String,
    v: Vec<u8>,
)
    ensures
        encoded(OutboundView::Text(text)) == OutboundFrameView::Text(text),
        encoded(OutboundView::Binary(bytes)) == OutboundFrameView::Binary(bytes),
        encoded(OutboundView::Close) == OutboundFrameView::Close,
        OutboundFrame::Text(s)@ == OutboundFrameView::Text(s@),
        OutboundFrame::Binary(v)@ == OutboundFrameView::Binary(v@),
        OutboundFrame::Close@ == OutboundFrameView::Close,
{
}

/// What comes of a frame: a text frame gives the message that it holds, a binary frame the stream, a
/// close frame the end, and pings, pongs and raw frames nothing. A frame that holds no message is an
/// error of its kind.
pub proof fn law_frames_mean_what_they_hold(
    frame: InboundFrame,
    r: Result<DecodeResult, DecodeError>,
)
    requires
        decoded_result(r) == decoded(frame),
    ensures
        match frame {
            InboundFrame::Text(None) => r == Err::<DecodeResult, DecodeError>(DecodeError::Text),
            InboundFrame::Text(Some(json)) => match app_message_of(json@) {
                Some(message) => r matches Ok(DecodeResult::Message(inbound)) && inbound@ == message,
                None => r == Err::<DecodeResult, DecodeError>(DecodeError::Text),
            },
            InboundFrame::Binary(None) => r == Err::<DecodeResult, DecodeError>(
                DecodeError::Binary,
            ),
            InboundFrame::Binary(Some(json)) => match stream_of(json@) {
                Some(stream) => r matches Ok(DecodeResult::Message(InboundMessage::Stream(read)))
                    && read@ == stream,
                None => r == Err::<DecodeResult, DecodeError>(DecodeError::Binary),
            },
            InboundFrame::Close => r == Ok::<DecodeResult, DecodeError>(DecodeResult::Close),
            _ => r == Ok::<DecodeResult, DecodeError>(DecodeResult::Ignore),
        },
{
}

/// A text is escaped character by character: each carriage return and each line feed becomes a
/// backslash and a letter, and nothing else changes.
pub proof fn law_text_is_escaped_by_character(a: Seq<char>, b: Seq<char>, c: char)
    ensures
        sanitized(a + b) == sanitized(a) + sanitized(b),
        sanitized(seq!['\r']) == seq!['\\', 'r'],
        sanitized(seq!['\n']) == seq!['\\', 'n'],
        c != '\r' && c != '\n' ==> sanitized(seq![c]) == seq![c],
{
    reveal_strlit("\\r");
    reveal_strlit("\\n");
    let (cr, lf) = ("\\r"@, "\\n"@);
    law_replacing_goes_by_character(a, b, c, '\r', cr);
    law_replacing_goes_by_character(
        replace_char(a, '\r', cr),
        replace_char(b, '\r', cr),
        c,
        '\n',
        lf,
    );
    assert(cr =~= seq!['\\', 'r'] && lf =~= seq!['\\', 'n']);
    law_replacing_goes_by_character(Seq::empty(), Seq::empty(), '\n', '\r', cr);
    law_replacing_goes_by_character(seq!['\\'], seq!['r'], '\\', '\n', lf);
    law_replacing_goes_by_character(Seq::empty(), Seq::empty(), 'r', '\n', lf);
    assert(seq!['\\'] + seq!['r'] =~= cr);
    assert(replace_char(cr, '\n', lf) =~= cr);
}

/// In the log a stream is told by its length, every other message as it is written, and what is no
/// message by the one line that it makes.
pub proof fn law_frames_are_logged(
    text: Seq<char>,
    message: AppMessageView,
    compact: Option<Seq<char>>,
)
    ensures
        message matches AppMessageView::Stream(stream) ==> frame_log(text, Some(message), compact)
            == FrameLogView::Text("<stream bytes="@ + decimal(stream.bytes.len()) + ">"@),
        !(message is Stream) ==> frame_log(text, Some(message), compact) == FrameLogView::Message(
            app_message_json(message),
        ),
        frame_log(text, None, compact) == FrameLogView::Text(
            if compact is Some {
                compact->0
            } else {
                sanitized(text)
            },
        ),
{
}

/// A frame is read as what it holds and written as what it is to say.
pub proof fn law_frames_are_read_and_written(
    frame: InboundFrame,
    read: Result<DecodeResult, DecodeError>,
    outbound: OutboundControl,
    written: OutboundFrame,
    err: DecodeError,
    told: String,
)
    ensures
        call_ensures(decode_message, (frame,), read) ==> match frame {
            InboundFrame::Text(Some(json)) => match app_message_of(json@) {
                Some(message) => read matches Ok(DecodeResult::Message(inbound)) && inbound@
                    == message,
                None => read == Err::<DecodeResult, DecodeError>(DecodeError::Text),
            },
            InboundFrame::Binary(Some(json)) => match stream_of(json@) {
                Some(stream) => read matches Ok(DecodeResult::Message(inbound)) && inbound@
                    == AppMessageView::Stream(stream),
                None => read == Err::<DecodeResult, DecodeError>(DecodeError::Binary),
            },
            InboundFrame::Text(None) => read == Err::<DecodeResult, DecodeError>(DecodeError::Text),
            InboundFrame::Binary(None) => read == Err::<DecodeResult, DecodeError>(
                DecodeError::Binary,
            ),
            InboundFrame::Close => read == Ok::<DecodeResult, DecodeError>(DecodeResult::Close),
            _ => read == Ok::<DecodeResult, DecodeError>(DecodeResult::Ignore),
        },
        call_ensures(encode_outbound, (outbound,), written) ==> match outbound {
            OutboundControl::Text(text) => written matches OutboundFrame::Text(sent) && sent@ == text@,
            OutboundControl::Binary(bytes) => written matches OutboundFrame::Binary(sent) && sent@
                == bytes@,
            _ => written is Close,
        },
        call_ensures(DecodeError::message, (&err,), told) ==> told@ == if err == DecodeError::Text {
            "decode text app message"@
        } else {
            "decode binary stream"@
        },
{
}

/// What is logged of a frame follows from its text and the message in it.
pub proof fn law_frame_is_logged_as_it_is(
    text: &str,
    message: Option<AppMessage>,
    compact: Option<String>,
    r: FrameLog,
    escaped: String,
)
    ensures
        call_ensures(frame_log_of, (text, message, compact), r) ==> r@ == frame_log(
            text@,
            match message {
                Some(m) => Some(m@),
                None => None,
            },
            opt_text(compact),
        ),
        call_ensures(format_text_frame_for_log, (text, message), r) ==> r@ == frame_log(
            text@,
            match message {
                Some(m) => Some(m@),
                None => None,
            },
            match parsed_value(text@) {
                Some(value) => printed_value(value),
                None => None,
            },
        ),
        call_ensures(sanitize_text_frame_for_log, (text,), escaped) ==> escaped@ == sanitized(text@),
{
}

} // verus!
