//! The wake word: what its log says and what is reported of it.

use crate::protocol::data::{is_uuid_v4, AppMessage, Event};
use crate::protocol::json::{
    law_contents_have_the_shape_of_the_value, member_views, Json, JsonView,
};
use crate::protocol::router::announce;
use crate::text::{
    decimal, fields, law_decimal_is_the_number, law_fields_lie_between_separators,
    law_written_number_reads_back, parse_u64, parse_u64_spec, same, split, texts,
};
use crate::transport::control::OutboundTarget;
use vstd::prelude::*;

verus! {

/// What happened to the wake word.
#[derive(Debug, PartialEq, Eq)]
pub enum KwsMonitorEvent {
    /// The recognition was started.
    Started,
    /// A wake word was heard.
    Keyword(String),
}

/// A [`KwsMonitorEvent`] as a value.
pub enum KwsEventView {
    Started,
    Keyword(Seq<char>),
}

impl View for KwsMonitorEvent {
    type V = KwsEventView;

    open spec fn view(&self) -> KwsEventView {
        match self {
            KwsMonitorEvent::Started => KwsEventView::Started,
            KwsMonitorEvent::Keyword(word) => KwsEventView::Keyword(word@),
        }
    }
}

/// How an event is written.
pub open spec fn kws_json(event: KwsEventView) -> JsonView {
    match event {
        KwsEventView::Started => JsonView::Str("Started"@),
        KwsEventView::Keyword(word) => JsonView::Object(seq![("Keyword"@, JsonView::Str(word))]),
    }
}

impl KwsMonitorEvent {
    /// The event as JSON.
    pub fn to_value(&self) -> (r: Json)
        ensures
            r@ == kws_json(self@),
    {
        match self {
            KwsMonitorEvent::Started => Json::Str("Started".to_string()),
            KwsMonitorEvent::Keyword(word) => {
                let mut members: Vec<(String, Json)> = Vec::new();
                members.push(("Keyword".to_string(), Json::Str(word.clone())));
                assert(member_views(members@) =~= seq![("Keyword"@, JsonView::Str(word@))]);
                Json::Object(members)
            },
        }
    }
}

/// The file that is watched.
pub fn kws_file_path() -> (r: String)
    ensures
        r@ == "/tmp/open-xiaoai/kws.log"@,
{
    "/tmp/open-xiaoai/kws.log".to_string()
}

/// The time at the beginning of a line; 0 where there is none that can be read.
pub open spec fn line_time(line: Seq<char>) -> u64 {
    match parse_u64_spec(split(line, '@')[0]) {
        Some(time) => time,
        None => 0,
    }
}

/// Whether a line has a time and a word, with an `@` between them.
pub open spec fn is_kws_line(line: Seq<char>) -> bool {
    split(line, '@').len() >= 2
}

/// What the word of a line stands for.
pub open spec fn line_event(line: Seq<char>) -> KwsEventView {
    let word = split(line, '@')[1];
    if word == "__STARTED__"@ {
        KwsEventView::Started
    } else {
        KwsEventView::Keyword(word)
    }
}

/// The time to remember after a line, and what the line has to report: nothing if
/// it has the time of the last line that was reported.
pub open spec fn kws_next(last_ts: u64, line: Seq<char>) -> (u64, Option<KwsEventView>) {
    if is_kws_line(line) && line_time(line) != last_ts {
        (line_time(line), Some(line_event(line)))
    } else {
        (last_ts, None)
    }
}

/// An event that may be missing, as a value.
pub open spec fn opt_kws(event: Option<KwsMonitorEvent>) -> Option<KwsEventView> {
    match event {
        Some(event) => Some(event@),
        None => None,
    }
}

/// Remembers the time of the last line that was reported, so that none is
/// reported twice.
#[derive(Debug, Clone, Copy, PartialEq, Eq)]
pub struct KwsMonitor {
    pub last_ts: u64,
}

impl KwsMonitor {
    /// Nothing was reported yet.
    pub fn new() -> (r: Self)
        ensures
            r.last_ts == 0,
    {
        KwsMonitor { last_ts: 0 }
    }

    /// What a new line of the log has to report; see [`kws_next`].
    pub fn on_line(&mut self, line: &str) -> (r: Option<KwsMonitorEvent>)
        ensures
            (final(self).last_ts, opt_kws(r)) == kws_next(old(self).last_ts, line@),
    {
        let parts = fields(line, '@');
        assert(texts(parts@).len() == parts@.len());
        if parts.len() < 2 {
            return None;
        }
        assert(texts(parts@)[0] == parts@[0]@ && texts(parts@)[1] == parts@[1]@);
        let ts: u64 = match parse_u64(parts[0].as_str()) {
            Some(ts) => ts,
            None => 0,
        };
        if ts == self.last_ts {
            return None;
        }
        self.last_ts = ts;
        Some(
            if same(parts[1].as_str(), "__STARTED__") {
                KwsMonitorEvent::Started
            } else {
                KwsMonitorEvent::Keyword(parts[1].clone())
            },
        )
    }
}

/// The message that reports an event.
pub fn kws_event(event: &KwsMonitorEvent) -> (r: Event)
    ensures
        is_uuid_v4(r.id@),
        r@.event == "kws"@,
        r@.data == Some(kws_json(event@)),
{
    Event::new("kws", Some(event.to_value()))
}

/// The message that tells everyone of an event.
pub fn kws_report(event: &KwsMonitorEvent) -> (r: (OutboundTarget, AppMessage))
    ensures
        r.0 == OutboundTarget::Broadcast,
        r.1 matches AppMessage::Event(message) && is_uuid_v4(message.id@) && message@.event
            == "kws"@ && message@.data == Some(kws_json(event@)),
{
    announce(kws_event(event))
}

/// A line that was read once has nothing to report when it is read again at once.
pub proof fn law_line_is_reported_once(last_ts: u64, line: Seq<char>)
    ensures
        kws_next(kws_next(last_ts, line).0, line) == (
            kws_next(last_ts, line).0,
            None::<KwsEventView>,
        ),
{
}

proof fn lemma_line_parts(time: Seq<char>, word: Seq<char>, tail: Seq<char>)
    requires
        !time.contains('@'),
        !word.contains('@'),
        tail.len() > 0 ==> tail[0] == '@',
    ensures
        ({
            let parts = split(time.push('@') + word + tail, '@');
            parts.len() >= 2 && parts[0] == time && parts[1] == word
        }),
{
    let rest = word + tail;
    assert(time.push('@') + word + tail =~= time.push('@') + rest);
    law_fields_lie_between_separators(time, rest, '@');
    if tail.len() == 0 {
        assert(rest =~= word);
        law_fields_lie_between_separators(word, Seq::empty(), '@');
        assert(split(time.push('@') + rest, '@')[1] == split(rest, '@')[0]);
    } else {
        assert(rest =~= word.push('@') + tail.skip(1));
        law_fields_lie_between_separators(word, tail.skip(1), '@');
        assert(split(time.push('@') + rest, '@')[1] == split(rest, '@')[0]);
    }
}

/// A record with a new time is always reported, whatever the time before it: the word behind the
/// first `@` is heard, or the recognition was started, and the time is remembered. A record with
/// the time that was remembered is not reported.
pub proof fn law_record_with_a_new_time_is_reported(
    last_ts: u64,
    time: u64,
    word: Seq<char>,
    tail: Seq<char>,
    after: u64,
    r: Option<KwsMonitorEvent>,
)
    requires
        !word.contains('@'),
        tail.len() > 0 ==> tail[0] == '@',
        (after, opt_kws(r)) == kws_next(last_ts, decimal(time as nat).push('@') + word + tail),
    ensures
        after == time,
        time == last_ts ==> r is None,
        time != last_ts && word == "__STARTED__"@ ==> r == Some(KwsMonitorEvent::Started),
        time != last_ts && word != "__STARTED__"@ ==> (r matches Some(
            KwsMonitorEvent::Keyword(heard),
        ) && heard@ == word),
{
    law_decimal_is_the_number(time as nat);
    law_written_number_reads_back(time, 0);
    assert(Seq::new(0, |i: int| '0') + decimal(time as nat) =~= decimal(time as nat));
    assert(!decimal(time as nat).contains('@')) by {
        if decimal(time as nat).contains('@') {
            let i = decimal(time as nat).index_of('@');
            assert('0' <= decimal(time as nat)[i] <= '9');
        }
    }
    lemma_line_parts(decimal(time as nat), word, tail);
}

/// A time that is no number counts as 0.
pub proof fn law_unreadable_time_counts_as_zero(
    last_ts: u64,
    time: Seq<char>,
    word: Seq<char>,
    tail: Seq<char>,
)
    requires
        !time.contains('@'),
        !word.contains('@'),
        tail.len() > 0 ==> tail[0] == '@',
        parse_u64_spec(time) is None,
    ensures
        kws_next(last_ts, time.push('@') + word + tail) == kws_next(
            last_ts,
            seq!['0', '@'] + word + tail,
        ),
{
    lemma_line_parts(time, word, tail);
    lemma_line_parts(seq!['0'], word, tail);
    assert(seq!['0'].push('@') =~= seq!['0', '@']);
    assert(decimal(0) =~= seq!['0']);
    law_written_number_reads_back(0, 0);
    assert(Seq::new(0, |i: int| '0') + decimal(0) =~= seq!['0']);
}

/// A line without an `@` says nothing and changes nothing.
pub proof fn law_line_without_a_word_says_nothing(last_ts: u64, line: Seq<char>)
    requires
        !line.contains('@'),
    ensures
        kws_next(last_ts, line) == (last_ts, None::<KwsEventView>),
{
    law_fields_lie_between_separators(line, Seq::empty(), '@');
}

/// An event is written as its name, a keyword with the word under it.
pub proof fn law_wake_word_as_json(event: KwsMonitorEvent, json: Json)
    requires
        json@ == kws_json(event@),
    ensures
        event is Started ==> (json matches Json::Str(name) && name@ == "Started"@),
        event matches KwsMonitorEvent::Keyword(word) ==> (json matches Json::Object(members)
            && members@.len() == 1 && members@[0].0@ == "Keyword"@ && (members@[0].1 matches Json::Str(
            text,
        ) && text@ == word@)),
{
    law_contents_have_the_shape_of_the_value(json);
    if let Json::Object(members) = json {
        if members@.len() > 0 {
            law_contents_have_the_shape_of_the_value(members@[0].1);
            assert(json@->Object_0[0].0 == members@[0].0@);
        }
    }
}

/// A monitor hears every record with a new time, however much later or earlier it is than the last:
/// the word, or the start, is handed out and the time remembered.
pub proof fn law_monitor_hears_every_new_record(
    monitor: &mut KwsMonitor,
    line: &str,
    time: u64,
    word: Seq<char>,
    tail: Seq<char>,
    r: Option<KwsMonitorEvent>,
)
    requires
        call_ensures(KwsMonitor::on_line, (monitor, line), r),
        !word.contains('@'),
        tail.len() > 0 ==> tail[0] == '@',
        line@ == decimal(time as nat).push('@') + word + tail,
    ensures
        final(monitor).last_ts == time,
        old(monitor).last_ts == time ==> r is None,
        old(monitor).last_ts != time && word == "__STARTED__"@ ==> r == Some(
            KwsMonitorEvent::Started,
        ),
        old(monitor).last_ts != time && word != "__STARTED__"@ ==> (r matches Some(
            KwsMonitorEvent::Keyword(heard),
        ) && heard@ == word),
{
    law_record_with_a_new_time_is_reported(
        old(monitor).last_ts,
        time,
        word,
        tail,
        final(monitor).last_ts,
        r,
    );
}

/// A time is read as a number, however it is written; what is no number counts as 0.
pub proof fn law_time_is_read_as_a_number(
    last_ts: u64,
    time: Seq<char>,
    word: Seq<char>,
    tail: Seq<char>,
)
    requires
        !time.contains('@'),
        !word.contains('@'),
        tail.len() > 0 ==> tail[0] == '@',
    ensures
        kws_next(last_ts, time.push('@') + word + tail) == kws_next(
            last_ts,
            decimal(
                if parse_u64_spec(time) is Some {
                    parse_u64_spec(time)->0 as nat
                } else {
                    0
                },
            ).push('@') + word + tail,
        ),
{
    let n: u64 = if parse_u64_spec(time) is Some {
        parse_u64_spec(time)->0
    } else {
        0
    };
    let text = decimal(n as nat);
    law_decimal_is_the_number(n as nat);
    law_written_number_reads_back(n, 0);
    assert(Seq::new(0, |i: int| '0') + text =~= text);
    assert(!text.contains('@')) by {
        if text.contains('@') {
            let i = text.index_of('@');
            assert('0' <= text[i] <= '9');
        }
    }
    lemma_line_parts(time, word, tail);
    lemma_line_parts(text, word, tail);
}

/// A monitor takes each line as the laws about lines say, starting with no time; what it heard is told
/// to everyone.
pub proof fn law_monitor_takes_every_line(
    monitor: &mut KwsMonitor,
    line: &str,
    r: Option<KwsMonitorEvent>,
    fresh: KwsMonitor,
    event: &KwsMonitorEvent,
    report: (OutboundTarget, AppMessage),
    message: Event,
    json: Json,
)
    ensures
        call_ensures(KwsMonitor::on_line, (monitor, line), r) ==> (final(monitor).last_ts, opt_kws(r))
            == kws_next(old(monitor).last_ts, line@),
        call_ensures(KwsMonitor::new, (), fresh) ==> fresh.last_ts == 0,
        call_ensures(kws_report, (event,), report) ==> report.0 == OutboundTarget::Broadcast && (
        report.1 matches AppMessage::Event(told) && told.event@ == "kws"@ && told@.data == Some(
            kws_json(event@),
        )),
        call_ensures(kws_event, (event,), message) ==> message.event@ == "kws"@ && message@.data == Some(
            kws_json(event@),
        ),
        call_ensures(KwsMonitorEvent::to_value, (event,), json) ==> json@ == kws_json(event@),
{
}

/// The wake word is read from its file.
pub proof fn law_file_of_the_wake_word(r: String)
    requires
        call_ensures(kws_file_path, (), r),
    ensures
        r@ == "/tmp/open-xiaoai/kws.log"@,
{
}

} // verus!
