//! The log: whether there is one, what its lines look like, and how often the
//! same thing is said.

use crate::text::{
    decimal, decimal_of, digits_value, is_digits, law_decimal_is_the_number,
    law_digits_count_by_their_place, same, tens, wide_decimal_of,
};
use vstd::prelude::*;

verus! {

/// What is remembered of a message that is logged only so often.
#[derive(Debug, Clone, Copy, PartialEq, Eq)]
pub struct RateLimitState {
    /// When it was last logged, in nanoseconds of a clock that never goes back.
    pub last_logged_at: Option<u64>,
    /// How often it was not logged since.
    pub suppressed: u64,
}

/// The state of the log.
pub struct DebugLog {
    pub enabled: bool,
    /// The limits that are kept, each with its component and its key.
    pub rate_limits: Vec<RateLimit>,
}

/// What is remembered under a component and a key.
pub struct RateLimit {
    pub component: String,
    pub key: String,
    pub state: RateLimitState,
}

impl RateLimit {
    /// The component and the key that share this limit.
    pub open spec fn name(&self) -> (Seq<char>, Seq<char>) {
        (self.component@, self.key@)
    }
}

/// The map that a list of limits stands for: the first of a component and a key
/// counts.
pub open spec fn limits_of(limits: Seq<RateLimit>) -> Map<(Seq<char>, Seq<char>), RateLimitState>
    decreases limits.len(),
{
    if limits.len() == 0 {
        Map::empty()
    } else {
        limits_of(limits.skip(1)).insert(limits[0].name(), limits[0].state)
    }
}

/// The state of a message that was never logged.
pub open spec fn fresh_limit() -> RateLimitState {
    RateLimitState { last_logged_at: None, suppressed: 0 }
}

impl DebugLog {
    /// What is remembered of the messages that are logged only so often.
    pub open spec fn limits(&self) -> Map<(Seq<char>, Seq<char>), RateLimitState> {
        limits_of(self.rate_limits@)
    }

    /// What is remembered under a component and a key.
    pub open spec fn limit(&self, name: (Seq<char>, Seq<char>)) -> RateLimitState {
        if self.limits().contains_key(name) {
            self.limits()[name]
        } else {
            fresh_limit()
        }
    }

    /// A log that is off.
    pub fn new() -> (r: Self)
        ensures
            !r.enabled,
            r.limits() == Map::<(Seq<char>, Seq<char>), RateLimitState>::empty(),
    {
        DebugLog { enabled: false, rate_limits: Vec::new() }
    }
}

/// Turns the log on or off.
pub fn set_debug_enabled(log: &mut DebugLog, enabled: bool)
    ensures
        final(log).enabled == enabled,
        final(log).rate_limits == old(log).rate_limits,
{
    log.enabled = enabled;
}

/// Whether the log is on.
pub fn is_debug_enabled(log: &DebugLog) -> (r: bool)
    ensures
        r == log.enabled,
{
    log.enabled
}

/// A number with at least three digits.
pub open spec fn three_digits(n: nat) -> Seq<char> {
    if n < 10 {
        "00"@ + decimal(n)
    } else if n < 100 {
        "0"@ + decimal(n)
    } else {
        decimal(n)
    }
}

/// A line of the log.
pub open spec fn log_line(
    date_time: Seq<char>,
    millis: u32,
    component: Seq<char>,
    message: Seq<char>,
) -> Seq<char> {
    "["@ + date_time + ":"@ + three_digits(millis as nat) + "] ["@ + component + "] "@ + message
}

/// A line of the log at a given time.
pub fn format_log_line_at(date_time: &str, millis: u32, component: &str, message: &str) -> (r: String)
    ensures
        r@ == log_line(date_time@, millis, component@, message@),
{
    let mut line = "[".to_string();
    line.append(date_time);
    line.append(":");
    let digits = decimal_of(millis as u64);
    let mut padded = if millis < 10 {
        "00".to_string()
    } else if millis < 100 {
        "0".to_string()
    } else {
        String::new()
    };
    padded.append(digits.as_str());
    assert(padded@ =~= three_digits(millis as nat));
    line.append(padded.as_str());
    line.append("] [");
    line.append(component);
    line.append("] ");
    line.append(message);
    line
}

/// Nothing but digits from `from` on, up to `to`.
pub open spec fn digits_between(s: Seq<char>, from: int, to: int) -> bool {
    forall|i: int| from <= i < to ==> '0' <= #[trigger] s[i] <= '9'
}

/// A date and a time such as `2026-03-05 09:04:59`. A year that does not have four
/// digits is written with its sign.
pub open spec fn is_date_time(s: Seq<char>) -> bool {
    let year = s.len() - 15;
    &&& year >= 4
    &&& if year == 4 {
        digits_between(s, 0, 4)
    } else {
        (s[0] == '+' || s[0] == '-') && digits_between(s, 1, year)
    }
    &&& s[year] == '-' && digits_between(s, year + 1, year + 3)
    &&& s[year + 3] == '-' && digits_between(s, year + 4, year + 6)
    &&& s[year + 6] == ' ' && digits_between(s, year + 7, year + 9)
    &&& s[year + 9] == ':' && digits_between(s, year + 10, year + 12)
    &&& s[year + 12] == ':' && digits_between(s, year + 13, year + 15)
}

/// How the date and the time of a line are written.
pub open spec fn date_time_format() -> Seq<char> {
    "%Y-%m-%d %H:%M:%S"@
}

/// The local date and time in the given format, and the milliseconds of the
/// second. Trusted: `chrono::Local::now`, its `format`, and
/// `timestamp_subsec_millis`. They depend on the moment and on the machine's time
/// zone; what is claimed is the shape that the format gives every date, and that
/// the milliseconds stay below two thousand, of which only a leap second has more
/// than one.
#[verifier::external_body]
fn local_time(format: &str) -> (r: (String, u32))
    requires
        format@ == date_time_format(),
    ensures
        is_date_time(r.0@),
        r.1 < 2000,
{
    let now = chrono::Local::now();
    (now.format(format).to_string(), now.timestamp_subsec_millis())
}

/// Whether `line` is the line for a message at some moment.
pub open spec fn is_log_line(line: Seq<char>, component: Seq<char>, message: Seq<char>) -> bool {
    exists|date_time: Seq<char>, millis: u32|
        is_date_time(date_time) && millis < 2000 && line == #[trigger] log_line(
            date_time,
            millis,
            component,
            message,
        )
}

/// A line of the log at this moment.
pub fn format_log_line(component: &str, message: &str) -> (r: String)
    ensures
        is_log_line(r@, component@, message@),
{
    let (date_time, millis) = local_time("%Y-%m-%d %H:%M:%S");
    format_log_line_at(date_time.as_str(), millis, component, message)
}

/// The line for a message, if the log is on.
pub fn debug_log(log: &DebugLog, component: &str, message: &str) -> (r: Option<String>)
    ensures
        r is Some <==> log.enabled,
        r matches Some(line) ==> is_log_line(line@, component@, message@),
{
    if log.enabled {
        Some(format_log_line(component, message))
    } else {
        None
    }
}

/// Whether a message may be logged again: it never was, or long enough ago.
pub open spec fn is_due(state: RateLimitState, interval_ns: u128, now: u64) -> bool {
    match state.last_logged_at {
        None => true,
        Some(last) => (if now >= last {
            now - last
        } else {
            0
        }) >= interval_ns,
    }
}

/// What is logged of a message that is due: how often it was not logged before
/// stands behind it, with the interval in whole milliseconds.
pub open spec fn limited_text(message: Seq<char>, suppressed: u64, interval_ns: u128) -> Seq<char> {
    if suppressed > 0 {
        message + " (suppressed "@ + decimal(suppressed as nat) + " similar logs in last "@
            + decimal((interval_ns / 1_000_000) as nat) + " ms)"@
    } else {
        message
    }
}

proof fn lemma_limits_update(limits: Seq<RateLimit>, at: int, state: RateLimitState)
    requires
        0 <= at < limits.len(),
        forall|j: int| 0 <= j < at ==> (#[trigger] limits[j]).name() != limits[at].name(),
    ensures
        limits_of(limits.update(at, RateLimit { state, ..limits[at] })) == limits_of(limits).insert(
            limits[at].name(),
            state,
        ),
        limits_of(limits).contains_key(limits[at].name()),
        limits_of(limits)[limits[at].name()] == limits[at].state,
    decreases limits.len(),
{
    let entry = RateLimit { state, ..limits[at] };
    let after = limits.update(at, entry);
    if at == 0 {
        assert(after.skip(1) =~= limits.skip(1));
        assert(limits_of(after) =~= limits_of(limits).insert(limits[at].name(), state));
    } else {
        let rest = limits.skip(1);
        assert(after.skip(1) =~= rest.update(at - 1, entry));
        assert forall|j: int| 0 <= j < at - 1 implies (#[trigger] rest[j]).name() != rest[at
            - 1].name() by {
            assert(rest[j] == limits[j + 1]);
        }
        lemma_limits_update(rest, at - 1, state);
        assert(limits[0].name() != limits[at].name());
        assert(limits_of(after) =~= limits_of(limits).insert(limits[at].name(), state));
    }
}

proof fn lemma_limits_push(limits: Seq<RateLimit>, entry: RateLimit)
    requires
        forall|j: int| 0 <= j < limits.len() ==> (#[trigger] limits[j]).name() != entry.name(),
    ensures
        limits_of(limits.push(entry)) == limits_of(limits).insert(entry.name(), entry.state),
        !limits_of(limits).contains_key(entry.name()),
    decreases limits.len(),
{
    let after = limits.push(entry);
    if limits.len() == 0 {
        assert(after.skip(1) =~= limits);
        assert(after[0] == entry);
    } else {
        let rest = limits.skip(1);
        assert(after.skip(1) =~= rest.push(entry));
        assert forall|j: int| 0 <= j < rest.len() implies (#[trigger] rest[j]).name()
            != entry.name() by {
            assert(rest[j] == limits[j + 1]);
        }
        lemma_limits_push(rest, entry);
        assert(limits[0].name() != entry.name());
        assert(limits_of(after) =~= limits_of(limits).insert(entry.name(), entry.state));
    }
}

/// What to log of a message that is logged at most once in `interval_ns`
/// nanoseconds, at the time `now`. Messages of the same component and key share a
/// limit, and no others do.
pub fn debug_log_limited(
    log: &mut DebugLog,
    component: &str,
    key: &str,
    interval_ns: u128,
    now: u64,
    message: &str,
) -> (r: Option<String>)
    ensures
        final(log).enabled == old(log).enabled,
        ({
            let name = (component@, key@);
            let state = old(log).limit(name);
            let due = is_due(state, interval_ns, now);
            &&& !old(log).enabled ==> r is None && final(log).limits() == old(log).limits()
            &&& old(log).enabled && due ==> {
                &&& r matches Some(line) && line@ == limited_text(
                    message@,
                    state.suppressed,
                    interval_ns,
                )
                &&& final(log).limits() == old(log).limits().insert(
                    name,
                    RateLimitState { last_logged_at: Some(now), suppressed: 0 },
                )
            }
            &&& old(log).enabled && !due ==> {
                &&& r is None
                &&& final(log).limits() == old(log).limits().insert(
                    name,
                    RateLimitState {
                        last_logged_at: state.last_logged_at,
                        suppressed: if state.suppressed == u64::MAX {
                            state.suppressed
                        } else {
                            (state.suppressed + 1) as u64
                        },
                    },
                )
            }
        }),
{
    if !log.enabled {
        return None;
    }
    let at = log.position(component, key);
    let state = match at {
        Some(i) => log.rate_limits[i].state,
        None => RateLimitState { last_logged_at: None, suppressed: 0 },
    };
    let should_log = match state.last_logged_at {
        None => true,
        Some(last) => {
            let elapsed: u64 = if now >= last {
                now - last
            } else {
                0
            };
            elapsed as u128 >= interval_ns
        },
    };
    let (line, next) = if should_log {
        let mut line = message.to_string();
        if state.suppressed > 0 {
            line.append(" (suppressed ");
            line.append(decimal_of(state.suppressed).as_str());
            line.append(" similar logs in last ");
            line.append(wide_decimal_of(interval_ns / 1_000_000).as_str());
            line.append(" ms)");
        }
        (Some(line), RateLimitState { last_logged_at: Some(now), suppressed: 0 })
    } else {
        let suppressed = state.suppressed.saturating_add(1);
        (None, RateLimitState { last_logged_at: state.last_logged_at, suppressed })
    };
    match at {
        Some(i) => {
            proof {
                lemma_limits_update(log.rate_limits@, i as int, state);
                lemma_limits_update(log.rate_limits@, i as int, next);
            }
            log.rate_limits[i].state = next;
            assert(log.rate_limits@ =~= old(log).rate_limits@.update(
                i as int,
                RateLimit { state: next, ..old(log).rate_limits@[i as int] },
            ));
        },
        None => {
            let entry = RateLimit {
                component: component.to_string(),
                key: key.to_string(),
                state: next,
            };
            proof {
                lemma_limits_push(log.rate_limits@, entry);
            }
            log.rate_limits.push(entry);
        },
    }
    line
}

impl DebugLog {
    fn position(&self, component: &str, key: &str) -> (r: Option<usize>)
        ensures
            match r {
                Some(i) => {
                    &&& i < self.rate_limits@.len()
                    &&& self.rate_limits@[i as int].name() == (component@, key@)
                    &&& forall|j: int|
                        0 <= j < i ==> (#[trigger] self.rate_limits@[j]).name() != (
                            component@,
                            key@,
                        )
                },
                None => forall|j: int|
                    0 <= j < self.rate_limits@.len() ==> (#[trigger] self.rate_limits@[j]).name()
                        != (component@, key@),
            },
    {
        let mut i: usize = 0;
        while i < self.rate_limits.len()
            invariant
                i <= self.rate_limits@.len(),
                forall|j: int|
                    0 <= j < i ==> (#[trigger] self.rate_limits@[j]).name() != (component@, key@),
            decreases self.rate_limits@.len() - i,
        {
            let entry = &self.rate_limits[i];
            if same(entry.component.as_str(), component) && same(entry.key.as_str(), key) {
                return Some(i);
            }
            i += 1;
        }
        None
    }
}

/// The line for a message about something that went wrong, if the log is on.
pub fn debug_err_log(log: &DebugLog, component: &str, message: &str) -> (r: Option<String>)
    ensures
        r is Some <==> log.enabled,
        r matches Some(line) ==> is_log_line(line@, component@, message@),
{
    debug_log(log, component, message)
}

/// A message that was just logged is not due again before its interval is over.
pub proof fn law_logged_message_is_held_back(interval_ns: u128, at: u64, now: u64)
    requires
        at <= now,
        now - at < interval_ns,
    ensures
        !is_due(RateLimitState { last_logged_at: Some(at), suppressed: 0 }, interval_ns, now),
{
}

/// The first limit of a name counts, wherever it stands; a name that is not there has none.
pub proof fn law_first_limit_of_a_name_counts(
    before: Seq<RateLimit>,
    entry: RateLimit,
    after: Seq<RateLimit>,
)
    requires
        forall|j: int| 0 <= j < before.len() ==> (#[trigger] before[j]).name() != entry.name(),
    ensures
        limits_of(before.push(entry) + after).contains_key((entry.component@, entry.key@)),
        limits_of(before.push(entry) + after)[(entry.component@, entry.key@)] == entry.state,
        !limits_of(before).contains_key((entry.component@, entry.key@)),
    decreases before.len(),
{
    let whole = before.push(entry) + after;
    if before.len() == 0 {
        assert(whole[0] == entry);
    } else {
        let rest = before.skip(1);
        assert forall|j: int| 0 <= j < rest.len() implies (#[trigger] rest[j]).name()
            != entry.name() by {
            assert(rest[j] == before[j + 1]);
        }
        assert(whole.skip(1) =~= rest.push(entry) + after);
        assert(whole[0] == before[0]);
        assert(before[0].name() != entry.name());
        law_first_limit_of_a_name_counts(rest, entry, after);
    }
}

/// A message is due exactly if it was never logged, or if the whole interval has passed since; with
/// no interval it always is. What is not remembered counts as never logged.
pub proof fn law_message_is_due_after_its_interval(
    suppressed: u64,
    last: u64,
    interval_ns: u128,
    now: u64,
    log: DebugLog,
    name: (Seq<char>, Seq<char>),
)
    ensures
        is_due(RateLimitState { last_logged_at: None, suppressed }, interval_ns, now),
        is_due(RateLimitState { last_logged_at: Some(last), suppressed }, interval_ns, now)
            <==> interval_ns == 0 || last + interval_ns <= now,
        limits_of(log.rate_limits@).contains_key(name) ==> log.limit(name) == limits_of(
            log.rate_limits@,
        )[name],
        !limits_of(log.rate_limits@).contains_key(name) ==> log.limit(name).last_logged_at is None
            && log.limit(name).suppressed == 0,
        log.limits() == limits_of(log.rate_limits@),
{
}

/// A message that was held back before says how often, and one that was not says nothing more than
/// itself; the interval is told in whole milliseconds.
pub proof fn law_suppressed_messages_are_counted(
    message: Seq<char>,
    suppressed: u64,
    interval_ns: u128,
    millis: nat,
)
    requires
        millis * 1_000_000 <= interval_ns < (millis + 1) * 1_000_000,
    ensures
        limited_text(message, 0, interval_ns) == message,
        suppressed > 0 ==> limited_text(message, suppressed, interval_ns) == message
            + " (suppressed "@ + decimal(suppressed as nat) + " similar logs in last "@ + decimal(
            millis,
        ) + " ms)"@,
{
}

/// A number below a thousand is written with three digits, of the same value; a larger one as it is.
pub proof fn law_millis_have_three_digits(n: nat)
    ensures
        is_digits(three_digits(n)),
        digits_value(three_digits(n)) == n,
        n < 1000 ==> three_digits(n).len() == 3,
        n >= 100 ==> three_digits(n) == decimal(n),
{
    reveal_strlit("0");
    reveal_strlit("00");
    law_decimal_is_the_number(n);
    let zeros = if n < 10 {
        "00"@
    } else if n < 100 {
        "0"@
    } else {
        Seq::empty()
    };
    assert(three_digits(n) =~= zeros + decimal(n));
    law_digits_count_by_their_place(zeros, decimal(n), '0');
    assert(digits_value(zeros) == 0) by {
        reveal_with_fuel(digits_value, 3);
    }
    let t = tens(decimal(n).len());
    assert(digits_value(zeros) * t == 0) by (nonlinear_arith)
        requires
            digits_value(zeros) == 0,
    ;
    if n < 1000 {
        reveal_with_fuel(decimal, 3);
        assert(decimal(n).len() == if n < 10 {
            1int
        } else if n < 100 {
            2
        } else {
            3
        });
    }
}

/// A line has the time in brackets, the component in brackets, and the whole message behind them.
pub proof fn law_line_has_its_parts(
    date_time: Seq<char>,
    millis: u32,
    component: Seq<char>,
    message: Seq<char>,
)
    ensures
        log_line(date_time, millis, component, message) == "["@ + date_time + ":"@ + three_digits(
            millis as nat,
        ) + "] ["@ + component + "] "@ + message,
        is_log_line(log_line(date_time, 0, component, message), component, message) <== is_date_time(
            date_time,
        ),
{
}

/// A message is logged exactly if the log is on and the message is due; then the count of those that
/// were held back begins anew, and otherwise it grows by one. Other messages are not touched.
pub proof fn law_limited_message_is_logged_when_due(
    log: &mut DebugLog,
    component: &str,
    key: &str,
    interval_ns: u128,
    now: u64,
    message: &str,
    other: (Seq<char>, Seq<char>),
    r: Option<String>,
)
    requires
        call_ensures(debug_log_limited, (log, component, key, interval_ns, now, message), r),
    ensures
        ({
            let name = (component@, key@);
            let state = old(log).limit(name);
            let due = state.last_logged_at is None || interval_ns == 0 || state.last_logged_at->0
                + interval_ns <= now;
            &&& final(log).enabled == old(log).enabled
            &&& r is Some <==> old(log).enabled && due
            &&& r matches Some(line) ==> line@ == limited_text(
                message@,
                state.suppressed,
                interval_ns,
            ) && final(log).limit(name).last_logged_at == Some(now) && final(log).limit(name).suppressed
                == 0
            &&& old(log).enabled && !due ==> final(log).limit(name).last_logged_at
                == state.last_logged_at && (state.suppressed < u64::MAX ==> final(log).limit(
                name,
            ).suppressed == state.suppressed + 1)
            &&& !old(log).enabled ==> final(log).limit(name) == state
            &&& other != name ==> final(log).limit(other) == old(log).limit(other)
        }),
{
}

/// A line is written exactly if the log is on, and the log is on exactly if it was turned on.
pub proof fn law_lines_are_written_while_the_log_is_on(
    log: &mut DebugLog,
    enabled: bool,
    now: &DebugLog,
    texts_given: (&str, &str, &str),
    millis: u32,
    r: Option<String>,
    line: String,
    on: bool,
    fresh: DebugLog,
)
    ensures
        call_ensures(set_debug_enabled, (log, enabled), ()) ==> final(log).enabled == enabled && final(log).rate_limits == old(log).rate_limits,
        call_ensures(is_debug_enabled, (now,), on) ==> on == now.enabled,
        call_ensures(DebugLog::new, (), fresh) ==> !fresh.enabled && fresh.limits() == Map::<
            (Seq<char>, Seq<char>),
            RateLimitState,
        >::empty(),
        call_ensures(debug_log, (now, texts_given.0, texts_given.1), r) || call_ensures(
            debug_err_log,
            (now, texts_given.0, texts_given.1),
            r,
        ) ==> (r is Some <==> now.enabled) && (r matches Some(text) ==> is_log_line(
            text@,
            texts_given.0@,
            texts_given.1@,
        )),
        call_ensures(
            format_log_line_at,
            (texts_given.0, millis, texts_given.1, texts_given.2),
            line,
        ) ==> line@ == "["@ + texts_given.0@ + ":"@ + three_digits(millis as nat) + "] ["@
            + texts_given.1@ + "] "@ + texts_given.2@,
        call_ensures(format_log_line, (texts_given.0, texts_given.1), line) ==> exists|
            date_time: Seq<char>,
            part: u32,
        | part < 2000 && line@ == #[trigger] log_line(
            date_time,
            part,
            texts_given.0@,
            texts_given.1@,
        ),
{
}

} // verus!
