//! The sound setup that fast recording needs, which only the LX06 has.

use crate::text::{
    chars_of, is_white_space, law_lines_end_with_line_feeds, law_trim_start_takes_off_white_space,
    lines_inclusive, lines_with_ends, lossy_text, lossy_utf8, matches_at, same,
    signed_decimal, signed_decimal_of, skip_white, starts_with, substring, texts, trim, trim_start,
    trimmed,
};
use vstd::prelude::*;

verus! {

/// The line before which the setup is inserted.
pub open spec fn insert_anchor() -> Seq<char> {
    "defaults.pcm.rate_converter \"speexrate_medium\""@
}

/// The name of the device that the setup defines.
pub open spec fn aec_pcm_name() -> Seq<char> {
    "pcm.lx06_aec_2ch"@
}

/// The setup: a route of two of the eight channels of the microphone array, and
/// the device that records through it.
pub open spec fn aec_config() -> Seq<char> {
    "pcm.lx06_aec_2ch_route {\n    type route\n    slave {\n        pcm \"Capture\"\n        channels 8\n    }\n\n    ttable.0.0 1\n    ttable.1.6 1\n}"@
        + "\n\n"@ + "pcm.lx06_aec_2ch {\n"@
        + "    type plug\n    slave {\n        pcm \"lx06_aec_2ch_route\"\n        format S32_LE\n        rate 48000\n        channels 2\n    }\n}"@
}

fn aec_config_text() -> (r: String)
    ensures
        r@ == aec_config(),
{
    let mut text =
        "pcm.lx06_aec_2ch_route {\n    type route\n    slave {\n        pcm \"Capture\"\n        channels 8\n    }\n\n    ttable.0.0 1\n    ttable.1.6 1\n}".to_string();
    text.append("\n\n");
    text.append("pcm.lx06_aec_2ch {\n");
    text.append(
        "    type plug\n    slave {\n        pcm \"lx06_aec_2ch_route\"\n        format S32_LE\n        rate 48000\n        channels 2\n    }\n}",
    );
    text
}

/// Whether a line begins the definition of the device: its name, and behind it
/// nothing or an opening brace.
pub open spec fn defines_aec(line: Seq<char>) -> bool {
    let line = trim_start(line);
    starts_with(line, aec_pcm_name()) && {
        let rest = trim_start(line.skip(aec_pcm_name().len() as int));
        rest.len() == 0 || rest[0] == '{'
    }
}

/// Whether a sound configuration defines the device.
pub open spec fn has_aec(contents: Seq<char>) -> bool {
    exists|i: int|
        0 <= i < lines_inclusive(contents).len() && defines_aec(
            #[trigger] lines_inclusive(contents)[i],
        )
}

fn line_defines_aec(line: &str) -> (r: bool)
    ensures
        r == defines_aec(line@),
{
    let chars = chars_of(line);
    let name = chars_of("pcm.lx06_aec_2ch");
    let start = skip_white(&chars, 0, chars.len());
    assert(chars@.subrange(0, chars@.len() as int) =~= line@);
    let ghost stripped = trim_start(line@);
    assert(stripped == chars@.subrange(start as int, chars@.len() as int));
    if name.len() > chars.len() - start || !matches_at(&chars, &name, start) {
        proof {
            if starts_with(stripped, name@) {
                assert(stripped.subrange(0, name@.len() as int) =~= chars@.subrange(
                    start as int,
                    start + name@.len(),
                ));
            }
        }
        return false;
    }
    assert(stripped.subrange(0, name@.len() as int) =~= chars@.subrange(
        start as int,
        start + name@.len(),
    ));
    assert(stripped.skip(name@.len() as int) =~= chars@.subrange(
        start + name@.len(),
        chars@.len() as int,
    ));
    let rest = skip_white(&chars, start + name.len(), chars.len());
    rest == chars.len() || chars[rest] == '{'
}

/// See [`has_aec`].
pub fn contains_lx06_aec_pcm(contents: &str) -> (r: bool)
    ensures
        r == has_aec(contents@),
{
    let lines = lines_with_ends(contents);
    let ghost all = lines_inclusive(contents@);
    let mut i: usize = 0;
    while i < lines.len()
        invariant
            i <= lines@.len(),
            all == lines_inclusive(contents@),
            texts(lines@) == all,
            forall|j: int| 0 <= j < i ==> !defines_aec(#[trigger] all[j]),
        decreases lines@.len() - i,
    {
        assert(all[i as int] == lines@[i as int]@);
        if line_defines_aec(lines[i].as_str()) {
            return true;
        }
        i += 1;
    }
    false
}

/// The length of some lines together.
pub open spec fn total_len(lines: Seq<Seq<char>>) -> nat
    decreases lines.len(),
{
    if lines.len() == 0 {
        0
    } else {
        total_len(lines.drop_last()) + lines.last().len()
    }
}

/// The number of lines before the first one that is the anchor.
pub open spec fn anchor_line(lines: Seq<Seq<char>>) -> Option<nat>
    decreases lines.len(),
{
    if lines.len() == 0 {
        None
    } else {
        match anchor_line(lines.drop_last()) {
            Some(at) => Some(at),
            None => if trim(lines.last()) == insert_anchor() {
                Some((lines.len() - 1) as nat)
            } else {
                None
            },
        }
    }
}

/// The position at which the first line that is the anchor begins.
pub open spec fn anchor_offset(contents: Seq<char>) -> Option<nat> {
    let lines = lines_inclusive(contents);
    match anchor_line(lines) {
        Some(at) => Some(total_len(lines.take(at as int))),
        None => None,
    }
}

/// See [`anchor_offset`]; positions count characters.
pub fn find_anchor_line_offset(contents: &str) -> (r: Option<usize>)
    ensures
        r is Some <==> anchor_offset(contents@) is Some,
        r matches Some(at) ==> anchor_offset(contents@) == Some(at as nat) && at <= contents@.len(),
{
    let chars = chars_of(contents);
    let lines = lines_with_ends(contents);
    let ghost all = lines_inclusive(contents@);
    let mut offset: usize = 0;
    let mut i: usize = 0;
    assert(all.take(0) =~= Seq::empty());
    while i < lines.len()
        invariant
            i <= lines@.len(),
            chars@ == contents@,
            all == lines_inclusive(contents@),
            texts(lines@) == all,
            offset == total_len(all.take(i as int)),
            offset <= chars@.len(),
            anchor_line(all.take(i as int)) is None,
        decreases lines@.len() - i,
    {
        proof {
            assert(all[i as int] == lines@[i as int]@);
            assert(all.take(i + 1).drop_last() =~= all.take(i as int));
            assert(all.take(i + 1).last() == lines@[i as int]@);
            lemma_lines_len(contents@);
            lemma_total_len_grows(all, i + 1);
        }
        if same(
            trimmed(lines[i].as_str()).as_str(),
            "defaults.pcm.rate_converter \"speexrate_medium\"",
        ) {
            proof {
                lemma_anchor_stays(all, i as int);
            }
            return Some(offset);
        }
        let line = chars_of(lines[i].as_str());
        assert(offset + line@.len() <= chars.len());
        offset += line.len();
        i += 1;
    }
    assert(all.take(i as int) =~= all);
    None
}

proof fn lemma_anchor_stays(lines: Seq<Seq<char>>, at: int)
    requires
        0 <= at < lines.len(),
        anchor_line(lines.take(at + 1)) == Some(at as nat),
    ensures
        anchor_line(lines) == Some(at as nat),
    decreases lines.len(),
{
    if at + 1 == lines.len() {
        assert(lines.take(at + 1) =~= lines);
    } else {
        assert(lines.drop_last().take(at + 1) =~= lines.take(at + 1));
        lemma_anchor_stays(lines.drop_last(), at);
    }
}

proof fn lemma_total_len_grows(lines: Seq<Seq<char>>, n: int)
    requires
        0 <= n <= lines.len(),
    ensures
        total_len(lines.take(n)) <= total_len(lines),
    decreases lines.len(),
{
    if n == lines.len() {
        assert(lines.take(n) =~= lines);
    } else {
        assert(lines.drop_last().take(n) =~= lines.take(n));
        lemma_total_len_grows(lines.drop_last(), n);
    }
}

/// All lines together are as long as the text.
proof fn lemma_lines_len(s: Seq<char>)
    ensures
        total_len(lines_inclusive(s)) == s.len(),
    decreases s.len(),
{
    if s.len() > 0 {
        lemma_lines_len(s.drop_last());
        let before = lines_inclusive(s.drop_last());
        let after = lines_inclusive(s);
        assert(after.drop_last() =~= if before.len() == 0 || before.last().last() == '\n' {
            before
        } else {
            before.drop_last()
        });
    }
}

/// A text that ends with a line feed.
pub open spec fn with_line_end(s: Seq<char>) -> Seq<char> {
    if s.len() > 0 && s.last() == '\n' {
        s
    } else {
        s.push('\n')
    }
}

/// A sound configuration with the setup in it: before the anchor if there is
/// one, and at the end otherwise.
pub open spec fn patched(contents: Seq<char>) -> Seq<char> {
    match anchor_offset(contents) {
        Some(at) => with_line_end(contents.take(at as int)) + "\n"@ + aec_config() + "\n\n"@
            + contents.skip(at as int),
        None => with_line_end(contents) + "\n"@ + aec_config() + "\n"@,
    }
}

fn end_line(text: &mut String, ends_with_feed: bool)
    requires
        ends_with_feed == (old(text)@.len() > 0 && old(text)@.last() == '\n'),
    ensures
        final(text)@ == with_line_end(old(text)@),
{
    if !ends_with_feed {
        text.push('\n');
    }
}

/// See [`patched`].
pub fn insert_lx06_aec_config(contents: &str) -> (r: String)
    ensures
        r@ == patched(contents@),
{
    let chars = chars_of(contents);
    match find_anchor_line_offset(contents) {
        Some(at) => {
            let mut out = substring(&chars, 0, at);
            assert(out@ =~= contents@.take(at as int));
            end_line(&mut out, at > 0 && chars[at - 1] == '\n');
            out.append("\n");
            out.append(aec_config_text().as_str());
            out.append("\n\n");
            let rest = substring(&chars, at, chars.len());
            assert(rest@ =~= contents@.skip(at as int));
            out.append(rest.as_str());
            out
        },
        None => {
            let mut out = contents.to_string();
            end_line(&mut out, chars.len() > 0 && chars[chars.len() - 1] == '\n');
            out.append("\n");
            out.append(aec_config_text().as_str());
            out.append("\n");
            out
        },
    }
}

proof fn lemma_last_line_ends(s: Seq<char>)
    requires
        s.len() > 0,
    ensures
        lines_inclusive(s).len() > 0,
        lines_inclusive(s).last().len() > 0,
        lines_inclusive(s).last().last() == s.last(),
    decreases s.len(),
{
    if s.len() > 1 {
        lemma_last_line_ends(s.drop_last());
    }
}

/// The lines of two texts, the first of which ends with a line feed, are the
/// lines of the one and then those of the other.
proof fn lemma_lines_of_sum(a: Seq<char>, b: Seq<char>)
    requires
        a.len() == 0 || a.last() == '\n',
    ensures
        lines_inclusive(a + b) == lines_inclusive(a) + lines_inclusive(b),
    decreases b.len(),
{
    if b.len() == 0 {
        assert(a + b =~= a);
        assert(lines_inclusive(a) + lines_inclusive(b) =~= lines_inclusive(a));
    } else {
        let shorter = b.drop_last();
        lemma_lines_of_sum(a, shorter);
        assert((a + b).drop_last() =~= a + shorter);
        assert((a + b).last() == b.last());
        let head = lines_inclusive(a);
        let tail = lines_inclusive(shorter);
        if a.len() > 0 {
            lemma_last_line_ends(a);
        }
        if shorter.len() > 0 {
            lemma_last_line_ends(shorter);
        }
        assert(lines_inclusive(a + b) =~= head + lines_inclusive(b));
    }
}

/// A text with one line feed, at its end, is one line.
proof fn lemma_one_line(s: Seq<char>)
    requires
        s.len() > 0,
        forall|i: int| 0 <= i < s.len() - 1 ==> #[trigger] s[i] != '\n',
    ensures
        lines_inclusive(s) == seq![s],
    decreases s.len(),
{
    let shorter = s.drop_last();
    if shorter.len() == 0 {
        assert(s =~= seq![s.last()]);
        assert(lines_inclusive(shorter).len() == 0);
        assert(lines_inclusive(s) =~= seq![s]);
    } else {
        lemma_one_line(shorter);
        assert(shorter.last() == s[s.len() - 2]);
        assert(shorter.push(s.last()) =~= s);
        assert(lines_inclusive(s) =~= seq![s]);
    }
}

proof fn lemma_definition_line()
    ensures
        defines_aec("pcm.lx06_aec_2ch {\n"@),
        lines_inclusive("pcm.lx06_aec_2ch {\n"@) == seq!["pcm.lx06_aec_2ch {\n"@],
        "pcm.lx06_aec_2ch {\n"@.len() > 0,
        "pcm.lx06_aec_2ch {\n"@.last() == '\n',
{
    reveal_strlit("pcm.lx06_aec_2ch {\n");
    reveal_strlit("pcm.lx06_aec_2ch");
    let line = "pcm.lx06_aec_2ch {\n"@;
    assert(trim_start(line) == line);
    assert(line.subrange(0, 16) =~= aec_pcm_name());
    let rest = line.skip(16);
    assert(rest =~= seq![' ', '{', '\n']);
    assert(rest.drop_first() =~= seq!['{', '\n']);
    assert(trim_start(rest.drop_first()) == rest.drop_first());
    assert(trim_start(rest) == rest.drop_first());
    lemma_one_line(line);
}

proof fn lemma_definition_is_found(before: Seq<char>, after: Seq<char>)
    requires
        before.len() > 0,
        before.last() == '\n',
    ensures
        has_aec(before + "pcm.lx06_aec_2ch {\n"@ + after),
{
    lemma_definition_line();
    let line = "pcm.lx06_aec_2ch {\n"@;
    lemma_lines_of_sum(before, line);
    lemma_lines_of_sum(before + line, after);
    let lines = lines_inclusive(before + line + after);
    let at = lines_inclusive(before).len() as int;
    assert(lines[at] == line);
}

/// Whatever the configuration was, with the setup in it it defines the device,
/// so that it is never patched twice.
pub proof fn law_patched_config_has_the_device(contents: Seq<char>)
    ensures
        has_aec(patched(contents)),
{
    reveal_strlit("\n\n");
    let route =
        "pcm.lx06_aec_2ch_route {\n    type route\n    slave {\n        pcm \"Capture\"\n        channels 8\n    }\n\n    ttable.0.0 1\n    ttable.1.6 1\n}"@;
    let plug =
        "    type plug\n    slave {\n        pcm \"lx06_aec_2ch_route\"\n        format S32_LE\n        rate 48000\n        channels 2\n    }\n}"@;
    let line = "pcm.lx06_aec_2ch {\n"@;
    match anchor_offset(contents) {
        Some(at) => {
            let head = with_line_end(contents.take(at as int)) + "\n"@ + route + "\n\n"@;
            let tail = plug + "\n\n"@ + contents.skip(at as int);
            assert(patched(contents) =~= head + line + tail);
            lemma_definition_is_found(head, tail);
        },
        None => {
            let head = with_line_end(contents) + "\n"@ + route + "\n\n"@;
            let tail = plug + "\n"@;
            assert(patched(contents) =~= head + line + tail);
            lemma_definition_is_found(head, tail);
        },
    }
}

/// Patching keeps what was there: the configuration is still in it, in one or
/// two pieces, in order.
pub proof fn law_patching_keeps_the_configuration(contents: Seq<char>)
    ensures
        match anchor_offset(contents) {
            Some(at) => {
                let before = contents.take(at as int);
                let after = contents.skip(at as int);
                &&& at <= contents.len()
                &&& before + after == contents
                &&& patched(contents).take(before.len() as int) == before
                &&& patched(contents).skip(patched(contents).len() - after.len()) == after
            },
            None => patched(contents).take(contents.len() as int) == contents,
        },
{
    match anchor_offset(contents) {
        Some(at) => {
            let lines = lines_inclusive(contents);
            lemma_anchor_in_range(lines);
            lemma_lines_len(contents);
            lemma_total_len_grows(lines, anchor_line(lines)->0 as int);
            let before = contents.take(at as int);
            let after = contents.skip(at as int);
            assert(before + after =~= contents);
            assert(patched(contents).take(before.len() as int) =~= before);
            assert(patched(contents).skip(patched(contents).len() - after.len()) =~= after);
        },
        None => {
            assert(patched(contents).take(contents.len() as int) =~= contents);
        },
    }
}

proof fn lemma_anchor_in_range(lines: Seq<Seq<char>>)
    ensures
        anchor_line(lines) matches Some(at) ==> at < lines.len(),
    decreases lines.len(),
{
    if lines.len() > 0 {
        lemma_anchor_in_range(lines.drop_last());
    }
}

/// How a process ended.
#[derive(Debug, PartialEq, Eq)]
pub struct ProcessOutput {
    pub success: bool,
    pub code: Option<i32>,
    pub stdout: Vec<u8>,
    pub stderr: Vec<u8>,
}

/// Whether the device is an LX06, by what `micocfg_model` printed.
pub open spec fn model_answer(
    output: Result<ProcessOutput, String>,
    stdout: Seq<char>,
) -> Result<bool, Seq<char>> {
    match output {
        Err(err) => Err("failed to execute micocfg_model: "@ + err@),
        Ok(output) => Ok(output.success && trim(stdout) == "LX06"@),
    }
}

/// The contents of a result with a text as its error.
pub open spec fn text_result<T>(r: Result<T, String>) -> Result<T, Seq<char>> {
    match r {
        Ok(value) => Ok(value),
        Err(err) => Err(err@),
    }
}

/// The bytes that a process wrote.
pub open spec fn stdout_of(output: Result<ProcessOutput, String>) -> Seq<u8> {
    match output {
        Ok(output) => output.stdout@,
        Err(_) => Seq::empty(),
    }
}

/// Whether the device is an LX06, by how `micocfg_model` ended and what it printed.
pub fn is_lx06_answer(success: bool, stdout: &str) -> (r: bool)
    ensures
        r == (success && trim(stdout@) == "LX06"@),
{
    success && same(trimmed(stdout).as_str(), "LX06")
}

/// Whether the device is an LX06; see [`model_answer`]. A process that fails
/// says no; one that cannot be started is an error.
pub fn is_lx06_model(output: Result<ProcessOutput, String>) -> (r: Result<bool, String>)
    ensures
        text_result(r) == model_answer(output, lossy_utf8(stdout_of(output))),
{
    match output {
        Err(err) => {
            let mut text = "failed to execute micocfg_model: ".to_string();
            text.append(err.as_str());
            Err(text)
        },
        Ok(output) => Ok(is_lx06_answer(output.success, lossy_text(&output.stdout).as_str())),
    }
}

/// Where the setup of one configuration file stands.
#[derive(Debug, Clone, Copy, PartialEq, Eq, Structural)]
pub enum AsoundPhase {
    Reading,
    Looking,
    ReadingCopy,
    ReadingMetadata,
    Writing,
    SettingPermissions,
    Mounting,
    /// The file defines the device.
    Ready,
    Failed,
}

/// What has to be done next for a configuration file.
#[derive(Debug, PartialEq, Eq)]
pub enum AsoundStep {
    /// Read the system's file.
    Read,
    /// Look whether the patched file exists.
    Look,
    /// Read the patched file that is there.
    ReadCopy,
    /// Read the permissions of the system's file.
    ReadMetadata,
    /// Write the patched file with these contents.
    Write(String),
    /// Give the patched file the permissions of the system's file.
    SetPermissions,
    /// Mount the patched file over the system's file.
    Mount,
    /// The file is as it has to be.
    Done,
    /// It cannot be made so.
    Failed(String),
}

/// What came of a step.
#[derive(Debug, PartialEq, Eq)]
pub enum AsoundEvent {
    /// The contents of the file, if it could be read.
    Contents(Option<String>),
    Exists(bool),
    /// Whether a step without a result of its own worked.
    Worked(bool),
    /// How `mount` ended, if it could be started.
    Mounted(Option<ProcessOutput>),
}

/// The setup of one configuration file.
#[derive(Debug, PartialEq, Eq)]
pub struct AsoundMount {
    pub system_path: String,
    /// Where the patched file is, or goes.
    pub patched_path: String,
    pub phase: AsoundPhase,
    /// The contents of the system's file or, once it is known, of the file that is
    /// mounted over it.
    pub seen: String,
}

/// The arguments of `mount`.
pub open spec fn mount_args(source: Seq<char>, target: Seq<char>) -> Seq<Seq<char>> {
    seq!["--bind"@, source, target]
}

/// See [`mount_args`].
pub fn build_mount_args(source: &str, target: &str) -> (r: Vec<String>)
    ensures
        texts(r@) == mount_args(source@, target@),
{
    let mut args: Vec<String> = Vec::new();
    args.push("--bind".to_string());
    args.push(source.to_string());
    args.push(target.to_string());
    assert(texts(args@) =~= mount_args(source@, target@));
    args
}

/// How a mount counts: it has to be started, and it has to succeed.
pub open spec fn mount_answer(
    source: Seq<char>,
    target: Seq<char>,
    output: Option<ProcessOutput>,
    stderr: Seq<char>,
) -> Result<(), Seq<char>> {
    match output {
        None => Err("failed to execute mount --bind "@ + source + " "@ + target),
        Some(output) => if output.success {
            Ok(())
        } else {
            Err(
                "mount --bind "@ + source + " "@ + target + " failed with exit_code="@
                    + signed_decimal(
                    match output.code {
                        Some(code) => code as int,
                        None => -1,
                    },
                ) + ": "@ + trim(stderr),
            )
        },
    }
}

/// The bytes that a process wrote as errors.
pub open spec fn stderr_of(output: Option<ProcessOutput>) -> Seq<u8> {
    match output {
        Some(output) => output.stderr@,
        None => Seq::empty(),
    }
}

/// Judges how `mount --bind source target` ended, given what it wrote as errors;
/// see [`mount_answer`].
pub fn mount_result(source: &str, target: &str, output: &Option<ProcessOutput>, stderr: &str) -> (r:
    Result<(), String>)
    ensures
        text_result(r) == mount_answer(source@, target@, *output, stderr@),
{
    match output {
        None => {
            let mut text = "failed to execute mount --bind ".to_string();
            text.append(source);
            text.append(" ");
            text.append(target);
            Err(text)
        },
        Some(output) => {
            if output.success {
                return Ok(());
            }
            let code: i32 = output.code.unwrap_or(-1);
            let mut text = "mount --bind ".to_string();
            text.append(source);
            text.append(" ");
            text.append(target);
            text.append(" failed with exit_code=");
            text.append(signed_decimal_of(code as i64).as_str());
            text.append(": ");
            text.append(trimmed(stderr).as_str());
            Err(text)
        },
    }
}

/// Judges how `mount --bind source target` ended; see [`mount_answer`].
pub fn bind_mount(source: &str, target: &str, output: Option<ProcessOutput>) -> (r: Result<
    (),
    String,
>)
    ensures
        text_result(r) == mount_answer(source@, target@, output, lossy_utf8(stderr_of(output))),
{
    let stderr = match &output {
        Some(output) => lossy_text(&output.stderr),
        None => lossy_text(&Vec::new()),
    };
    mount_result(source, target, &output, stderr.as_str())
}

/// The path of the patched file: in the directory of the program, under the name
/// of the system's file.
pub open spec fn patched_path(program_dir: Seq<char>, file_name: Seq<char>) -> Seq<char> {
    if program_dir.len() == 0 || program_dir.last() == '/' {
        program_dir + file_name
    } else {
        program_dir + "/"@ + file_name
    }
}

/// A step as a value.
pub enum AsoundStepView {
    Read,
    Look,
    ReadCopy,
    ReadMetadata,
    Write(Seq<char>),
    SetPermissions,
    Mount,
    Done,
    Failed(Seq<char>),
}

impl View for AsoundStep {
    type V = AsoundStepView;

    open spec fn view(&self) -> AsoundStepView {
        match self {
            AsoundStep::Read => AsoundStepView::Read,
            AsoundStep::Look => AsoundStepView::Look,
            AsoundStep::ReadCopy => AsoundStepView::ReadCopy,
            AsoundStep::ReadMetadata => AsoundStepView::ReadMetadata,
            AsoundStep::Write(contents) => AsoundStepView::Write(contents@),
            AsoundStep::SetPermissions => AsoundStepView::SetPermissions,
            AsoundStep::Mount => AsoundStepView::Mount,
            AsoundStep::Done => AsoundStepView::Done,
            AsoundStep::Failed(err) => AsoundStepView::Failed(err@),
        }
    }
}

/// An event that answers the step that was asked for.
pub open spec fn answers(phase: AsoundPhase, event: AsoundEvent) -> bool {
    match phase {
        AsoundPhase::Reading => event is Contents,
        AsoundPhase::Looking => event is Exists,
        AsoundPhase::ReadingCopy => event is Contents,
        AsoundPhase::ReadingMetadata => event is Worked,
        AsoundPhase::Writing => event is Worked,
        AsoundPhase::SettingPermissions => event is Worked,
        AsoundPhase::Mounting => event is Mounted,
        AsoundPhase::Ready => false,
        AsoundPhase::Failed => false,
    }
}

/// What follows an event: a file that defines the device is left alone; one that
/// does not has the patched file mounted over it. A patched file that is there has
/// to define the device, and one that is not is written first. The first failure
/// ends it all.
pub open spec fn asound_next(mount: AsoundMount, event: AsoundEvent) -> (AsoundPhase, AsoundStepView) {
    let system = mount.system_path@;
    let patch = mount.patched_path@;
    match (mount.phase, event) {
        (AsoundPhase::Reading, AsoundEvent::Contents(None)) => (
            AsoundPhase::Failed,
            AsoundStepView::Failed("failed to read ALSA config file: "@ + system),
        ),
        (AsoundPhase::Reading, AsoundEvent::Contents(Some(contents))) => if has_aec(contents@) {
            (AsoundPhase::Ready, AsoundStepView::Done)
        } else {
            (AsoundPhase::Looking, AsoundStepView::Look)
        },
        (AsoundPhase::Looking, AsoundEvent::Exists(true)) => (
            AsoundPhase::ReadingCopy,
            AsoundStepView::ReadCopy,
        ),
        (AsoundPhase::ReadingCopy, AsoundEvent::Contents(None)) => (
            AsoundPhase::Failed,
            AsoundStepView::Failed("failed to read ALSA config file: "@ + patch),
        ),
        (AsoundPhase::ReadingCopy, AsoundEvent::Contents(Some(contents))) => if has_aec(contents@) {
            (AsoundPhase::Mounting, AsoundStepView::Mount)
        } else {
            (
                AsoundPhase::Failed,
                AsoundStepView::Failed(
                    "program-local ALSA config does not contain pcm.lx06_aec_2ch: "@ + patch,
                ),
            )
        },
        (AsoundPhase::Looking, AsoundEvent::Exists(false)) => (
            AsoundPhase::ReadingMetadata,
            AsoundStepView::ReadMetadata,
        ),
        (AsoundPhase::ReadingMetadata, AsoundEvent::Worked(true)) => (
            AsoundPhase::Writing,
            AsoundStepView::Write(patched(mount.seen@)),
        ),
        (AsoundPhase::ReadingMetadata, AsoundEvent::Worked(false)) => (
            AsoundPhase::Failed,
            AsoundStepView::Failed("failed to read ALSA config metadata: "@ + system),
        ),
        (AsoundPhase::Writing, AsoundEvent::Worked(true)) => (
            AsoundPhase::SettingPermissions,
            AsoundStepView::SetPermissions,
        ),
        (AsoundPhase::Writing, AsoundEvent::Worked(false)) => (
            AsoundPhase::Failed,
            AsoundStepView::Failed("failed to write patched ALSA config: "@ + patch),
        ),
        (AsoundPhase::SettingPermissions, AsoundEvent::Worked(true)) => (
            AsoundPhase::Mounting,
            AsoundStepView::Mount,
        ),
        (AsoundPhase::SettingPermissions, AsoundEvent::Worked(false)) => (
            AsoundPhase::Failed,
            AsoundStepView::Failed(
                "failed to apply original permissions to patched ALSA config: "@ + patch,
            ),
        ),
        (AsoundPhase::Mounting, AsoundEvent::Mounted(output)) => match mount_answer(
            patch,
            system,
            output,
            lossy_utf8(stderr_of(output)),
        ) {
            Ok(()) => (AsoundPhase::Ready, AsoundStepView::Done),
            Err(err) => (AsoundPhase::Failed, AsoundStepView::Failed(err)),
        },
        _ => (mount.phase, AsoundStepView::Done),
    }
}

/// What is known of the contents of the file after an event: they are what was
/// read last or, where the patched file is about to be written, what is written.
pub open spec fn seen_after(mount: AsoundMount, event: AsoundEvent) -> Seq<char> {
    match (mount.phase, event) {
        (_, AsoundEvent::Contents(Some(contents))) => contents@,
        (AsoundPhase::ReadingMetadata, AsoundEvent::Worked(true)) => patched(mount.seen@),
        _ => mount.seen@,
    }
}

fn joined_text(a: &str, b: &str) -> (r: String)
    ensures
        r@ == a@ + b@,
{
    let mut text = a.to_string();
    text.append(b);
    text
}

impl AsoundMount {
    /// What is mounted, and what is left in place, defines the device.
    pub open spec fn wf(&self) -> bool {
        match self.phase {
            AsoundPhase::Writing => has_aec(self.seen@),
            AsoundPhase::SettingPermissions => has_aec(self.seen@),
            AsoundPhase::Mounting => has_aec(self.seen@),
            AsoundPhase::Ready => has_aec(self.seen@),
            _ => true,
        }
    }

    /// Begins the setup of a configuration file; the first step is to read it.
    pub fn ensure_asound_config_mounted(
        system_path: &str,
        file_name: &str,
        program_dir: &str,
    ) -> (r: (Self, AsoundStep))
        ensures
            r.0.system_path@ == system_path@,
            r.0.patched_path@ == patched_path(program_dir@, file_name@),
            r.0.phase == AsoundPhase::Reading,
            r.0.wf(),
            r.1 == AsoundStep::Read,
    {
        let dir = chars_of(program_dir);
        let mut path = program_dir.to_string();
        if dir.len() > 0 && dir[dir.len() - 1] != '/' {
            path.append("/");
        }
        path.append(file_name);
        let mount = AsoundMount {
            system_path: system_path.to_string(),
            patched_path: path,
            phase: AsoundPhase::Reading,
            seen: String::new(),
        };
        (mount, AsoundStep::Read)
    }

    fn fail(&mut self, text: String) -> (r: AsoundStep)
        ensures
            final(self).phase == AsoundPhase::Failed,
            final(self).system_path == old(self).system_path,
            final(self).patched_path == old(self).patched_path,
            final(self).seen == old(self).seen,
            r@ == AsoundStepView::Failed(text@),
    {
        self.phase = AsoundPhase::Failed;
        AsoundStep::Failed(text)
    }

    /// Takes in what came of the last step and says what is next; see
    /// [`asound_next`].
    pub fn next(&mut self, event: AsoundEvent) -> (r: AsoundStep)
        requires
            answers(old(self).phase, event),
            old(self).wf(),
        ensures
            final(self).wf(),
            (final(self).phase, r@) == asound_next(*old(self), event),
            final(self).system_path == old(self).system_path,
            final(self).patched_path == old(self).patched_path,
            final(self).seen@ == seen_after(*old(self), event),
    {
        proof {
            law_patched_config_has_the_device(self.seen@);
        }
        match (self.phase, event) {
            (AsoundPhase::Reading, AsoundEvent::Contents(None)) => {
                let text = joined_text(
                    "failed to read ALSA config file: ",
                    self.system_path.as_str(),
                );
                self.fail(text)
            },
            (AsoundPhase::Reading, AsoundEvent::Contents(Some(contents))) => {
                let defined = contains_lx06_aec_pcm(contents.as_str());
                self.seen = contents;
                if defined {
                    self.phase = AsoundPhase::Ready;
                    AsoundStep::Done
                } else {
                    self.phase = AsoundPhase::Looking;
                    AsoundStep::Look
                }
            },
            (AsoundPhase::Looking, AsoundEvent::Exists(true)) => {
                self.phase = AsoundPhase::ReadingCopy;
                AsoundStep::ReadCopy
            },
            (AsoundPhase::ReadingCopy, AsoundEvent::Contents(None)) => {
                let text = joined_text(
                    "failed to read ALSA config file: ",
                    self.patched_path.as_str(),
                );
                self.fail(text)
            },
            (AsoundPhase::ReadingCopy, AsoundEvent::Contents(Some(contents))) => {
                let defined = contains_lx06_aec_pcm(contents.as_str());
                self.seen = contents;
                if defined {
                    self.phase = AsoundPhase::Mounting;
                    AsoundStep::Mount
                } else {
                    let text = joined_text(
                        "program-local ALSA config does not contain pcm.lx06_aec_2ch: ",
                        self.patched_path.as_str(),
                    );
                    self.fail(text)
                }
            },
            (AsoundPhase::Looking, AsoundEvent::Exists(false)) => {
                self.phase = AsoundPhase::ReadingMetadata;
                AsoundStep::ReadMetadata
            },
            (AsoundPhase::ReadingMetadata, AsoundEvent::Worked(true)) => {
                self.phase = AsoundPhase::Writing;
                let contents = insert_lx06_aec_config(self.seen.as_str());
                self.seen = contents.clone();
                AsoundStep::Write(contents)
            },
            (AsoundPhase::ReadingMetadata, AsoundEvent::Worked(false)) => {
                let text = joined_text(
                    "failed to read ALSA config metadata: ",
                    self.system_path.as_str(),
                );
                self.fail(text)
            },
            (AsoundPhase::Writing, AsoundEvent::Worked(true)) => {
                self.phase = AsoundPhase::SettingPermissions;
                AsoundStep::SetPermissions
            },
            (AsoundPhase::Writing, AsoundEvent::Worked(false)) => {
                let text = joined_text(
                    "failed to write patched ALSA config: ",
                    self.patched_path.as_str(),
                );
                self.fail(text)
            },
            (AsoundPhase::SettingPermissions, AsoundEvent::Worked(true)) => {
                self.phase = AsoundPhase::Mounting;
                AsoundStep::Mount
            },
            (AsoundPhase::SettingPermissions, AsoundEvent::Worked(false)) => {
                let text = joined_text(
                    "failed to apply original permissions to patched ALSA config: ",
                    self.patched_path.as_str(),
                );
                self.fail(text)
            },
            (AsoundPhase::Mounting, AsoundEvent::Mounted(output)) => {
                match bind_mount(self.patched_path.as_str(), self.system_path.as_str(), output) {
                    Ok(()) => {
                        self.phase = AsoundPhase::Ready;
                        AsoundStep::Done
                    },
                    Err(err) => self.fail(err),
                }
            },
            _ => AsoundStep::Done,
        }
    }
}

/// Where the preparation of the device stands.
#[derive(Debug, Clone, Copy, PartialEq, Eq, Structural)]
pub enum PreparePhase {
    Model,
    ProgramDir,
    /// The setup of the configuration file with this number.
    File(usize),
    Finished,
}

/// What has to be done next to prepare the device.
#[derive(Debug, PartialEq, Eq)]
pub enum PrepareStep {
    /// Run `micocfg_model`.
    CheckModel,
    /// Find the directory of the program.
    ResolveProgramDir,
    /// Set up this configuration file; see [`AsoundMount`].
    SetUp { system_path: String, file_name: String },
    /// The device was prepared, or is not one that can be.
    Done(bool),
    /// The device could not be prepared.
    Failed(String),
}

/// What came of a step.
#[derive(Debug, PartialEq, Eq)]
pub enum PrepareEvent {
    Model(Result<ProcessOutput, String>),
    ProgramDir(Result<(), ProgramDirError>),
    /// The setup of a configuration file ended; see [`AsoundMount`].
    File(Result<AsoundMount, String>),
}

/// Why the directory of the program is not known.
#[derive(Debug, PartialEq, Eq)]
pub enum ProgramDirError {
    /// The path of the program is not known.
    Unknown,
    /// This path of the program has no directory.
    NoParent(String),
}

/// A step as a value.
pub enum PrepareStepView {
    CheckModel,
    ResolveProgramDir,
    SetUp { system_path: Seq<char>, file_name: Seq<char> },
    Done(bool),
    Failed(Seq<char>),
}

impl View for PrepareStep {
    type V = PrepareStepView;

    open spec fn view(&self) -> PrepareStepView {
        match self {
            PrepareStep::CheckModel => PrepareStepView::CheckModel,
            PrepareStep::ResolveProgramDir => PrepareStepView::ResolveProgramDir,
            PrepareStep::SetUp { system_path, file_name } => PrepareStepView::SetUp {
                system_path: system_path@,
                file_name: file_name@,
            },
            PrepareStep::Done(enabled) => PrepareStepView::Done(*enabled),
            PrepareStep::Failed(err) => PrepareStepView::Failed(err@),
        }
    }
}

/// The configuration files that are set up, in order.
pub open spec fn asound_targets() -> Seq<(Seq<char>, Seq<char>)> {
    seq![
        ("/etc/asound.conf"@, "asound.conf"@),
        ("/etc/asound.conf.dts"@, "asound.conf.dts"@),
    ]
}

/// The file was set up, and it is the one with the given number.
pub open spec fn is_set_up(mount: AsoundMount, at: int) -> bool {
    mount.wf() && mount.phase == AsoundPhase::Ready && mount.system_path@ == asound_targets()[at].0
}

/// An event that answers the step that was asked for.
pub open spec fn prepare_answers(phase: PreparePhase, event: PrepareEvent) -> bool {
    match phase {
        PreparePhase::Model => event is Model,
        PreparePhase::ProgramDir => event is ProgramDir,
        PreparePhase::File(at) => at < asound_targets().len() && event is File && (
        event matches PrepareEvent::File(Ok(mount)) ==> is_set_up(mount, at as int)),
        PreparePhase::Finished => false,
    }
}

/// The setup of the configuration file with the given number, or the end.
pub open spec fn set_up_from(at: int) -> (PreparePhase, PrepareStepView) {
    if 0 <= at < asound_targets().len() {
        (
            PreparePhase::File(at as usize),
            PrepareStepView::SetUp {
                system_path: asound_targets()[at].0,
                file_name: asound_targets()[at].1,
            },
        )
    } else {
        (PreparePhase::Finished, PrepareStepView::Done(true))
    }
}

/// What follows an event: a device that is no LX06, or cannot say so, has nothing
/// to prepare; on an LX06 every configuration file is set up, and the first failure ends it all.
pub open spec fn prepare_next(phase: PreparePhase, event: PrepareEvent) -> (
    PreparePhase,
    PrepareStepView,
) {
    match (phase, event) {
        (PreparePhase::Model, PrepareEvent::Model(output)) => match model_answer(
            output,
            lossy_utf8(stdout_of(output)),
        ) {
            Err(_) => (PreparePhase::Finished, PrepareStepView::Done(false)),
            Ok(false) => (PreparePhase::Finished, PrepareStepView::Done(false)),
            Ok(true) => (PreparePhase::ProgramDir, PrepareStepView::ResolveProgramDir),
        },
        (PreparePhase::ProgramDir, PrepareEvent::ProgramDir(Ok(()))) => set_up_from(0),
        (PreparePhase::ProgramDir, PrepareEvent::ProgramDir(Err(ProgramDirError::Unknown))) => (
            PreparePhase::Finished,
            PrepareStepView::Failed("failed to resolve current executable path"@),
        ),
        (PreparePhase::ProgramDir, PrepareEvent::ProgramDir(Err(ProgramDirError::NoParent(exe)))) => (
            PreparePhase::Finished,
            PrepareStepView::Failed("current executable path has no parent directory: "@ + exe@),
        ),
        (PreparePhase::File(at), PrepareEvent::File(Ok(_))) => set_up_from(at + 1),
        (PreparePhase::File(_), PrepareEvent::File(Err(err))) => (
            PreparePhase::Finished,
            PrepareStepView::Failed(err@),
        ),
        _ => (PreparePhase::Finished, PrepareStepView::Done(false)),
    }
}

fn set_up_step(at: usize) -> (r: (PreparePhase, PrepareStep))
    ensures
        (r.0, r.1@) == set_up_from(at as int),
{
    if at == 0 {
        (
            PreparePhase::File(0),
            PrepareStep::SetUp {
                system_path: "/etc/asound.conf".to_string(),
                file_name: "asound.conf".to_string(),
            },
        )
    } else if at == 1 {
        (
            PreparePhase::File(1),
            PrepareStep::SetUp {
                system_path: "/etc/asound.conf.dts".to_string(),
                file_name: "asound.conf.dts".to_string(),
            },
        )
    } else {
        (PreparePhase::Finished, PrepareStep::Done(true))
    }
}

/// Begins to prepare the device; the first step is to find out which it is.
pub fn prepare_lx06_audio_capability() -> (r: (PreparePhase, PrepareStep))
    ensures
        r == (PreparePhase::Model, PrepareStep::CheckModel),
{
    (PreparePhase::Model, PrepareStep::CheckModel)
}

/// Takes in what came of the last step and says what is next; see
/// [`prepare_next`].
pub fn continue_preparation(phase: PreparePhase, event: PrepareEvent) -> (r: (
    PreparePhase,
    PrepareStep,
))
    requires
        prepare_answers(phase, event),
    ensures
        (r.0, r.1@) == prepare_next(phase, event),
{
    match (phase, event) {
        (PreparePhase::Model, PrepareEvent::Model(output)) => match is_lx06_model(output) {
            Err(_) => (PreparePhase::Finished, PrepareStep::Done(false)),
            Ok(false) => (PreparePhase::Finished, PrepareStep::Done(false)),
            Ok(true) => (PreparePhase::ProgramDir, PrepareStep::ResolveProgramDir),
        },
        (PreparePhase::ProgramDir, PrepareEvent::ProgramDir(Ok(()))) => set_up_step(0),
        (PreparePhase::ProgramDir, PrepareEvent::ProgramDir(Err(ProgramDirError::Unknown))) => (
            PreparePhase::Finished,
            PrepareStep::Failed("failed to resolve current executable path".to_string()),
        ),
        (PreparePhase::ProgramDir, PrepareEvent::ProgramDir(Err(ProgramDirError::NoParent(exe)))) => {
            let text = joined_text(
                "current executable path has no parent directory: ",
                exe.as_str(),
            );
            (PreparePhase::Finished, PrepareStep::Failed(text))
        },
        (PreparePhase::File(at), PrepareEvent::File(Ok(_))) => set_up_step(at + 1),
        (PreparePhase::File(_), PrepareEvent::File(Err(err))) => (
            PreparePhase::Finished,
            PrepareStep::Failed(err),
        ),
        _ => (PreparePhase::Finished, PrepareStep::Done(false)),
    }
}

/// A file counts as set up only if it defines the device: what was read of it, or
/// of what was mounted over it, does.
pub proof fn law_done_means_the_device_is_defined(mount: AsoundMount, event: AsoundEvent)
    requires
        mount.wf(),
        answers(mount.phase, event),
    ensures
        asound_next(mount, event).1 is Done ==> has_aec(seen_after(mount, event)),
        asound_next(mount, event).1 is Mount ==> has_aec(seen_after(mount, event)),
{
    law_patched_config_has_the_device(mount.seen@);
}

/// A device counts as prepared only if it is an LX06 and both of its configuration
/// files define the device.
pub proof fn law_prepared_means_both_files_define_the_device(
    model: PrepareEvent,
    dir: PrepareEvent,
    first: PrepareEvent,
    second: PrepareEvent,
)
    requires
        prepare_answers(PreparePhase::Model, model),
        prepare_answers(prepare_next(PreparePhase::Model, model).0, dir),
        prepare_answers(prepare_next(PreparePhase::ProgramDir, dir).0, first),
        prepare_answers(prepare_next(PreparePhase::File(0), first).0, second),
        prepare_next(PreparePhase::File(1), second).1 == PrepareStepView::Done(true),
    ensures
        model matches PrepareEvent::Model(Ok(output)) && output.success && trim(
            lossy_utf8(output.stdout@),
        ) == "LX06"@,
        first matches PrepareEvent::File(Ok(mount)) && mount.system_path@ == "/etc/asound.conf"@
            && has_aec(mount.seen@),
        second matches PrepareEvent::File(Ok(mount)) && mount.system_path@
            == "/etc/asound.conf.dts"@ && has_aec(mount.seen@),
{
}

/// The preparation ends well only in two ways: without having set anything up, on
/// a device that is no LX06 or cannot say so; or after the last of the files.
pub proof fn law_preparation_ends_early_or_complete(phase: PreparePhase, event: PrepareEvent)
    requires
        prepare_answers(phase, event),
    ensures
        prepare_next(phase, event).1 == PrepareStepView::Done(false) <==> phase is Model && !(
        event matches PrepareEvent::Model(Ok(output)) && output.success && trim(
            lossy_utf8(output.stdout@),
        ) == "LX06"@),
        prepare_next(phase, event).1 == PrepareStepView::Done(true) <==> phase
            == PreparePhase::File(1) && event matches PrepareEvent::File(Ok(_)),
{
}

/// A line defines the device exactly if it has, behind white space, the name of the device, and
/// behind that, after white space, nothing or an opening brace.
pub proof fn law_definition_begins_with_the_name(
    before: Seq<char>,
    text: Seq<char>,
    between: Seq<char>,
    rest: Seq<char>,
)
    requires
        forall|i: int| 0 <= i < before.len() ==> is_white_space(#[trigger] before[i]),
        forall|i: int| 0 <= i < between.len() ==> is_white_space(#[trigger] between[i]),
        rest.len() > 0 ==> !is_white_space(rest[0]),
        text.len() > 0 ==> !is_white_space(text[0]),
    ensures
        defines_aec(before + "pcm.lx06_aec_2ch"@ + between + rest) <==> rest.len() == 0 || rest[0]
            == '{',
        !starts_with(text, "pcm.lx06_aec_2ch"@) ==> !defines_aec(before + text),
{
    reveal_strlit("pcm.lx06_aec_2ch");
    let name = "pcm.lx06_aec_2ch"@;
    assert(name[0] == 'p');
    assert(!is_white_space('p'));
    let line = name + between + rest;
    assert(line[0] == 'p');
    law_trim_start_takes_off_white_space(before, line);
    assert(before + name + between + rest =~= before + line);
    assert(line.subrange(0, name.len() as int) =~= name);
    assert(line.skip(name.len() as int) =~= between + rest);
    law_trim_start_takes_off_white_space(between, rest);
    law_trim_start_takes_off_white_space(before, text);
}

/// A configuration defines the device exactly if one of its lines does.
pub proof fn law_device_is_defined_by_a_line(first: Seq<char>, rest: Seq<char>)
    requires
        !first.contains('\n'),
    ensures
        has_aec(first.push('\n') + rest) <==> defines_aec(first.push('\n')) || has_aec(rest),
        first.len() > 0 ==> (has_aec(first) <==> defines_aec(first)),
        !has_aec(Seq::empty()),
{
    law_lines_end_with_line_feeds(first, rest);
    let whole = lines_inclusive(first.push('\n') + rest);
    let tail = lines_inclusive(rest);
    assert(whole[0] == first.push('\n'));
    if has_aec(rest) {
        let i = choose|i: int| 0 <= i < tail.len() && defines_aec(#[trigger] tail[i]);
        assert(whole[i + 1] == tail[i]);
    }
    if has_aec(first.push('\n') + rest) {
        let i = choose|i: int| 0 <= i < whole.len() && defines_aec(#[trigger] whole[i]);
        if i > 0 {
            assert(whole[i] == tail[i - 1]);
        }
    }
    if first.len() > 0 {
        assert(lines_inclusive(first)[0] == first);
    }
}

/// The anchor is the first line that is, without white space around it, the setting of the rate
/// converter.
pub proof fn law_anchor_is_the_first_such_line(first: Seq<char>, rest: Seq<char>)
    requires
        !first.contains('\n'),
    ensures
        ({
            let anchor = "defaults.pcm.rate_converter \"speexrate_medium\""@;
            &&& trim(first.push('\n')) == anchor ==> anchor_offset(first.push('\n') + rest) == Some(
                0nat,
            )
            &&& trim(first.push('\n')) != anchor ==> anchor_offset(first.push('\n') + rest) == (
            match anchor_offset(rest) {
                Some(at) => Some(at + first.len() + 1),
                None => None,
            })
            &&& first.len() > 0 && trim(first) == anchor ==> anchor_offset(first) == Some(0nat)
            &&& first.len() > 0 && trim(first) != anchor ==> anchor_offset(first) is None
            &&& anchor_offset(Seq::empty()) is None
        }),
{
    law_lines_end_with_line_feeds(first, rest);
    let line = first.push('\n');
    let tail = lines_inclusive(rest);
    lemma_anchor_behind(line, tail);
    lemma_anchor_behind(first, Seq::empty());
    lemma_anchor_in_range(tail);
    assert(seq![first] + Seq::<Seq<char>>::empty() =~= seq![first]);
    assert(anchor_line(Seq::empty()) is None);
    assert(total_len(Seq::empty()) == 0);
    assert((seq![line] + tail).take(0) =~= Seq::empty());
    assert(seq![first].take(0) =~= Seq::empty());
    if let Some(at) = anchor_line(tail) {
        assert((seq![line] + tail).take(at as int + 1) =~= seq![line] + tail.take(at as int));
        lemma_total_len_behind(line, tail.take(at as int));
    }
}

proof fn lemma_anchor_behind(line: Seq<char>, tail: Seq<Seq<char>>)
    ensures
        anchor_line(seq![line] + tail) == if trim(line) == insert_anchor() {
            Some(0nat)
        } else {
            match anchor_line(tail) {
                Some(at) => Some(at + 1),
                None => None,
            }
        },
    decreases tail.len(),
{
    let whole = seq![line] + tail;
    if tail.len() == 0 {
        assert(whole.drop_last() =~= Seq::empty());
        assert(anchor_line(Seq::empty()) is None);
        assert(whole.last() == line);
    } else {
        assert(whole.drop_last() =~= seq![line] + tail.drop_last());
        assert(whole.last() == tail.last());
        lemma_anchor_behind(line, tail.drop_last());
    }
}

proof fn lemma_total_len_behind(line: Seq<char>, tail: Seq<Seq<char>>)
    ensures
        total_len(seq![line] + tail) == line.len() + total_len(tail),
    decreases tail.len(),
{
    let whole = seq![line] + tail;
    if tail.len() == 0 {
        assert(whole.drop_last() =~= Seq::empty());
        assert(total_len(Seq::empty()) == 0);
        assert(whole.last() == line);
    } else {
        assert(whole.drop_last() =~= seq![line] + tail.drop_last());
        assert(whole.last() == tail.last());
        lemma_total_len_behind(line, tail.drop_last());
    }
}

/// The setup stands on lines of its own, in front of the anchor with an empty line on either side,
/// or at the end behind an empty line. A line that was not ended is ended first.
pub proof fn law_setup_stands_on_its_own_lines(before: Seq<char>, rest: Seq<char>)
    ensures
        before.len() > 0 && before.last() == '\n' && anchor_offset(before + rest) == Some(before.len())
            ==> patched(before + rest) == before + "\n"@ + aec_config() + "\n\n"@ + rest,
        anchor_offset(rest) == Some(0nat) ==> patched(rest) == "\n\n"@ + aec_config() + "\n\n"@ + rest,
        before.len() > 0 && before.last() == '\n' && anchor_offset(before) is None ==> patched(before)
            == before + "\n"@ + aec_config() + "\n"@,
        (before.len() == 0 || before.last() != '\n') && anchor_offset(before) is None ==> patched(
            before,
        ) == before + "\n\n"@ + aec_config() + "\n"@,
{
    reveal_strlit("\n");
    reveal_strlit("\n\n");
    if anchor_offset(before + rest) == Some(before.len()) {
        assert((before + rest).take(before.len() as int) =~= before);
        assert((before + rest).skip(before.len() as int) =~= rest);
    }
    assert(rest.take(0) =~= Seq::empty());
    assert(rest.skip(0) =~= rest);
    if anchor_offset(rest) == Some(0nat) {
        assert(patched(rest) =~= "\n\n"@ + aec_config() + "\n\n"@ + rest);
    }
    if (before.len() == 0 || before.last() != '\n') && anchor_offset(before) is None {
        assert(patched(before) =~= before + "\n\n"@ + aec_config() + "\n"@);
    }
}

/// The setup routes the first and the seventh of eight channels, and records through that route.
pub proof fn law_setup_defines_a_route_and_a_plug()
    ensures
        aec_config()
            == "pcm.lx06_aec_2ch_route {\n    type route\n    slave {\n        pcm \"Capture\"\n        channels 8\n    }\n\n    ttable.0.0 1\n    ttable.1.6 1\n}"@
            + "\n\n"@ + "pcm.lx06_aec_2ch {\n"@
            + "    type plug\n    slave {\n        pcm \"lx06_aec_2ch_route\"\n        format S32_LE\n        rate 48000\n        channels 2\n    }\n}"@,
        insert_anchor() == "defaults.pcm.rate_converter \"speexrate_medium\""@,
        aec_pcm_name() == "pcm.lx06_aec_2ch"@,
{
}

/// A device is an LX06 exactly if it could be asked, answered well, and said so.
pub proof fn law_device_says_what_it_is(output: ProcessOutput, reason: String, stdout: Seq<char>)
    ensures
        model_answer(Ok(output), stdout) == Ok::<bool, Seq<char>>(
            output.success && trim(stdout) == "LX06"@,
        ),
        model_answer(Err(reason), stdout) == Err::<bool, Seq<char>>(
            "failed to execute micocfg_model: "@ + reason@,
        ),
        stdout_of(Ok(output)) == output.stdout@,
        stderr_of(Some(output)) == output.stderr@,
        text_result(Err::<bool, String>(reason)) == Err::<bool, Seq<char>>(reason@),
        text_result(Ok::<bool, String>(true)) == Ok::<bool, Seq<char>>(true),
        text_result(Ok::<bool, String>(false)) == Ok::<bool, Seq<char>>(false),
{
}

/// A mount binds the one path over the other; it counts exactly if it was started and succeeded, and
/// otherwise names both paths and says what went wrong.
pub proof fn law_mount_counts_if_it_succeeded(
    source: Seq<char>,
    target: Seq<char>,
    output: ProcessOutput,
    stderr: Seq<char>,
)
    ensures
        mount_args(source, target) == seq!["--bind"@, source, target],
        mount_answer(source, target, None, stderr) == Err::<(), Seq<char>>(
            "failed to execute mount --bind "@ + source + " "@ + target,
        ),
        output.success ==> mount_answer(source, target, Some(output), stderr) is Ok,
        !output.success ==> mount_answer(source, target, Some(output), stderr) == Err::<
            (),
            Seq<char>,
        >(
            "mount --bind "@ + source + " "@ + target + " failed with exit_code="@ + signed_decimal(
                if output.code is Some {
                    output.code->0 as int
                } else {
                    -1
                },
            ) + ": "@ + trim(stderr),
        ),
{
}

/// The patched file lies in the directory of the program, under its own name, with one slash
/// between them.
pub proof fn law_patched_file_lies_beside_the_program(dir: Seq<char>, file_name: Seq<char>)
    ensures
        patched_path(Seq::empty(), file_name) == file_name,
        patched_path(dir.push('/'), file_name) == dir.push('/') + file_name,
        dir.len() > 0 && dir.last() != '/' ==> patched_path(dir, file_name) == dir.push('/')
            + file_name,
{
    reveal_strlit("/");
    assert(patched_path(Seq::empty(), file_name) =~= file_name);
    if dir.len() > 0 && dir.last() != '/' {
        assert(patched_path(dir, file_name) =~= dir.push('/') + file_name);
    }
}

/// A file that defines the device is left alone. One that does not has a patched file mounted over
/// it: the one that is there, if it defines the device, or one that is written with the setup in it
/// and given the permissions of the system's file. What fails is told, with the file that it was
/// about.
pub proof fn law_file_is_set_up_step_by_step(
    mount: AsoundMount,
    contents: String,
    output: Option<ProcessOutput>,
)
    ensures
        ({
            let (system, patch) = (mount.system_path@, mount.patched_path@);
            let read = AsoundEvent::Contents(Some(contents));
            let unreadable = AsoundEvent::Contents(None);
            let (well, badly) = (AsoundEvent::Worked(true), AsoundEvent::Worked(false));
            &&& mount.phase == AsoundPhase::Reading ==> {
                &&& has_aec(contents@) ==> asound_next(mount, read) == (
                    AsoundPhase::Ready,
                    AsoundStepView::Done,
                )
                &&& !has_aec(contents@) ==> asound_next(mount, read) == (
                    AsoundPhase::Looking,
                    AsoundStepView::Look,
                )
                &&& asound_next(mount, unreadable) == (
                    AsoundPhase::Failed,
                    AsoundStepView::Failed("failed to read ALSA config file: "@ + system),
                )
            }
            &&& mount.phase == AsoundPhase::Looking ==> {
                &&& asound_next(mount, AsoundEvent::Exists(true)) == (
                    AsoundPhase::ReadingCopy,
                    AsoundStepView::ReadCopy,
                )
                &&& asound_next(mount, AsoundEvent::Exists(false)) == (
                    AsoundPhase::ReadingMetadata,
                    AsoundStepView::ReadMetadata,
                )
            }
            &&& mount.phase == AsoundPhase::ReadingCopy ==> {
                &&& has_aec(contents@) ==> asound_next(mount, read) == (
                    AsoundPhase::Mounting,
                    AsoundStepView::Mount,
                )
                &&& !has_aec(contents@) ==> asound_next(mount, read) == (
                    AsoundPhase::Failed,
                    AsoundStepView::Failed(
                        "program-local ALSA config does not contain pcm.lx06_aec_2ch: "@ + patch,
                    ),
                )
                &&& asound_next(mount, unreadable) == (
                    AsoundPhase::Failed,
                    AsoundStepView::Failed("failed to read ALSA config file: "@ + patch),
                )
            }
            &&& mount.phase == AsoundPhase::ReadingMetadata ==> {
                &&& asound_next(mount, well) == (
                    AsoundPhase::Writing,
                    AsoundStepView::Write(patched(mount.seen@)),
                )
                &&& asound_next(mount, badly).1 == AsoundStepView::Failed(
                    "failed to read ALSA config metadata: "@ + system,
                )
            }
            &&& mount.phase == AsoundPhase::Writing ==> {
                &&& asound_next(mount, well) == (
                    AsoundPhase::SettingPermissions,
                    AsoundStepView::SetPermissions,
                )
                &&& asound_next(mount, badly).1 == AsoundStepView::Failed(
                    "failed to write patched ALSA config: "@ + patch,
                )
            }
            &&& mount.phase == AsoundPhase::SettingPermissions ==> {
                &&& asound_next(mount, well) == (AsoundPhase::Mounting, AsoundStepView::Mount)
                &&& asound_next(mount, badly).1 == AsoundStepView::Failed(
                    "failed to apply original permissions to patched ALSA config: "@ + patch,
                )
            }
            &&& mount.phase == AsoundPhase::Mounting ==> {
                let ended = mount_answer(patch, system, output, lossy_utf8(stderr_of(output)));
                &&& ended is Ok ==> asound_next(mount, AsoundEvent::Mounted(output)) == (
                    AsoundPhase::Ready,
                    AsoundStepView::Done,
                )
                &&& ended matches Err(err) ==> asound_next(mount, AsoundEvent::Mounted(output)) == (
                    AsoundPhase::Failed,
                    AsoundStepView::Failed(err),
                )
            }
        }),
        seen_after(mount, AsoundEvent::Contents(Some(contents))) == contents@,
{
}

/// Only an event that answers the step that was asked for is taken, and a step that failed ends
/// the setup.
pub proof fn law_first_failure_ends_the_setup(mount: AsoundMount, event: AsoundEvent)
    requires
        answers(mount.phase, event),
    ensures
        asound_next(mount, event).1 is Failed <==> asound_next(mount, event).0
            == AsoundPhase::Failed,
        mount.phase != AsoundPhase::Ready && mount.phase != AsoundPhase::Failed,
        mount.phase == AsoundPhase::Reading || mount.phase == AsoundPhase::ReadingCopy
            ==> event is Contents,
        mount.phase == AsoundPhase::Mounting ==> event is Mounted,
        mount.phase == AsoundPhase::Looking ==> event is Exists,
{
}

/// The steps of the setup are what they say.
pub proof fn law_contents_of_steps(text: String, other: String, enabled: bool)
    ensures
        AsoundStep::Write(text)@ == AsoundStepView::Write(text@),
        AsoundStep::Failed(text)@ == AsoundStepView::Failed(text@),
        AsoundStep::Read@ == AsoundStepView::Read && AsoundStep::Look@ == AsoundStepView::Look,
        AsoundStep::ReadCopy@ == AsoundStepView::ReadCopy && AsoundStep::ReadMetadata@
            == AsoundStepView::ReadMetadata,
        AsoundStep::SetPermissions@ == AsoundStepView::SetPermissions && AsoundStep::Mount@
            == AsoundStepView::Mount && AsoundStep::Done@ == AsoundStepView::Done,
        PrepareStep::CheckModel@ == PrepareStepView::CheckModel,
        PrepareStep::ResolveProgramDir@ == PrepareStepView::ResolveProgramDir,
        (PrepareStep::SetUp { system_path: text, file_name: other })@ == (PrepareStepView::SetUp {
            system_path: text@,
            file_name: other@,
        }),
        PrepareStep::Done(enabled)@ == PrepareStepView::Done(enabled),
        PrepareStep::Failed(text)@ == PrepareStepView::Failed(text@),
{
}

/// On an LX06 the directory of the program is found and then one file is set up after the other; the
/// first failure ends it and is told.
pub proof fn law_device_is_prepared_step_by_step(
    output: Result<ProcessOutput, String>,
    text: String,
    mount: AsoundMount,
)
    ensures
        (output matches Ok(ended) && ended.success && trim(lossy_utf8(ended.stdout@)) == "LX06"@)
            ==> prepare_next(PreparePhase::Model, PrepareEvent::Model(output)) == (
            PreparePhase::ProgramDir,
            PrepareStepView::ResolveProgramDir,
        ),
        prepare_next(PreparePhase::ProgramDir, PrepareEvent::ProgramDir(Ok(()))) == (
            PreparePhase::File(0),
            PrepareStepView::SetUp {
                system_path: "/etc/asound.conf"@,
                file_name: "asound.conf"@,
            },
        ),
        prepare_next(
            PreparePhase::ProgramDir,
            PrepareEvent::ProgramDir(Err(ProgramDirError::Unknown)),
        ) == (
            PreparePhase::Finished,
            PrepareStepView::Failed("failed to resolve current executable path"@),
        ),
        prepare_next(
            PreparePhase::ProgramDir,
            PrepareEvent::ProgramDir(Err(ProgramDirError::NoParent(text))),
        ) == (
            PreparePhase::Finished,
            PrepareStepView::Failed("current executable path has no parent directory: "@ + text@),
        ),
        prepare_next(PreparePhase::File(0), PrepareEvent::File(Ok(mount))) == (
            PreparePhase::File(1),
            PrepareStepView::SetUp {
                system_path: "/etc/asound.conf.dts"@,
                file_name: "asound.conf.dts"@,
            },
        ),
        prepare_next(PreparePhase::File(1), PrepareEvent::File(Ok(mount))) == (
            PreparePhase::Finished,
            PrepareStepView::Done(true),
        ),
        forall|at: usize| #[trigger]
            prepare_next(PreparePhase::File(at), PrepareEvent::File(Err(text))) == (
                PreparePhase::Finished,
                PrepareStepView::Failed(text@),
            ),
{
}

/// Configurations are searched and patched as the laws about them say.
pub proof fn law_configurations_are_searched_and_patched(
    contents: &str,
    holds: bool,
    at: Option<usize>,
    r: String,
    success: bool,
)
    ensures
        call_ensures(contains_lx06_aec_pcm, (contents,), holds) ==> holds == has_aec(contents@),
        call_ensures(find_anchor_line_offset, (contents,), at) ==> match at {
            Some(offset) => anchor_offset(contents@) == Some(offset as nat),
            None => anchor_offset(contents@) is None,
        },
        call_ensures(insert_lx06_aec_config, (contents,), r) ==> r@ == patched(contents@),
        call_ensures(is_lx06_answer, (success, contents), holds) ==> (holds <==> success && trim(
            contents@,
        ) == "LX06"@),
{
}

/// The setup of a file, and of the device, takes the steps of the laws about them.
pub proof fn law_setup_takes_its_steps(
    mount: &mut AsoundMount,
    event: AsoundEvent,
    step: AsoundStep,
    paths: (&str, &str, &str),
    begun: (AsoundMount, AsoundStep),
    phase: PreparePhase,
    told: PrepareEvent,
    next: (PreparePhase, PrepareStep),
)
    ensures
        call_ensures(AsoundMount::next, (mount, event), step) ==> (final(mount).phase, step@)
            == asound_next(*old(mount), event) && final(mount).seen@ == seen_after(*old(mount), event)
            && final(mount).system_path == old(mount).system_path && final(mount).patched_path == old(mount).patched_path,
        call_ensures(
            AsoundMount::ensure_asound_config_mounted,
            (paths.0, paths.1, paths.2),
            begun,
        ) ==> begun.0.system_path@ == paths.0@ && begun.0.patched_path@ == patched_path(
            paths.2@,
            paths.1@,
        ) && begun.0.phase == AsoundPhase::Reading && begun.1 == AsoundStep::Read,
        call_ensures(prepare_lx06_audio_capability, (), next) ==> next.0 == PreparePhase::Model && next.1
            == PrepareStep::CheckModel,
        call_ensures(continue_preparation, (phase, told), next) ==> (next.0, next.1@) == prepare_next(
            phase,
            told,
        ),
{
}

/// Processes are judged as the laws about them say.
pub proof fn law_processes_are_judged(
    source: &str,
    target: &str,
    output: Option<ProcessOutput>,
    stderr: &str,
    args: Vec<String>,
    r: Result<(), String>,
    asked: Result<ProcessOutput, String>,
    model: Result<bool, String>,
)
    ensures
        call_ensures(build_mount_args, (source, target), args) ==> texts(args@) == seq![
            "--bind"@,
            source@,
            target@,
        ],
        call_ensures(mount_result, (source, target, &output, stderr), r) ==> text_result(r)
            == mount_answer(source@, target@, output, stderr@),
        call_ensures(bind_mount, (source, target, output), r) ==> text_result(r) == mount_answer(
            source@,
            target@,
            output,
            lossy_utf8(stderr_of(output)),
        ),
        call_ensures(is_lx06_model, (asked,), model) ==> match asked {
            Ok(ended) => model == Ok::<bool, String>(
                ended.success && trim(lossy_utf8(ended.stdout@)) == "LX06"@,
            ),
            Err(reason) => model matches Err(err) && err@ == "failed to execute micocfg_model: "@
                + reason@,
        },
{
}

/// What is known of a file is what was read of it last, or what is about to be written in its place;
/// nothing else changes it.
pub proof fn law_known_contents_are_those_read_or_written(mount: AsoundMount, event: AsoundEvent)
    ensures
        event matches AsoundEvent::Contents(Some(contents)) ==> seen_after(mount, event) == contents@,
        mount.phase == AsoundPhase::ReadingMetadata && event == AsoundEvent::Worked(true) ==> seen_after(
            mount,
            event,
        ) == patched(mount.seen@),
        !(event matches AsoundEvent::Contents(Some(_))) && (mount.phase != AsoundPhase::ReadingMetadata
            || event != AsoundEvent::Worked(true)) ==> seen_after(mount, event) == mount.seen@,
{
}

} // verus!
