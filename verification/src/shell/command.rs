//! The result of a shell command.

use crate::protocol::data::int_json;
use crate::protocol::json::{member_views, Json, JsonView};
use crate::protocol::settled::{comes_before, put, settled, settled_members};
use crate::text::{
    debug_format, debug_formatted, decimal, decimal_of, lossy_text, lossy_utf8, signed_decimal,
    signed_decimal_of, texts,
};
use vstd::prelude::*;
use vstd::utf8::encode_utf8;

verus! {

/// What a shell command printed and how it ended.
#[derive(Debug, PartialEq, Eq)]
pub struct CommandResult {
    pub stdout: String,
    pub stderr: String,
    /// The exit code; -1 if the command did not end by itself.
    pub exit_code: i32,
}

/// The contents of a [`CommandResult`].
pub struct CommandResultView {
    pub stdout: Seq<char>,
    pub stderr: Seq<char>,
    pub exit_code: i32,
}

impl View for CommandResult {
    type V = CommandResultView;

    open spec fn view(&self) -> CommandResultView {
        CommandResultView {
            stdout: self.stdout@,
            stderr: self.stderr@,
            exit_code: self.exit_code,
        }
    }
}

/// The result of a command whose output is already text.
pub open spec fn result_of(stdout: Seq<char>, stderr: Seq<char>, code: Option<i32>) -> CommandResultView {
    CommandResultView {
        stdout,
        stderr,
        exit_code: match code {
            Some(code) => code,
            None => -1i32,
        },
    }
}

/// How a result is written, with its members in the order of their names.
pub open spec fn result_json(result: CommandResultView) -> JsonView {
    JsonView::Object(
        seq![
            ("exit_code"@, int_json(result.exit_code as int)),
            ("stderr"@, JsonView::Str(result.stderr)),
            ("stdout"@, JsonView::Str(result.stdout)),
        ],
    )
}

/// The arguments with which `/bin/sh` runs a script.
pub fn shell_args(script: &str) -> (r: Vec<String>)
    ensures
        texts(r@) == seq!["-c"@, script@],
{
    let mut args: Vec<String> = Vec::new();
    args.push("-c".to_string());
    args.push(script.to_string());
    assert(texts(args@) =~= seq!["-c"@, script@]);
    args
}

/// The result of a command that wrote these bytes and ended with this code.
pub fn command_result(stdout: &Vec<u8>, stderr: &Vec<u8>, code: Option<i32>) -> (r: CommandResult)
    ensures
        r@ == result_of(lossy_utf8(stdout@), lossy_utf8(stderr@), code),
{
    command_result_of(lossy_text(stdout), lossy_text(stderr), code)
}

/// The result of a command whose output is already text.
pub fn command_result_of(stdout: String, stderr: String, code: Option<i32>) -> (r: CommandResult)
    ensures
        r@ == result_of(stdout@, stderr@, code),
{
    CommandResult { stdout, stderr, exit_code: code.unwrap_or(-1) }
}

impl CommandResult {
    /// The result as JSON.
    pub fn to_value(&self) -> (r: Json)
        ensures
            r@ == result_json(self@),
    {
        let exit_code = if self.exit_code >= 0 {
            Json::Uint(self.exit_code as u64)
        } else {
            Json::Int(self.exit_code as i64)
        };
        let mut members: Vec<(String, Json)> = Vec::new();
        members.push(("exit_code".to_string(), exit_code));
        members.push(("stderr".to_string(), Json::Str(self.stderr.clone())));
        members.push(("stdout".to_string(), Json::Str(self.stdout.clone())));
        assert(member_views(members@) =~= result_json(self@)->Object_0);
        Json::Object(members)
    }
}

/// The output of a command as it is logged: quoted, with everything that does
/// not print escaped.
pub fn format_shell_output_for_log(output: &str) -> (r: String)
    ensures
        r@ == debug_format(output@),
{
    debug_formatted(output)
}

/// The line that is logged when a command has ended.
pub open spec fn completion_text(
    result: CommandResultView,
    stdout_shown: Seq<char>,
    stderr_shown: Seq<char>,
) -> Seq<char> {
    "Shell command completed: exit_code="@ + signed_decimal(result.exit_code as int)
        + ", stdout_bytes="@ + decimal(encode_utf8(result.stdout).len()) + ", stderr_bytes="@
        + decimal(encode_utf8(result.stderr).len()) + ", stdout="@ + stdout_shown + ", stderr="@
        + stderr_shown
}

/// See [`completion_text`].
pub fn completion_message(result: &CommandResult) -> (r: String)
    ensures
        r@ == completion_text(
            result@,
            debug_format(result.stdout@),
            debug_format(result.stderr@),
        ),
{
    completion_message_showing(
        result,
        format_shell_output_for_log(result.stdout.as_str()).as_str(),
        format_shell_output_for_log(result.stderr.as_str()).as_str(),
    )
}

/// The line that is logged when a command has ended, given how its output is
/// printed; see [`completion_text`].
pub fn completion_message_showing(
    result: &CommandResult,
    stdout_shown: &str,
    stderr_shown: &str,
) -> (r: String)
    ensures
        r@ == completion_text(result@, stdout_shown@, stderr_shown@),
{
    let mut line = "Shell command completed: exit_code=".to_string();
    line.append(signed_decimal_of(result.exit_code as i64).as_str());
    line.append(", stdout_bytes=");
    line.append(decimal_of(result.stdout.as_str().as_bytes().len() as u64).as_str());
    line.append(", stderr_bytes=");
    line.append(decimal_of(result.stderr.as_str().as_bytes().len() as u64).as_str());
    line.append(", stdout=");
    line.append(stdout_shown);
    line.append(", stderr=");
    line.append(stderr_shown);
    line
}

/// A result is written as it is kept.
pub proof fn law_result_is_written_as_it_is_kept(result: CommandResultView)
    ensures
        settled(result_json(result)) == result_json(result),
{
    reveal_strlit("exit_code");
    reveal_strlit("stderr");
    reveal_strlit("stdout");
    let members = result_json(result)->Object_0;
    let (first, second, third) = (members[0], members[1], members[2]);
    assert(members.drop_last().drop_last().drop_last() =~= Seq::empty());
    assert(settled_members(members.drop_last().drop_last().drop_last()) =~= Seq::empty());
    assert(settled(first.1) == first.1 && settled(second.1) == second.1 && settled(third.1)
        == third.1);
    assert(members.drop_last().drop_last().last() == first);
    assert(members.drop_last().last() == second);
    assert(put(Seq::empty(), first.0, first.1) =~= seq![first]);
    assert(settled_members(members.drop_last().drop_last()) =~= seq![first]);
    assert(comes_before("exit_code"@, "stderr"@));
    assert("exit_code"@[0] == 'e' && "stderr"@[0] == 's');
    assert(settled_members(members.drop_last()) =~= seq![first, second]);
    assert(comes_before("stderr"@, "stdout"@)) by {
        let (a, b) = ("stderr"@, "stdout"@);
        assert(a[0] == b[0]);
        assert(a.drop_first()[0] == b.drop_first()[0]);
        assert(a.drop_first().drop_first()[0] == 'd' && b.drop_first().drop_first()[0] == 'd');
        assert(a.drop_first().drop_first().drop_first()[0] == 'e');
        assert(b.drop_first().drop_first().drop_first()[0] == 'o');
        reveal_with_fuel(comes_before, 5);
    }
    assert("stderr"@[3] == 'e' && "stdout"@[3] == 'o');
    assert(settled_members(members) =~= members);
}

/// A result has what the command wrote and its exit code, or minus one where it has none; it is
/// written with these three members.
pub proof fn law_result_is_what_the_command_gave(
    stdout: Seq<char>,
    stderr: Seq<char>,
    code: i32,
    result: CommandResult,
)
    ensures
        result_of(stdout, stderr, Some(code)) == (CommandResultView {
            stdout,
            stderr,
            exit_code: code,
        }),
        result_of(stdout, stderr, None) == (CommandResultView { stdout, stderr, exit_code: -1i32 }),
        result@.stdout == result.stdout@ && result@.stderr == result.stderr@ && result@.exit_code
            == result.exit_code,
        result_json(CommandResultView { stdout, stderr, exit_code: code }) is Object,
        ({
            let members = result_json(
                CommandResultView { stdout, stderr, exit_code: code },
            )->Object_0;
            &&& members.len() == 3
            &&& members[0] == (
                "exit_code"@,
                if code >= 0 {
                    JsonView::Uint(code as u64)
                } else {
                    JsonView::Int(code as i64)
                },
            )
            &&& members[1] == ("stderr"@, JsonView::Str(stderr))
            &&& members[2] == ("stdout"@, JsonView::Str(stdout))
        }),
{
}

/// The line about a command that ended tells its exit code, how many bytes it wrote, and what.
pub proof fn law_completion_is_told(
    result: CommandResultView,
    stdout_shown: Seq<char>,
    stderr_shown: Seq<char>,
)
    ensures
        completion_text(result, stdout_shown, stderr_shown)
            == "Shell command completed: exit_code="@ + signed_decimal(result.exit_code as int)
            + ", stdout_bytes="@ + decimal(encode_utf8(result.stdout).len()) + ", stderr_bytes="@
            + decimal(encode_utf8(result.stderr).len()) + ", stdout="@ + stdout_shown
            + ", stderr="@ + stderr_shown,
{
}

/// A command is run by the shell as it is, and its result is what it wrote and how it ended.
pub proof fn law_commands_are_run_as_they_are(
    script: &str,
    args: Vec<String>,
    stdout: String,
    stderr: String,
    code: Option<i32>,
    result: CommandResult,
    bytes: (Vec<u8>, Vec<u8>),
    json: Json,
    shown: (&str, &str),
    text: String,
)
    ensures
        call_ensures(shell_args, (script,), args) ==> texts(args@) == seq!["-c"@, script@],
        call_ensures(command_result_of, (stdout, stderr, code), result) ==> result.stdout@ == stdout@
            && result.stderr@ == stderr@ && result.exit_code == if code is Some {
            code->0
        } else {
            -1i32
        },
        call_ensures(command_result, (&bytes.0, &bytes.1, code), result) ==> result.stdout@
            == lossy_utf8(bytes.0@) && result.stderr@ == lossy_utf8(bytes.1@) && result.exit_code
            == if code is Some {
            code->0
        } else {
            -1i32
        },
        call_ensures(CommandResult::to_value, (&result,), json) ==> json@ == result_json(result@),
        call_ensures(completion_message_showing, (&result, shown.0, shown.1), text) ==> text@
            == completion_text(result@, shown.0@, shown.1@),
        call_ensures(completion_message, (&result,), text) ==> text@ == completion_text(
            result@,
            debug_format(result.stdout@),
            debug_format(result.stderr@),
        ),
        call_ensures(format_shell_output_for_log, (script,), text) ==> text@ == debug_format(script@),
{
}

} // verus!
