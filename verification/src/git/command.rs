//! Git commands: their arguments, their output, and the failures that they are reported as.
use vstd::prelude::*;

use crate::models::{AppError, AppResult, Failure, outcome};
use crate::text::{contains, decimal, holds, is_white_space, join, joined, lower, lowered};
use crate::text::{holding_extends, holding_is_having_a_part, joining_appends, signed_decimal};
use crate::text::{numerals_stand_for_their_numbers, signed_decimal_text, trim, trimmed};
use crate::text::{trimming_removes_white_space_alone, words};

verus! {

// ---------------------------------------------------------------------------------------------
// Output
// ---------------------------------------------------------------------------------------------
/// What a finished command left behind.
#[derive(Debug)]
pub struct CommandOutput {
    pub status: i32,
    pub stdout: String,
    pub stderr: String,
}

/// The model of a [`CommandOutput`].
#[verifier::ext_equal]
pub struct OutputView {
    pub status: i32,
    pub stdout: Seq<char>,
    pub stderr: Seq<char>,
}

impl View for CommandOutput {
    type V = OutputView;

    open spec fn view(&self) -> OutputView {
        OutputView { status: self.status, stdout: self.stdout@, stderr: self.stderr@ }
    }
}

impl OutputView {
    /// The command succeeded.
    pub open spec fn success(self) -> bool {
        self.status == 0
    }

    /// The error output followed by the standard output; what is empty is left out.
    pub open spec fn combined(self) -> Seq<char> {
        if self.stderr.len() == 0 {
            self.stdout
        } else if self.stdout.len() == 0 {
            self.stderr
        } else {
            self.stderr + "\n"@ + self.stdout
        }
    }
}

impl CommandOutput {
    /// Whether the command succeeded.
    pub fn success(&self) -> (r: bool)
        ensures
            r == self@.success(),
    {
        self.status == 0
    }

    /// The error output followed by the standard output; what is empty is left out.
    pub fn combined(&self) -> (r: String)
        ensures
            r@ == self@.combined(),
    {
        if self.stderr.as_str().is_empty() {
            self.stdout.clone()
        } else if self.stdout.as_str().is_empty() {
            self.stderr.clone()
        } else {
            self.stderr.clone().concat("\n").concat(self.stdout.as_str())
        }
    }
}

/// The text that `String::from_utf8_lossy` makes of bytes.
pub uninterp spec fn lossy(bytes: Seq<u8>) -> Seq<char>;

/// Calls `String::from_utf8_lossy`. The text depends on the bytes alone, and where they are
/// well-formed UTF-8 it is the text that they encode. What stands for ill-formed bytes is left
/// unsaid.
#[verifier::external_body]
fn utf8_lossy(bytes: &Vec<u8>) -> (r: String)
    ensures
        r@ == lossy(bytes@),
        vstd::utf8::valid_utf8(bytes@) ==> r@ == vstd::utf8::decode_utf8(bytes@),
{
    String::from_utf8_lossy(bytes).into_owned()
}

/// The status that stands for a command that ended without an exit code.
pub open spec fn exit_status(code: Option<i32>) -> i32 {
    match code {
        Some(status) => status,
        None => -1i32,
    }
}

/// The output of a command that ended with `code` and wrote the given bytes. A command that was
/// ended by a signal has no code.
pub fn command_output(code: Option<i32>, stdout: &Vec<u8>, stderr: &Vec<u8>) -> (r: CommandOutput)
    ensures
        r@ == (OutputView {
            status: exit_status(code),
            stdout: lossy(stdout@),
            stderr: lossy(stderr@),
        }),
        vstd::utf8::valid_utf8(stdout@) ==> r@.stdout == vstd::utf8::decode_utf8(stdout@),
        vstd::utf8::valid_utf8(stderr@) ==> r@.stderr == vstd::utf8::decode_utf8(stderr@),
{
    let status: i32 = match code {
        Some(status) => status,
        None => -1i32,
    };
    CommandOutput { status, stdout: utf8_lossy(stdout), stderr: utf8_lossy(stderr) }
}

// ---------------------------------------------------------------------------------------------
// Failures
// ---------------------------------------------------------------------------------------------
/// How a failed command is reported: in the words that it wrote, or else by its status.
pub open spec fn failure_of(command: Seq<char>, output: OutputView) -> Failure {
    let detail = trimmed(output.combined());
    if detail.len() == 0 {
        Failure::Message(
            command + " failed with status "@ + signed_decimal(output.status as int) + "."@,
        )
    } else {
        Failure::Message(detail)
    }
}

/// The error for a command that failed.
pub fn command_failure(command: &str, output: &CommandOutput) -> (r: AppError)
    ensures
        r@ == failure_of(command@, output@),
{
    let combined = output.combined();
    let detail = trim(combined.as_str());
    if detail.is_empty() {
        let text = command.to_owned().concat(" failed with status ").concat(
            signed_decimal_text(output.status).as_str(),
        ).concat(".");
        AppError::message(text.as_str())
    } else {
        AppError::message(detail)
    }
}

/// The error for a Git program that could not be started.
pub fn launch_failure(executable: &str, error: &str) -> (r: AppError)
    ensures
        r@ == Failure::Message("Could not launch Git at "@ + executable@ + ": "@ + error@),
{
    AppError::message(
        "Could not launch Git at ".to_owned().concat(executable).concat(": ").concat(
            error,
        ).as_str(),
    )
}

/// A Git command as a user would type it.
pub open spec fn command_line(arguments: Seq<Seq<char>>) -> Seq<char> {
    "git "@ + joined(arguments, " "@)
}

/// A reply to a command that has to succeed: a command that ended with another status than zero
/// counts as failed.
pub open spec fn checked(
    arguments: Seq<Seq<char>>,
    reply: Result<OutputView, Failure>,
) -> Result<OutputView, Failure> {
    match reply {
        Ok(output) => if output.success() {
            Ok(output)
        } else {
            Err(failure_of(command_line(arguments), output))
        },
        Err(failure) => Err(failure),
    }
}

/// Turns the reply to a command that has to succeed into an error where it did not.
pub fn run_git_checked(arguments: &Vec<String>, reply: AppResult<CommandOutput>) -> (r: AppResult<
    CommandOutput,
>)
    ensures
        outcome(r) == checked(arguments.deep_view(), outcome(reply)),
{
    let output = match reply {
        Ok(output) => output,
        Err(error) => {
            return Err(error);
        },
    };
    if output.success() {
        Ok(output)
    } else {
        let description = "git ".to_owned().concat(join(arguments, " ").as_str());
        Err(command_failure(description.as_str(), &output))
    }
}

// ---------------------------------------------------------------------------------------------
// Large files
// ---------------------------------------------------------------------------------------------
/// What Git and the providers write, in small letters, when a push needs Git LFS.
pub open spec fn lfs_markers() -> Seq<Seq<char>> {
    seq![
        "git lfs"@,
        "git-lfs"@,
        "large files detected"@,
        "file size limit"@,
        "exceeds github's file size limit"@,
        "exceeds gitlab's maximum allowed size"@,
        "file is larger than the allowed size"@,
        "lfs is not enabled"@,
        "lfs objects are missing"@,
        "batch response:"@,
        "gh001:"@,
    ]
}

/// The output mentions, in letters of either case, that the push needs Git LFS.
pub open spec fn lfs_related(output: Seq<char>) -> bool {
    exists|i: int| 0 <= i < lfs_markers().len() && holds(lowered(output), #[trigger] lfs_markers()[i])
}

/// Whether the output of a push says that Git LFS is needed.
pub fn is_lfs_related(output: &str) -> (r: bool)
    ensures
        r == lfs_related(output@),
{
    let markers = words(
        &[
            "git lfs",
            "git-lfs",
            "large files detected",
            "file size limit",
            "exceeds github's file size limit",
            "exceeds gitlab's maximum allowed size",
            "file is larger than the allowed size",
            "lfs is not enabled",
            "lfs objects are missing",
            "batch response:",
            "gh001:",
        ],
    );
    assert(markers.deep_view() =~= lfs_markers());
    let low = lower(output);
    let mut i: usize = 0;
    while i < markers.len()
        invariant
            i <= markers.len(),
            markers.deep_view() == lfs_markers(),
            low@ == lowered(output@),
            forall|k: int| 0 <= k < i ==> !holds(lowered(output@), #[trigger] lfs_markers()[k]),
        decreases markers.len() - i,
    {
        assert(markers@[i as int]@ == lfs_markers()[i as int]);
        if contains(low.as_str(), markers[i].as_str()) {
            return true;
        }
        i = i + 1;
    }
    false
}

/// The case of letters does not matter to whether an output asks for Git LFS.
pub proof fn lfs_recognition_ignores_case(a: Seq<char>, b: Seq<char>)
    requires
        lowered(a) == lowered(b),
    ensures
        lfs_related(a) == lfs_related(b),
{
}

/// An output that asks for Git LFS asks for it whatever stands around it.
pub proof fn lfs_recognition_extends(before: Seq<char>, output: Seq<char>, after: Seq<char>)
    requires
        lfs_related(output),
    ensures
        lfs_related(before + output + after),
{
    let i = choose|i: int|
        0 <= i < lfs_markers().len() && holds(lowered(output), #[trigger] lfs_markers()[i]);
    holding_extends(lowered(before), lowered(output), lowered(after), lfs_markers()[i]);
    assert(lowered(before + output + after) =~= lowered(before) + lowered(output) + lowered(
        after,
    ));
}

// ---------------------------------------------------------------------------------------------
// Arguments
// ---------------------------------------------------------------------------------------------
/// The command that pushes the current commit to a branch of the remote.
pub open spec fn push_command(branch: Seq<char>) -> Seq<Seq<char>> {
    seq!["push"@, "origin"@, "HEAD:refs/heads/"@ + branch]
}

/// The arguments that push the current commit to a branch of the remote.
pub fn push_arguments(branch: &str) -> (r: Vec<String>)
    ensures
        r.deep_view() == push_command(branch@),
{
    let reference = "HEAD:refs/heads/".to_owned().concat(branch);
    let r = words(&["push", "origin", reference.as_str()]);
    assert(r.deep_view() =~= push_command(branch@));
    r
}

// ---------------------------------------------------------------------------------------------
// What the reports are for
// ---------------------------------------------------------------------------------------------
/// A failed command is reported in the words that it wrote, first those of its error output, without
/// the white space around them; where it wrote none, by its status, which is written as a numeral.
pub proof fn failures_are_reported_in_the_words_of_the_command(
    command: Seq<char>,
    output: OutputView,
    before: Seq<char>,
    written: Seq<char>,
    after: Seq<char>,
)
    requires
        forall|i: int| 0 <= i < before.len() ==> is_white_space(#[trigger] before[i]),
        forall|i: int| 0 <= i < after.len() ==> is_white_space(#[trigger] after[i]),
        written.len() > 0 ==> !is_white_space(written[0]) && !is_white_space(written.last()),
        before + written + after == if output.stderr.len() == 0 {
            output.stdout
        } else if output.stdout.len() == 0 {
            output.stderr
        } else {
            output.stderr + seq!['\n'] + output.stdout
        },
    ensures
        written.len() > 0 ==> failure_of(command, output) == Failure::Message(written),
        written.len() == 0 && output.status >= 0 ==> failure_of(command, output)
            == Failure::Message(
            command + " failed with status "@ + decimal(output.status as nat) + "."@,
        ),
        written.len() == 0 && output.status < 0 ==> failure_of(command, output) == Failure::Message(
            command + " failed with status "@ + (seq!['-'] + decimal((-output.status) as nat))
                + "."@,
        ),
{
    reveal_strlit("\n");
    assert("\n"@ =~= seq!['\n']);
    assert(output.combined() == before + written + after);
    trimming_removes_white_space_alone(before, written, after);
    if output.status < 0 {
        numerals_stand_for_their_numbers((-output.status) as nat);
    }
}

/// A command that has to succeed does so exactly where its status is zero. Otherwise the failure is
/// reported under the command as a user would type it: the word `git` and the arguments, with a space
/// before each.
pub proof fn commands_succeed_with_status_zero(
    arguments: Seq<Seq<char>>,
    last: Seq<char>,
    output: OutputView,
    failure: Failure,
)
    ensures
        output.status == 0 ==> checked(arguments, Ok(output)) == Ok::<OutputView, Failure>(output),
        output.status != 0 ==> checked(arguments, Ok(output)) == Err::<OutputView, Failure>(
            failure_of(command_line(arguments), output),
        ),
        checked(arguments, Err(failure)) == Err::<OutputView, Failure>(failure),
        command_line(seq![last]) == seq!['g', 'i', 't', ' '] + last,
        arguments.len() > 0 ==> command_line(arguments.push(last)) == command_line(arguments)
            + seq![' '] + last,
{
    reveal_strlit("git ");
    reveal_strlit(" ");
    assert(" "@ =~= seq![' ']);
    assert("git "@ =~= seq!['g', 'i', 't', ' ']);
    joining_appends(arguments, last, " "@);
    if arguments.len() > 0 {
        assert(command_line(arguments.push(last)) =~= command_line(arguments) + seq![' '] + last);
    }
}

/// The code with which a command ended is its status. One that was ended without a code has a status
/// that no code of success is.
pub proof fn statuses_are_exit_codes(code: i32)
    ensures
        exit_status(Some(code)) == code,
        exit_status(None) == -1,
{
}

/// An output asks for Git LFS exactly where it holds, in letters of either case, one of the texts that
/// Git and the providers write then, with whatever before it and after it.
pub proof fn lfs_is_asked_for_in_known_words(output: Seq<char>)
    ensures
        lfs_related(output) <==> exists|before: Seq<char>, marker: Seq<char>, after: Seq<char>|
            lowered(output) == #[trigger] (before + marker + after) && seq![
                "git lfs"@,
                "git-lfs"@,
                "large files detected"@,
                "file size limit"@,
                "exceeds github's file size limit"@,
                "exceeds gitlab's maximum allowed size"@,
                "file is larger than the allowed size"@,
                "lfs is not enabled"@,
                "lfs objects are missing"@,
                "batch response:"@,
                "gh001:"@,
            ].contains(marker),
{
    let low = lowered(output);
    let known = seq![
        "git lfs"@,
        "git-lfs"@,
        "large files detected"@,
        "file size limit"@,
        "exceeds github's file size limit"@,
        "exceeds gitlab's maximum allowed size"@,
        "file is larger than the allowed size"@,
        "lfs is not enabled"@,
        "lfs objects are missing"@,
        "batch response:"@,
        "gh001:"@,
    ];
    assert(known =~= lfs_markers());
    if lfs_related(output) {
        let i = choose|i: int| 0 <= i < lfs_markers().len() && holds(low, #[trigger] lfs_markers()[i]);
        holding_is_having_a_part(low, known[i]);
        let (before, after) = choose|before: Seq<char>, after: Seq<char>|
            low == #[trigger] (before + known[i] + after);
        assert(known.contains(known[i]));
        assert(low == before + known[i] + after);
    }
    if exists|before: Seq<char>, marker: Seq<char>, after: Seq<char>|
        low == #[trigger] (before + marker + after) && known.contains(marker) {
        let (before, marker, after) = choose|
            before: Seq<char>,
            marker: Seq<char>,
            after: Seq<char>,
        |
            low == #[trigger] (before + marker + after) && known.contains(marker);
        let i = choose|i: int| 0 <= i < known.len() && known[i] == marker;
        holding_is_having_a_part(low, marker);
        assert(holds(low, lfs_markers()[i]));
    }
}

/// What a command wrote is its error output and its standard output, with the end of a line between
/// them where there are both.
pub proof fn outputs_are_put_together(output: OutputView)
    ensures
        output.success() <==> output.status == 0,
        output.stderr.len() == 0 ==> output.combined() == output.stdout,
        output.stdout.len() == 0 ==> output.combined() == output.stderr,
        output.stderr.len() > 0 && output.stdout.len() > 0 ==> output.combined() == output.stderr
            + seq!['\n'] + output.stdout,
{
    reveal_strlit("\n");
    assert("\n"@ =~= seq!['\n']);
    if output.stderr.len() == 0 && output.stdout.len() == 0 {
        assert(output.stderr =~= output.stdout);
    }
}

} // verus!
