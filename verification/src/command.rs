//! Running `git` and `gh`: what is kept of their output, and what it comes to.

use vstd::prelude::*;
use vstd::utf8::{decode_utf8, valid_utf8};
use crate::error::{ErrorView, RequestError, result_view};
use crate::text::{
    blank, concat, concat3, decimal, law_blank_texts_trim_to_nothing, to_decimal, trim, trimmed,
};

verus! {

/// How many bytes are kept of what a command writes to one of its outputs.
pub const MAX_COMMAND_OUTPUT_BYTES: usize = 1024 * 1024;

/// The programs that the plugin runs.
#[derive(Clone, Copy, Debug, PartialEq, Eq, Structural)]
pub enum Program {
    Git,
    Gh,
}

/// Where the programs are found.
#[derive(Debug, PartialEq)]
pub struct CommandRunner {
    pub git: String,
    pub gh: String,
}

impl Default for CommandRunner {
    /// Both programs are searched for by their names.
    fn default() -> (runner: CommandRunner)
        ensures
            runner.git@ == "git"@,
            runner.gh@ == "gh"@,
    {
        CommandRunner { git: "git".to_owned(), gh: "gh".to_owned() }
    }
}

impl CommandRunner {
    /// The programs at the given paths.
    pub fn new(git: String, gh: String) -> (runner: CommandRunner)
        ensures
            runner.git == git,
            runner.gh == gh,
    {
        CommandRunner { git, gh }
    }

    /// Where a program is found.
    pub fn path(&self, program: Program) -> (path: &str)
        ensures
            path@ == (match program {
                Program::Git => self.git@,
                Program::Gh => self.gh@,
            }),
    {
        match program {
            Program::Git => self.git.as_str(),
            Program::Gh => self.gh.as_str(),
        }
    }
}

/// What is kept of an output.
#[derive(Debug, PartialEq)]
pub struct CapturedOutput {
    pub bytes: Vec<u8>,
    /// Whether something was left out.
    pub truncated: bool,
}

/// What is kept of an output to which `stream` was written: its first bytes.
pub open spec fn kept(stream: Seq<u8>) -> Seq<u8> {
    if stream.len() <= MAX_COMMAND_OUTPUT_BYTES {
        stream
    } else {
        stream.take(MAX_COMMAND_OUTPUT_BYTES as int)
    }
}

/// All that some reads returned, one after another.
pub open spec fn stream_of(chunks: Seq<Seq<u8>>) -> Seq<u8>
    decreases chunks.len(),
{
    if chunks.len() == 0 {
        Seq::empty()
    } else {
        stream_of(chunks.drop_last()) + chunks.last()
    }
}

impl CapturedOutput {
    /// Whether no more is kept than may be.
    pub open spec fn well_formed(self) -> bool {
        self.bytes@.len() <= MAX_COMMAND_OUTPUT_BYTES
    }

    /// Whether this is what is kept of an output to which `stream` was written.
    pub open spec fn captures(self, stream: Seq<u8>) -> bool {
        self.bytes@ == kept(stream) && self.truncated == (stream.len() > MAX_COMMAND_OUTPUT_BYTES)
    }

    /// The output before anything is read.
    pub fn new() -> (captured: CapturedOutput)
        ensures
            captured.bytes@ == Seq::<u8>::empty(),
            !captured.truncated,
            captured.well_formed(),
            captured.captures(Seq::empty()),
    {
        CapturedOutput { bytes: Vec::new(), truncated: false }
    }
}

/// Takes in what one read of an output returned.
pub fn capture_output(captured: &mut CapturedOutput, chunk: &[u8])
    requires
        old(captured).well_formed(),
    ensures
        final(captured).bytes@ == kept(old(captured).bytes@ + chunk@),
        final(captured).truncated == (old(captured).truncated || old(captured).bytes@.len() + chunk@.len()
            > MAX_COMMAND_OUTPUT_BYTES),
        final(captured).well_formed(),
        forall|stream: Seq<u8>| #[trigger]
            old(captured).captures(stream) ==> final(captured).captures(stream + chunk@),
{
    let ghost before = *captured;
    let remaining: usize = MAX_COMMAND_OUTPUT_BYTES.saturating_sub(captured.bytes.len());
    let count: usize = if remaining < chunk.len() {
        remaining
    } else {
        chunk.len()
    };
    captured.bytes.extend_from_slice(&chunk[0..count]);
    captured.truncated = captured.truncated || count < chunk.len();
    proof {
        assert(captured.bytes@ =~= before.bytes@ + chunk@.subrange(0, count as int));
        assert(captured.bytes@ =~= kept(before.bytes@ + chunk@));
        assert forall|stream: Seq<u8>| #[trigger] before.captures(stream) implies captured.captures(
            stream + chunk@,
        ) by {
            if before.truncated {
                assert(kept(stream + chunk@) =~= kept(stream));
                assert(count == 0);
            } else {
                assert(kept(stream) == stream);
            }
        }
    }
}

/// Whatever the sizes of the reads, what is kept at the end is the start of the whole output, and
/// it counts as truncated exactly if the output is longer.
pub proof fn law_capture_of_whole_output(chunks: Seq<Seq<u8>>, states: Seq<CapturedOutput>)
    requires
        states.len() == chunks.len() + 1,
        states[0].captures(Seq::empty()),
        forall|i: int|
            0 <= i < chunks.len() ==> capture_step(#[trigger] states[i], chunks[i], states[i + 1]),
    ensures
        states.last().captures(stream_of(chunks)),
    decreases chunks.len(),
{
    if chunks.len() > 0 {
        let n = chunks.len() - 1;
        let front = states.drop_last();
        assert forall|i: int| 0 <= i < chunks.drop_last().len() implies capture_step(
            #[trigger] front[i],
            chunks.drop_last()[i],
            front[i + 1],
        ) by {
            assert(capture_step(states[i], chunks[i], states[i + 1]));
        }
        law_capture_of_whole_output(chunks.drop_last(), front);
        let stream = stream_of(chunks.drop_last());
        let before = states[n];
        let after = states[n + 1];
        assert(front.last() == before);
        assert(capture_step(before, chunks[n], after));
        if before.truncated {
            assert(kept(stream + chunks[n]) =~= kept(stream));
            assert(kept(before.bytes@ + chunks[n]) =~= before.bytes@);
        }
    }
}

/// What `capture_output` does to what is kept.
pub open spec fn capture_step(
    before: CapturedOutput,
    chunk: Seq<u8>,
    after: CapturedOutput,
) -> bool {
    &&& after.bytes@ == kept(before.bytes@ + chunk)
    &&& after.truncated == (before.truncated || before.bytes@.len() + chunk.len()
        > MAX_COMMAND_OUTPUT_BYTES)
}

/// The text that `String::from_utf8_lossy` makes of bytes.
pub uninterp spec fn lossy_text(bytes: Seq<u8>) -> Seq<char>;

/// `String::from_utf8_lossy`: the text that the bytes encode, where they are UTF-8. Where they
/// are not, the text with replacement characters is named, not stated.
#[verifier::external_body]
fn decode_lossy(bytes: &[u8]) -> (text: String)
    ensures
        text@ == lossy_text(bytes@),
        valid_utf8(bytes@) ==> text@ == decode_utf8(bytes@),
{
    String::from_utf8_lossy(bytes).to_string()
}

/// What a look at a running command shows.
#[derive(Debug, PartialEq)]
pub enum Waited {
    Running,
    Exited,
    Failed(String),
}

/// What to do about a running command.
#[derive(Debug, PartialEq)]
pub enum CommandPoll {
    /// Look again later.
    Sleep,
    /// Collect the output.
    Collect,
    /// Kill the command and fail.
    Kill(RequestError),
}

/// What to do about a running command: a cancelled request kills it, and so does a failure to
/// look at it.
pub fn poll_command(program: &str, cancelled: bool, waited: Waited) -> (poll: CommandPoll)
    ensures
        cancelled ==> poll == CommandPoll::Kill(RequestError::Cancelled),
        !cancelled ==> match waited {
            Waited::Running => poll == CommandPoll::Sleep,
            Waited::Exited => poll == CommandPoll::Collect,
            Waited::Failed(error) => poll matches CommandPoll::Kill(failure) && failure@
                == ErrorView::Message("failed waiting for "@ + program@ + ": "@ + error@),
        },
{
    if cancelled {
        CommandPoll::Kill(RequestError::Cancelled)
    } else {
        match waited {
            Waited::Running => CommandPoll::Sleep,
            Waited::Exited => CommandPoll::Collect,
            Waited::Failed(error) => CommandPoll::Kill(
                RequestError::Message(
                    concat(concat3("failed waiting for ", program, ": ").as_str(), error.as_str()),
                ),
            ),
        }
    }
}

/// What fails around a command, other than the command itself.
#[derive(Debug, PartialEq)]
pub enum CommandFault {
    /// It could not be started.
    Start(String),
    /// The reader of its standard output stopped.
    StdoutLost,
    /// Its standard output could not be read.
    StdoutRead(String),
    /// The reader of its standard error stopped.
    StderrLost,
    /// Its standard error could not be read.
    StderrRead(String),
}

/// What is said of a fault around a command.
pub open spec fn fault_text(program: Seq<char>, fault: CommandFault) -> Seq<char> {
    match fault {
        CommandFault::Start(error) => "failed to run "@ + program + ": "@ + error@,
        CommandFault::StdoutLost => "failed collecting "@ + program + " stdout"@,
        CommandFault::StdoutRead(error) => "failed reading "@ + program + " stdout: "@ + error@,
        CommandFault::StderrLost => "failed collecting "@ + program + " stderr"@,
        CommandFault::StderrRead(error) => "failed reading "@ + program + " stderr: "@ + error@,
    }
}

/// The error for a fault around a command.
pub fn command_fault(program: &str, fault: CommandFault) -> (error: RequestError)
    ensures
        error@ == ErrorView::Message(fault_text(program@, fault)),
{
    let text: String = match &fault {
        CommandFault::Start(error) => concat(
            concat3("failed to run ", program, ": ").as_str(),
            error.as_str(),
        ),
        CommandFault::StdoutLost => concat3("failed collecting ", program, " stdout"),
        CommandFault::StdoutRead(error) => concat(
            concat3("failed reading ", program, " stdout: ").as_str(),
            error.as_str(),
        ),
        CommandFault::StderrLost => concat3("failed collecting ", program, " stderr"),
        CommandFault::StderrRead(error) => concat(
            concat3("failed reading ", program, " stderr: ").as_str(),
            error.as_str(),
        ),
    };
    RequestError::Message(text)
}

/// What is said of a command that failed: what it wrote to its standard error, else how it
/// exited.
pub open spec fn failure_text(
    program: Seq<char>,
    status: Seq<char>,
    stderr: Seq<char>,
    stderr_truncated: bool,
) -> Seq<char> {
    let message = if stderr_truncated {
        trimmed(stderr) + "\n[stderr truncated]"@
    } else {
        trimmed(stderr)
    };
    if message.len() == 0 {
        program + " exited with "@ + status
    } else {
        message
    }
}

/// What a command that has exited comes to. An output that was too long is an error even where
/// the command succeeded.
pub open spec fn command_outcome(
    program: Seq<char>,
    success: bool,
    status: Seq<char>,
    stdout: Seq<char>,
    stdout_truncated: bool,
    stderr: Seq<char>,
    stderr_truncated: bool,
) -> Result<Seq<char>, ErrorView> {
    if stdout_truncated {
        Err(
            ErrorView::Message(
                program + " stdout exceeded "@ + decimal(MAX_COMMAND_OUTPUT_BYTES as nat) + " bytes"@,
            ),
        )
    } else if !success {
        Err(ErrorView::Message(failure_text(program, status, stderr, stderr_truncated)))
    } else {
        Ok(stdout)
    }
}

/// What a command that has exited comes to, from the texts of its outputs.
pub fn command_text_result(
    program: &str,
    success: bool,
    status: &str,
    stdout: String,
    stdout_truncated: bool,
    stderr: &str,
    stderr_truncated: bool,
) -> (output: Result<String, RequestError>)
    ensures
        result_view(output) == command_outcome(
            program@,
            success,
            status@,
            stdout@,
            stdout_truncated,
            stderr@,
            stderr_truncated,
        ),
{
    if stdout_truncated {
        let limit = to_decimal(MAX_COMMAND_OUTPUT_BYTES as u64);
        return Err(
            RequestError::Message(
                concat(concat3(program, " stdout exceeded ", limit.as_str()).as_str(), " bytes"),
            ),
        );
    }
    if !success {
        let mut message: String = trim(stderr).to_owned();
        if stderr_truncated {
            message.append("\n[stderr truncated]");
        }
        if message.unicode_len() == 0 {
            message = concat3(program, " exited with ", status);
        }
        return Err(RequestError::Message(message));
    }
    Ok(stdout)
}

/// What a command that has exited comes to, from what was kept of its outputs.
pub fn command_result(
    program: &str,
    success: bool,
    status: &str,
    stdout: &CapturedOutput,
    stderr: &CapturedOutput,
) -> (output: Result<String, RequestError>)
    ensures
        result_view(output) == command_outcome(
            program@,
            success,
            status@,
            lossy_text(stdout.bytes@),
            stdout.truncated,
            lossy_text(stderr.bytes@),
            stderr.truncated,
        ),
        valid_utf8(stdout.bytes@) ==> lossy_text(stdout.bytes@) == decode_utf8(stdout.bytes@),
        valid_utf8(stderr.bytes@) ==> lossy_text(stderr.bytes@) == decode_utf8(stderr.bytes@),
{
    let stdout_text = decode_lossy(stdout.bytes.as_slice());
    let stderr_text = decode_lossy(stderr.bytes.as_slice());
    command_text_result(
        program,
        success,
        status,
        stdout_text,
        stdout.truncated,
        stderr_text.as_str(),
        stderr.truncated,
    )
}

/// The milliseconds since the start of 1970, from what the clock says has passed since then: 0
/// where the clock stands before it, and the largest number where they do not fit.
pub fn unix_timestamp_ms(elapsed_ms: Option<u128>) -> (timestamp: u64)
    ensures
        timestamp == (match elapsed_ms {
            None => 0,
            Some(elapsed) => if elapsed <= u64::MAX {
                elapsed as u64
            } else {
                u64::MAX
            },
        }),
{
    match elapsed_ms {
        None => 0,
        Some(elapsed) => if elapsed <= u64::MAX as u128 {
            elapsed as u64
        } else {
            u64::MAX
        },
    }
}

/// A command comes to what it printed exactly if it succeeded and nothing of its output was left
/// out. Else the error says that the output exceeded the limit, or what the command complained of,
/// or, where it did not complain, how it exited.
pub proof fn law_commands_come_to_what_they_printed(
    program: Seq<char>,
    success: bool,
    status: Seq<char>,
    stdout: Seq<char>,
    stdout_truncated: bool,
    stderr: Seq<char>,
    stderr_truncated: bool,
)
    ensures
        ({
            let outcome = command_outcome(
                program,
                success,
                status,
                stdout,
                stdout_truncated,
                stderr,
                stderr_truncated,
            );
            &&& outcome == Ok::<Seq<char>, ErrorView>(stdout) <==> success && !stdout_truncated
            &&& stdout_truncated ==> outcome == Err::<Seq<char>, ErrorView>(
                ErrorView::Message(program + " stdout exceeded "@ + "1048576"@ + " bytes"@),
            )
            &&& !stdout_truncated && !success && blank(stderr) && !stderr_truncated ==> outcome == Err::<
                Seq<char>,
                ErrorView,
            >(ErrorView::Message(program + " exited with "@ + status))
            &&& !stdout_truncated && !success && !blank(stderr) && !stderr_truncated ==> outcome == Err::<
                Seq<char>,
                ErrorView,
            >(ErrorView::Message(trimmed(stderr)))
            &&& !stdout_truncated && !success && stderr_truncated ==> outcome == Err::<
                Seq<char>,
                ErrorView,
            >(ErrorView::Message(trimmed(stderr) + "\n[stderr truncated]"@))
        }),
{
    law_blank_texts_trim_to_nothing(stderr);
    reveal_strlit("\n[stderr truncated]");
    reveal_strlit("1048576");
    reveal_with_fuel(decimal, 8);
    assert(decimal(1048576) =~= "1048576"@);
}

/// Of an output the first 1048576 bytes are kept.
pub proof fn law_the_first_bytes_are_kept(stream: Seq<u8>, i: int)
    ensures
        kept(stream).len() == (if stream.len() < 1048576 {
            stream.len() as int
        } else {
            1048576
        }),
        0 <= i < kept(stream).len() ==> kept(stream)[i] == stream[i],
{
}

/// A fault around a command names the program and says which output was lost, or why it could not
/// be started or read.
pub proof fn law_faults_name_their_program(program: Seq<char>, error: String)
    ensures
        fault_text(program, CommandFault::Start(error)) == "failed to run "@ + program + ": "@ + error@,
        fault_text(program, CommandFault::StdoutLost) == "failed collecting "@ + program + " stdout"@,
        fault_text(program, CommandFault::StderrLost) == "failed collecting "@ + program + " stderr"@,
        fault_text(program, CommandFault::StdoutRead(error)) == "failed reading "@ + program + " stdout: "@
            + error@,
        fault_text(program, CommandFault::StderrRead(error)) == "failed reading "@ + program + " stderr: "@
            + error@,
{
}

} // verus!
