use planeai_plugin_github::command::{
    CapturedOutput, CommandFault, CommandPoll, CommandRunner, MAX_COMMAND_OUTPUT_BYTES, Program,
    Waited, capture_output, command_fault, command_result, command_text_result, poll_command,
    unix_timestamp_ms,
};
use planeai_plugin_github::error::RequestError;

fn captured(bytes: &[u8]) -> CapturedOutput {
    let mut output = CapturedOutput::new();
    for chunk in bytes.chunks(8192) {
        capture_output(&mut output, chunk);
    }
    output
}

fn said<T>(message: &str) -> Result<T, RequestError> {
    Err(RequestError::Message(message.to_string()))
}

#[test]
fn fake_commands_return_output_and_report_stderr_failures() {
    assert_eq!(
        command_result("success", true, "exit status: 0", &captured(b"fake output\n"), &captured(b"")),
        Ok("fake output\n".to_string())
    );
    assert_eq!(
        command_result("failure", false, "exit status: 7", &captured(b""), &captured(b"fake failure\n")),
        said("fake failure")
    );
}

#[test]
fn a_silent_failure_says_how_the_command_exited() {
    assert_eq!(
        command_result("gh", false, "exit status: 7", &captured(b"x"), &captured(b" \n")),
        said("gh exited with exit status: 7")
    );
}

#[test]
fn bytes_that_are_not_text_are_replaced() {
    assert_eq!(
        command_result("git", true, "exit status: 0", &captured(&[0x61, 0xff, 0x62]), &captured(b"")),
        Ok("a\u{fffd}b".to_string())
    );
}

#[test]
fn output_is_kept_up_to_its_limit() {
    let whole = captured(&vec![b'x'; MAX_COMMAND_OUTPUT_BYTES]);
    assert_eq!(whole.bytes.len(), 1048576);
    assert!(!whole.truncated);
    let cut = captured(&vec![b'x'; MAX_COMMAND_OUTPUT_BYTES + 1]);
    assert_eq!(cut.bytes, whole.bytes);
    assert!(cut.truncated);
    assert_eq!(
        command_result("gh", true, "exit status: 0", &cut, &captured(b"")),
        said("gh stdout exceeded 1048576 bytes")
    );
    let mut noted = captured(b"");
    noted.truncated = true;
    assert_eq!(
        command_result("gh", false, "exit status: 1", &captured(b""), &noted),
        said("\n[stderr truncated]")
    );
}

#[test]
fn the_texts_of_a_command_decide_its_outcome() {
    assert_eq!(
        command_text_result("gh", true, "exit status: 0", "out".to_string(), false, "warning", true),
        Ok("out".to_string())
    );
    assert_eq!(
        command_text_result("gh", false, "exit status: 1", "out".to_string(), false, " bad\n", true),
        said("bad\n[stderr truncated]")
    );
}

#[test]
fn a_cancelled_command_is_killed() {
    assert_eq!(
        poll_command("gh", true, Waited::Exited),
        CommandPoll::Kill(RequestError::Cancelled)
    );
    assert_eq!(poll_command("gh", false, Waited::Running), CommandPoll::Sleep);
    assert_eq!(poll_command("gh", false, Waited::Exited), CommandPoll::Collect);
    assert_eq!(
        poll_command("gh", false, Waited::Failed("gone".to_string())),
        CommandPoll::Kill(RequestError::Message("failed waiting for gh: gone".to_string()))
    );
}

#[test]
fn faults_around_a_command_have_their_messages() {
    let cases = [
        (CommandFault::Start("no such file".to_string()), "failed to run gh: no such file"),
        (CommandFault::StdoutLost, "failed collecting gh stdout"),
        (CommandFault::StdoutRead("io".to_string()), "failed reading gh stdout: io"),
        (CommandFault::StderrLost, "failed collecting gh stderr"),
        (CommandFault::StderrRead("io".to_string()), "failed reading gh stderr: io"),
    ];
    for (fault, message) in cases {
        assert_eq!(command_fault("gh", fault), RequestError::Message(message.to_string()));
    }
}

#[test]
fn programs_are_found_by_name_unless_told_otherwise() {
    let runner = CommandRunner::default();
    assert_eq!(runner.path(Program::Git), "git");
    assert_eq!(runner.path(Program::Gh), "gh");
    let runner = CommandRunner::new("/bin/g".to_string(), "/bin/h".to_string());
    assert_eq!(runner.path(Program::Git), "/bin/g");
    assert_eq!(runner.path(Program::Gh), "/bin/h");
}

#[test]
fn timestamps_fit_in_64_bits() {
    assert_eq!(unix_timestamp_ms(None), 0);
    assert_eq!(unix_timestamp_ms(Some(1_700_000_000_000)), 1_700_000_000_000);
    assert_eq!(unix_timestamp_ms(Some(u128::MAX)), u64::MAX);
}
