//! Reading and patching the durable state through the host.

use vstd::prelude::*;
use crate::error::RequestError;
use crate::exchange::{
    Halt, Record, ReplyView, Run, check_unless_run, clock_run, done, failed, followed_by, host_run,
    lift, lifted, outcome_view,
};
use crate::json::{Json, JsonView, items_view, text_view};
use crate::state::{
    STATE_NAMESPACE, STATE_VERSION, begin_reconciliation_patch, begun, durable_state_patch_request,
    empty_durable_state, empty_state, ended, finish_reconciliation_patch, ledger_value, mapping,
    mapping_patch, patch_request, pr_mapping, pull_request_patch,
    reconciliation_from_settings_value, settings_value, settings_value_from_host_response,
};

verus! {

/// The request to read one member of the plugin's own namespace.
pub open spec fn read_request(member: Seq<char>) -> JsonView {
    JsonView::Object(
        map![
            "path"@ => JsonView::Array(seq![JsonView::Text(STATE_NAMESPACE@), JsonView::Text(member)]),
        ],
    )
}

/// The request to read one member of the plugin's own namespace.
fn settings_read_request(member: &str) -> (request: Json)
    ensures
        request@ == read_request(member@),
{
    let path: Vec<Json> = vec![Json::text(STATE_NAMESPACE), Json::text(member)];
    assert(items_view(path@) =~= seq![JsonView::Text(STATE_NAMESPACE@), JsonView::Text(member@)]);
    Json::member("path", Json::Array(path))
}

/// What follows from the version that the host holds: nothing, where it is the current one; a new
/// document, where there is none; else a failure.
pub open spec fn version_run(
    version: JsonView,
    allow_cancelled: bool,
    log: Seq<ReplyView>,
    at: int,
) -> Run<()> {
    if version is Null {
        followed_by(
            host_run(
                "github-settings-initialize"@,
                "host.settings.patch"@,
                patch_request(empty_state()),
                allow_cancelled,
                log,
                at,
            ),
            |response: JsonView, at: int| done((), at),
        )
    } else if version.natural() == Some(STATE_VERSION) {
        done((), at)
    } else {
        failed("unsupported GitHub durable state version"@, at)
    }
}

/// Sees to it that the host holds a document of the current version.
#[verifier::opaque]
pub open spec fn ensure_run(allow_cancelled: bool, log: Seq<ReplyView>, at: int) -> Run<()> {
    followed_by(
        host_run(
            "github-settings-version"@,
            "host.settings.get"@,
            read_request("version"@),
            allow_cancelled,
            log,
            at,
        ),
        |response: JsonView, at: int|
            followed_by(
                lifted(settings_value(response), at),
                |version: JsonView, at: int| version_run(version, allow_cancelled, log, at),
            ),
    )
}

/// Sees to it that the host holds a document of the current version.
pub fn ensure_durable_state(
    record: &mut Record,
    allow_cancelled: bool,
) -> (outcome: Result<(), Halt>)
    ensures
        final(record).follows(
            *old(record),
            outcome_view(outcome),
            ensure_run(allow_cancelled, old(record).log(), old(record).at as int),
        ),
{
    reveal(ensure_run);
    let response = record.host_call_with_cancellation(
        "github-settings-version",
        "host.settings.get",
        settings_read_request("version"),
        allow_cancelled,
    )?;
    let version = lift(settings_value_from_host_response(&response))?;
    match version {
        Json::Null => {
            record.host_call_with_cancellation(
                "github-settings-initialize",
                "host.settings.patch",
                durable_state_patch_request(empty_durable_state()),
                allow_cancelled,
            )?;
            Ok(())
        },
        _ => if version.as_u64() == Some(STATE_VERSION) {
            Ok(())
        } else {
            Err(Halt::Fail(RequestError::message("unsupported GitHub durable state version")))
        },
    }
}

/// Patches the document. The host must confirm the update.
#[verifier::opaque]
pub open spec fn patch_run(
    patch: JsonView,
    allow_cancelled: bool,
    log: Seq<ReplyView>,
    at: int,
) -> Run<()> {
    followed_by(
        check_unless_run(allow_cancelled, log, at),
        |checked: (), at: int|
            followed_by(
                ensure_run(allow_cancelled, log, at),
                |ensured: (), at: int|
                    followed_by(
                        host_run(
                            "github-settings-patch"@,
                            "host.settings.patch"@,
                            patch_request(patch),
                            allow_cancelled,
                            log,
                            at,
                        ),
                        |response: JsonView, at: int|
                            if response.bool_at("updated"@) == Some(true) {
                                done((), at)
                            } else {
                                failed("host settings patch response did not confirm the update"@, at)
                            },
                    ),
            ),
    )
}

/// Patches the document.
pub fn patch_durable_state(
    record: &mut Record,
    allow_cancelled: bool,
    patch: Json,
) -> (outcome: Result<(), Halt>)
    ensures
        final(record).follows(
            *old(record),
            outcome_view(outcome),
            patch_run(patch@, allow_cancelled, old(record).log(), old(record).at as int),
        ),
{
    reveal(patch_run);
    record.check_unless(allow_cancelled)?;
    ensure_durable_state(record, allow_cancelled)?;
    let response = record.host_call_with_cancellation(
        "github-settings-patch",
        "host.settings.patch",
        durable_state_patch_request(patch),
        allow_cancelled,
    )?;
    match response.bool_at("updated") {
        Some(true) => Ok(()),
        _ => Err(
            Halt::Fail(
                RequestError::message("host settings patch response did not confirm the update"),
            ),
        ),
    }
}

/// Reads the ledger.
#[verifier::opaque]
pub open spec fn ledger_run(allow_cancelled: bool, log: Seq<ReplyView>, at: int) -> Run<JsonView> {
    followed_by(
        ensure_run(allow_cancelled, log, at),
        |ensured: (), at: int|
            followed_by(
                host_run(
                    "github-settings-reconciliation"@,
                    "host.settings.get"@,
                    read_request("reconciliation"@),
                    allow_cancelled,
                    log,
                    at,
                ),
                |response: JsonView, at: int|
                    followed_by(
                        lifted(settings_value(response), at),
                        |value: JsonView, at: int| lifted(ledger_value(value), at),
                    ),
            ),
    )
}

/// Reads the ledger.
pub fn read_reconciliation_state(
    record: &mut Record,
    allow_cancelled: bool,
) -> (outcome: Result<Json, Halt>)
    ensures
        final(record).follows(
            *old(record),
            outcome_view(outcome),
            ledger_run(allow_cancelled, old(record).log(), old(record).at as int),
        ),
{
    reveal(ledger_run);
    ensure_durable_state(record, allow_cancelled)?;
    let response = record.host_call_with_cancellation(
        "github-settings-reconciliation",
        "host.settings.get",
        settings_read_request("reconciliation"),
        allow_cancelled,
    )?;
    let value = lift(settings_value_from_host_response(&response))?;
    lift(reconciliation_from_settings_value(value))
}

/// Maps a pull request to a session.
pub open spec fn persist_run(
    session_id: Seq<char>,
    url: Seq<char>,
    state: Seq<char>,
    remote: Option<Seq<char>>,
    branch: Option<Seq<char>>,
    log: Seq<ReplyView>,
    at: int,
) -> Run<()> {
    followed_by(
        clock_run(log, at),
        |now: u64, at: int|
            patch_run(
                mapping_patch(session_id, mapping(session_id, url, state, remote, branch, now)),
                false,
                log,
                at,
            ),
    )
}

/// Maps a pull request to a session.
pub fn persist_pr_mapping(
    record: &mut Record,
    session_id: &str,
    url: &str,
    pr_state: &str,
    remote: Option<&str>,
    branch: Option<&str>,
) -> (outcome: Result<(), Halt>)
    ensures
        final(record).follows(
            *old(record),
            outcome_view(outcome),
            persist_run(
                session_id@,
                url@,
                pr_state@,
                text_view(remote),
                text_view(branch),
                old(record).log(),
                old(record).at as int,
            ),
        ),
{
    let now: u64 = record.read_clock()?;
    let mapping = pr_mapping(session_id, url, pr_state, remote, branch, now);
    patch_durable_state(record, false, pull_request_patch(session_id, mapping))
}

/// Takes the mapping of a session away.
pub open spec fn clear_run(session_id: Seq<char>, log: Seq<ReplyView>, at: int) -> Run<()> {
    patch_run(mapping_patch(session_id, JsonView::Null), false, log, at)
}

/// Takes the mapping of a session away.
pub fn clear_pr_mapping(record: &mut Record, session_id: &str) -> (outcome: Result<(), Halt>)
    ensures
        final(record).follows(
            *old(record),
            outcome_view(outcome),
            clear_run(session_id@, old(record).log(), old(record).at as int),
        ),
{
    patch_durable_state(record, false, pull_request_patch(session_id, Json::Null))
}

/// The patch that changes the ledger.
pub open spec fn ledger_patch(patch: JsonView) -> JsonView {
    JsonView::Object(map!["reconciliation"@ => patch])
}

/// Writes down that an attempt runs.
#[verifier::opaque]
pub open spec fn begin_run(
    attempt_id: Seq<char>,
    started_at: u64,
    log: Seq<ReplyView>,
    at: int,
) -> Run<()> {
    followed_by(
        ledger_run(false, log, at),
        |ledger: JsonView, at: int|
            followed_by(
                lifted(begun(ledger, attempt_id, started_at), at),
                |patch: JsonView, at: int| patch_run(ledger_patch(patch), false, log, at),
            ),
    )
}

/// Writes down that an attempt runs.
pub fn begin_reconciliation(
    record: &mut Record,
    attempt_id: &str,
    started_at: u64,
) -> (outcome: Result<(), Halt>)
    ensures
        final(record).follows(
            *old(record),
            outcome_view(outcome),
            begin_run(attempt_id@, started_at, old(record).log(), old(record).at as int),
        ),
{
    reveal(begin_run);
    let ledger = read_reconciliation_state(record, false)?;
    let patch = lift(begin_reconciliation_patch(&ledger, attempt_id, started_at))?;
    patch_durable_state(record, false, Json::member("reconciliation", patch))
}

/// Writes down how an attempt ended.
#[verifier::opaque]
pub open spec fn finish_run(
    allow_cancelled: bool,
    attempt_id: Seq<char>,
    status: Seq<char>,
    checked: u64,
    finished_at: u64,
    error: Option<Seq<char>>,
    log: Seq<ReplyView>,
    at: int,
) -> Run<()> {
    followed_by(
        ledger_run(allow_cancelled, log, at),
        |ledger: JsonView, at: int|
            followed_by(
                lifted(ended(ledger, attempt_id, status, checked, finished_at, error), at),
                |patch: JsonView, at: int| patch_run(ledger_patch(patch), allow_cancelled, log, at),
            ),
    )
}

/// Writes down how an attempt ended.
pub fn finish_reconciliation(
    record: &mut Record,
    allow_cancelled: bool,
    attempt_id: &str,
    status: &str,
    checked: u64,
    finished_at: u64,
    error: Option<&str>,
) -> (outcome: Result<(), Halt>)
    ensures
        final(record).follows(
            *old(record),
            outcome_view(outcome),
            finish_run(
                allow_cancelled,
                attempt_id@,
                status@,
                checked,
                finished_at,
                text_view(error),
                old(record).log(),
                old(record).at as int,
            ),
        ),
{
    reveal(finish_run);
    let ledger = read_reconciliation_state(record, allow_cancelled)?;
    let patch = lift(
        finish_reconciliation_patch(&ledger, attempt_id, status, checked, finished_at, error),
    )?;
    patch_durable_state(record, allow_cancelled, Json::member("reconciliation", patch))
}

} // verus!
