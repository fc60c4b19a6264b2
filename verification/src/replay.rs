//! A request can be run again from its start at any time: a record of replies leads it to where
//! it was, and never elsewhere.

use vstd::prelude::*;
use crate::arguments::{
    create_args, diff_args, log_args, merge_args, push_args, ready_args, remote_args, view_args,
};
use crate::codec::parsed_text;
use crate::command::Program;
use crate::dispatch::{StepView, method_run, next_step, request_run};
use crate::error::{ErrorView, described};
use crate::exchange::{
    ActionView, HaltView, ReplyView, Run, answers, cancelled_run, check_run, check_unless_run,
    clock_run, host_run, lock_run, program_run, sequence_run,
};
use crate::github::{merge_flag, projected_status};
use crate::handlers::{
    CheckoutView, base_branch, checkout_run, context_directory, context_run, context_text,
    create_run, created_run, defaults_run, drafted, failed_id, found_run, known_remote,
    link_request_run, link_run, linked_run, logs_run, looked_up_run, lookup_run, merge_run,
    merge_viewed_run, merged_run, ready_run, required, status_fields, status_run,
};
use crate::json::JsonView;
use crate::reconcile::{
    Swept, active_id, attempt_name, attempt_run, fail_run, reconcile_run, session_params,
    settle_run, succeed_run, sweep_run, work_run,
};
use crate::settings::{
    begin_run, ensure_run, finish_run, ledger_patch, ledger_run, patch_run, persist_run,
    read_request, version_run,
};
use crate::state::{
    begin_patch, begun, empty_state, ended, finish_patch, keeps_credentials, ledger_fault,
    lemma_mapping_says, mapping, mapping_fault, mapping_patch, patch_request, settings_value,
    strict_text,
};
use crate::state_laws::{law_mappings_hold_no_credentials, law_recorded_mappings_are_valid};
use crate::text::{blank, trimmed};

verus! {

/// Whether a part of a request waits for a reply.
pub open spec fn asks<T>(run: Run<T>) -> bool {
    run.outcome matches Err(HaltView::Ask(_))
}

/// Whether a part of a request, which starts behind `at` replies, uses the replies in `log` in
/// their order: it waits only where none is left, and on the first `n` of them it does the same,
/// up to where it would need one more. It goes astray only behind a reply that does not answer the
/// action that it asked for.
pub open spec fn replays<T>(
    whole: Run<T>,
    part: Run<T>,
    log: Seq<ReplyView>,
    at: int,
    n: int,
) -> bool {
    &&& at <= whole.at <= log.len()
    &&& asks(whole) ==> whole.at == log.len()
    &&& if asks(whole) && n < log.len() || whole.at > n {
        asks(part) && part.at == n
    } else {
        part == whole
    }
    &&& whole.outcome == Err::<T, HaltView>(HaltView::Stray) ==> at < whole.at
    &&& whole.outcome == Err::<T, HaltView>(HaltView::Stray) && n == whole.at - 1 ==> (
    part.outcome matches Err(HaltView::Ask(action)) && !answers(action, log[n]))
}

/// Whether an action calls a method of the host.
pub open spec fn calls(action: ActionView, called: Seq<char>, with: JsonView) -> bool {
    action matches ActionView::HostCall { id, method, params, allow_cancelled } && method == called
        && params == with
}

/// Whether an action patches the document.
pub open spec fn writes(action: ActionView, patch: JsonView) -> bool {
    calls(action, "host.settings.patch"@, patch_request(patch))
}

/// Whether an action gives the session a mapping, or takes it away where `recorded` is `null`.
pub open spec fn records(action: ActionView, session_id: Seq<char>, recorded: JsonView) -> bool {
    writes(action, mapping_patch(session_id, recorded))
}

/// What a change of the ledger may do: start an attempt of its own, over a ledger that can be used,
/// or end one as idle or, with an error, as failed.
pub open spec fn change_in_bounds(change: JsonView) -> bool {
    ||| exists|ledger: JsonView, started_at: u64, number: u64|
        change == JsonView::Object(
            #[trigger] begin_patch(ledger, attempt_name(started_at, number), started_at),
        ) && ledger_fault(ledger) is None
    ||| exists|checked: u64, finished_at: u64|
        change == JsonView::Object(#[trigger] finish_patch("idle"@, checked, finished_at, None))
    ||| exists|checked: u64, finished_at: u64, message: Seq<char>|
        change == JsonView::Object(
            #[trigger] finish_patch("failed"@, checked, finished_at, Some(message)),
        )
}

/// What a patch of the plugin's own namespace may do: start an empty document, give a session a
/// mapping that can be used and holds no credentials, take it away, or change the ledger.
pub open spec fn patch_in_bounds(patch: JsonView) -> bool {
    ||| patch == empty_state()
    ||| exists|session_id: Seq<char>, recorded: JsonView|
        patch == #[trigger] mapping_patch(session_id, recorded) && mapping_in_bounds(session_id, recorded)
    ||| exists|change: JsonView| patch == #[trigger] ledger_patch(change) && change_in_bounds(change)
}

/// What may be recorded for a session: a mapping that can be used and holds no credentials, or
/// that there is none.
pub open spec fn mapping_in_bounds(session_id: Seq<char>, recorded: JsonView) -> bool {
    recorded is Null || (mapping_fault(session_id, recorded) is None && !keeps_credentials(recorded))
}

/// Whether the URL in a mapping is blank.
pub open spec fn url_is_blank(recorded: JsonView) -> bool {
    recorded.text_at("url"@) matches Some(url) && blank(url)
}

/// Whether an action records a mapping with a blank URL, and no credentials.
pub open spec fn records_blank_url(action: ActionView) -> bool {
    exists|session_id: Seq<char>, recorded: JsonView| #[trigger]
        records(action, session_id, recorded) && url_is_blank(recorded) && !keeps_credentials(recorded)
}

/// What a request may ask of the host: about the repository of a session, about the sessions, for
/// the version and the ledger of the plugin's own namespace, and to patch that namespace.
pub open spec fn host_call_in_bounds(method: Seq<char>, params: JsonView) -> bool {
    ||| method == "host.sessions.repositoryContext"@ && exists|session_id: Seq<char>|
        params == #[trigger] session_params(session_id)
    ||| method == "host.sessions.list"@ && params is Null
    ||| method == "host.settings.get"@ && (params == read_request("version"@) || params == read_request(
        "reconciliation"@,
    ))
    ||| method == "host.settings.patch"@ && exists|patch: JsonView|
        params == #[trigger] patch_request(patch) && patch_in_bounds(patch)
}

/// What a request may run.
pub open spec fn program_in_bounds(program: Program, args: Seq<Seq<char>>) -> bool {
    match program {
        Program::Git => {
            ||| args == remote_args()
            ||| exists|branch: Seq<char>| args == #[trigger] diff_args(branch)
            ||| exists|branch: Seq<char>| args == #[trigger] push_args(branch)
        },
        Program::Gh => {
            ||| exists|subject: Seq<char>, fields: Seq<char>| args == #[trigger] view_args(subject, fields)
            ||| exists|title: Seq<char>, body: Seq<char>, base: Seq<char>, draft: bool|
                args == #[trigger] create_args(title, body, base, draft)
            ||| exists|branch: Seq<char>, flag: Seq<char>| args == #[trigger] merge_args(branch, flag)
            ||| exists|branch: Seq<char>| args == #[trigger] ready_args(branch)
            ||| exists|run_id: Seq<char>| args == #[trigger] log_args(run_id)
        },
    }
}

/// What a request may ask for.
pub open spec fn in_bounds(action: ActionView) -> bool {
    match action {
        ActionView::HostCall { id, method, params, allow_cancelled } => host_call_in_bounds(
            method,
            params,
        ),
        ActionView::Run { program, cwd, args } => program_in_bounds(program, args),
        _ => true,
    }
}

/// Whether a part of a request asks for nothing that a request may not ask for, and uses the
/// replies in their order.
pub open spec fn tame<T>(
    whole: Run<T>,
    part: Run<T>,
    log: Seq<ReplyView>,
    at: int,
    n: int,
) -> bool {
    &&& replays(whole, part, log, at, n)
    &&& whole.outcome matches Err(HaltView::Ask(action)) ==> in_bounds(action)
}

/// The same, but for a mapping with a blank URL that may be recorded.
pub open spec fn tame_but_for_url<T>(
    whole: Run<T>,
    part: Run<T>,
    log: Seq<ReplyView>,
    at: int,
    n: int,
) -> bool {
    &&& replays(whole, part, log, at, n)
    &&& whole.outcome matches Err(HaltView::Ask(action)) ==> in_bounds(action) || records_blank_url(action)
}

/// Whether a part of a request that checks for cancellation behind `n` replies, and learns of it,
/// ends there.
pub open spec fn yields<T>(whole: Run<T>, part: Run<T>, log: Seq<ReplyView>, n: int) -> bool {
    n < log.len() && log[n] == ReplyView::Cancelled(true) && part.outcome == Err::<T, HaltView>(
        HaltView::Ask(ActionView::CheckCancelled),
    ) ==> whole.outcome == Err::<T, HaltView>(HaltView::Fail(ErrorView::Cancelled))
}

/// Whether `at` replies have been used up, and a shorter record still holds them.
pub open spec fn within(log: Seq<ReplyView>, at: int, n: int) -> bool {
    0 <= at <= n <= log.len()
}

pub(crate) proof fn tame_cancelled(log: Seq<ReplyView>, at: int, n: int)
    requires
        within(log, at, n),
    ensures
        tame(cancelled_run(log, at), cancelled_run(log.take(n), at), log, at, n),
{
}

pub(crate) proof fn tame_check(log: Seq<ReplyView>, at: int, n: int)
    requires
        within(log, at, n),
    ensures
        tame(check_run(log, at), check_run(log.take(n), at), log, at, n),
        yields(check_run(log, at), check_run(log.take(n), at), log, n),
{
    tame_cancelled(log, at, n);
}

pub(crate) proof fn tame_clock(log: Seq<ReplyView>, at: int, n: int)
    requires
        within(log, at, n),
    ensures
        tame(clock_run(log, at), clock_run(log.take(n), at), log, at, n),
{
}

proof fn tame_sequence(log: Seq<ReplyView>, at: int, n: int)
    requires
        within(log, at, n),
    ensures
        tame(sequence_run(log, at), sequence_run(log.take(n), at), log, at, n),
{
}

pub(crate) proof fn tame_lock(log: Seq<ReplyView>, at: int, n: int)
    requires
        within(log, at, n),
    ensures
        tame(lock_run(log, at), lock_run(log.take(n), at), log, at, n),
{
}

pub(crate) proof fn tame_check_unless(allow: bool, log: Seq<ReplyView>, at: int, n: int)
    requires
        within(log, at, n),
    ensures
        tame(
            check_unless_run(allow, log, at),
            check_unless_run(allow, log.take(n), at),
            log,
            at,
            n,
        ),
        yields(check_unless_run(allow, log, at), check_unless_run(allow, log.take(n), at), log, n),
{
    tame_check(log, at, n);
}

proof fn tame_host(
    id_prefix: Seq<char>,
    method: Seq<char>,
    params: JsonView,
    allow: bool,
    log: Seq<ReplyView>,
    at: int,
    n: int,
)
    requires
        within(log, at, n),
    ensures
        ({
            let whole = host_run(id_prefix, method, params, allow, log, at);
            let part = host_run(id_prefix, method, params, allow, log.take(n), at);
            &&& replays(whole, part, log, at, n)
            &&& whole.outcome matches Err(HaltView::Ask(action)) ==> in_bounds(action) || calls(
                action,
                method,
                params,
            )
            &&& host_call_in_bounds(method, params) ==> tame(whole, part, log, at, n)
            &&& yields(whole, part, log, n)
        }),
{
    tame_check_unless(allow, log, at, n);
    let checked = check_unless_run(allow, log, at);
    if checked.outcome is Ok && checked.at <= n {
        tame_sequence(log, checked.at, n);
    }
}

pub(crate) proof fn tame_program(
    program: Program,
    cwd: Seq<char>,
    args: Seq<Seq<char>>,
    log: Seq<ReplyView>,
    at: int,
    n: int,
)
    requires
        within(log, at, n),
        program_in_bounds(program, args),
    ensures
        tame(
            program_run(program, cwd, args, log, at),
            program_run(program, cwd, args, log.take(n), at),
            log,
            at,
            n,
        ),
        yields(
            program_run(program, cwd, args, log, at),
            program_run(program, cwd, args, log.take(n), at),
            log,
            n,
        ),
{
    tame_check(log, at, n);
}

/// How much of a record is left to a part that starts behind `at` replies.
spec fn cut(log: Seq<ReplyView>, at: int, n: int) -> int {
    if at <= n {
        n
    } else {
        log.len() as int
    }
}

proof fn tame_version(
    version: JsonView,
    allow: bool,
    log: Seq<ReplyView>,
    at: int,
    n: int,
)
    requires
        within(log, at, n),
    ensures
        tame(
            version_run(version, allow, log, at),
            version_run(version, allow, log.take(n), at),
            log,
            at,
            n,
        ),
        yields(
            version_run(version, allow, log, at),
            version_run(version, allow, log.take(n), at),
            log,
            n,
        ),
{
    tame_host(
        "github-settings-initialize"@,
        "host.settings.patch"@,
        patch_request(empty_state()),
        allow,
        log,
        at,
        n,
    );
}

pub(crate) proof fn tame_ensure(
    allow: bool,
    log: Seq<ReplyView>,
    at: int,
    n: int,
)
    requires
        within(log, at, n),
    ensures
        tame(ensure_run(allow, log, at), ensure_run(allow, log.take(n), at), log, at, n),
        yields(ensure_run(allow, log, at), ensure_run(allow, log.take(n), at), log, n),
{
    reveal(ensure_run);
    let asked = host_run(
        "github-settings-version"@,
        "host.settings.get"@,
        read_request("version"@),
        allow,
        log,
        at,
    );
    tame_host(
        "github-settings-version"@,
        "host.settings.get"@,
        read_request("version"@),
        allow,
        log,
        at,
        n,
    );
    if let Ok(response) = asked.outcome {
        if let Ok(version) = settings_value(response) {
            tame_version(version, allow, log, asked.at, cut(log, asked.at, n));
        }
    }
}

proof fn tame_patch(
    patch: JsonView,
    allow: bool,
    log: Seq<ReplyView>,
    at: int,
    n: int,
)
    requires
        within(log, at, n),
    ensures
        ({
            let whole = patch_run(patch, allow, log, at);
            let part = patch_run(patch, allow, log.take(n), at);
            &&& replays(whole, part, log, at, n)
            &&& whole.outcome matches Err(HaltView::Ask(action)) ==> in_bounds(action) || writes(
                action,
                patch,
            )
            &&& patch_in_bounds(patch) ==> tame(whole, part, log, at, n)
            &&& yields(whole, part, log, n)
        }),
{
    reveal(patch_run);
    let checked = check_unless_run(allow, log, at);
    tame_check_unless(allow, log, at, n);
    if checked.outcome is Ok {
        let ensured = ensure_run(allow, log, checked.at);
        tame_ensure(allow, log, checked.at, cut(log, checked.at, n));
        if ensured.outcome is Ok {
            tame_host(
                "github-settings-patch"@,
                "host.settings.patch"@,
                patch_request(patch),
                allow,
                log,
                ensured.at,
                cut(log, ensured.at, n),
            );
        }
    }
}

pub(crate) proof fn tame_ledger(
    allow: bool,
    log: Seq<ReplyView>,
    at: int,
    n: int,
)
    requires
        within(log, at, n),
    ensures
        tame(ledger_run(allow, log, at), ledger_run(allow, log.take(n), at), log, at, n),
        yields(ledger_run(allow, log, at), ledger_run(allow, log.take(n), at), log, n),
        ledger_run(allow, log, at).outcome matches Ok(ledger) ==> ledger_fault(ledger) is None,
{
    reveal(ledger_run);
    let ensured = ensure_run(allow, log, at);
    tame_ensure(allow, log, at, n);
    if ensured.outcome is Ok {
        tame_host(
            "github-settings-reconciliation"@,
            "host.settings.get"@,
            read_request("reconciliation"@),
            allow,
            log,
            ensured.at,
            cut(log, ensured.at, n),
        );
    }
}

proof fn tame_persist(
    session_id: Seq<char>,
    url: Seq<char>,
    state: Seq<char>,
    remote: Option<Seq<char>>,
    branch: Option<Seq<char>>,
    log: Seq<ReplyView>,
    at: int,
    n: int,
)
    requires
        within(log, at, n),
        !blank(session_id),
        !blank(state),
    ensures
        ({
            let whole = persist_run(session_id, url, state, remote, branch, log, at);
            let part = persist_run(session_id, url, state, remote, branch, log.take(n), at);
            &&& tame_but_for_url(whole, part, log, at, n)
            &&& !blank(url) ==> tame(whole, part, log, at, n)
            &&& yields(whole, part, log, n)
        }),
{
    let clock = clock_run(log, at);
    tame_clock(log, at, n);
    if let Ok(now) = clock.outcome {
        let recorded = mapping(session_id, url, state, remote, branch, now);
        law_mappings_hold_no_credentials(session_id, url, state, remote, branch, now);
        lemma_mapping_says(session_id, url, state, remote, branch, now);
        if !blank(url) {
            law_recorded_mappings_are_valid(session_id, url, state, remote, branch, now);
        }
        let patch = mapping_patch(session_id, recorded);
        tame_patch(patch, false, log, clock.at, cut(log, clock.at, n));
        if let Err(HaltView::Ask(action)) = patch_run(patch, false, log, clock.at).outcome {
            assert(records(action, session_id, recorded) == writes(action, patch));
        }
    }
}

/// Whether an attempt that started at a time has one of the names that go with it.
pub open spec fn named(attempt_id: Seq<char>, started_at: u64) -> bool {
    exists|number: u64| attempt_id == #[trigger] attempt_name(started_at, number)
}

/// The words that a state is recorded as are not blank.
proof fn lemma_states()
    ensures
        !blank("draft"@),
        !blank("open"@),
        !blank("merged"@),
{
    reveal_strlit("draft");
    reveal_strlit("open");
    reveal_strlit("merged");
    assert("draft"@[0] == 'd' && "open"@[0] == 'o' && "merged"@[0] == 'm');
}

pub(crate) proof fn tame_begin(
    attempt_id: Seq<char>,
    started_at: u64,
    log: Seq<ReplyView>,
    at: int,
    n: int,
)
    requires
        within(log, at, n),
        named(attempt_id, started_at),
    ensures
        tame(
            begin_run(attempt_id, started_at, log, at),
            begin_run(attempt_id, started_at, log.take(n), at),
            log,
            at,
            n,
        ),
        yields(
            begin_run(attempt_id, started_at, log, at),
            begin_run(attempt_id, started_at, log.take(n), at),
            log,
            n,
        ),
{
    reveal(begin_run);
    let read = ledger_run(false, log, at);
    tame_ledger(false, log, at, n);
    if let Ok(ledger) = read.outcome {
        if let Ok(patch) = begun(ledger, attempt_id, started_at) {
            tame_patch(ledger_patch(patch), false, log, read.at, cut(log, read.at, n));
        }
    }
}

pub(crate) proof fn tame_finish(
    allow: bool,
    attempt_id: Seq<char>,
    status: Seq<char>,
    checked: u64,
    finished_at: u64,
    error: Option<Seq<char>>,
    log: Seq<ReplyView>,
    at: int,
    n: int,
)
    requires
        within(log, at, n),
        status == "idle"@ && error is None || status == "failed"@ && error is Some,
    ensures
        tame(
            finish_run(allow, attempt_id, status, checked, finished_at, error, log, at),
            finish_run(allow, attempt_id, status, checked, finished_at, error, log.take(n), at),
            log,
            at,
            n,
        ),
{
    reveal(finish_run);
    let read = ledger_run(allow, log, at);
    tame_ledger(allow, log, at, n);
    if let Ok(ledger) = read.outcome {
        if let Ok(patch) = ended(ledger, attempt_id, status, checked, finished_at, error) {
            tame_patch(ledger_patch(patch), allow, log, read.at, cut(log, read.at, n));
        }
    }
}

pub(crate) proof fn tame_context(
    params: JsonView,
    log: Seq<ReplyView>,
    at: int,
    n: int,
)
    requires
        within(log, at, n),
    ensures
        tame(context_run(params, log, at), context_run(params, log.take(n), at), log, at, n),
        yields(context_run(params, log, at), context_run(params, log.take(n), at), log, n),
{
    if let Ok(session_id) = required(params, "session_id"@) {
        tame_host(
            "github-context-"@ + session_id,
            "host.sessions.repositoryContext"@,
            session_params(session_id),
            false,
            log,
            at,
            n,
        );
    }
}

proof fn tame_found(
    parsed: Result<JsonView, Seq<char>>,
    session_id: Seq<char>,
    remote: Seq<char>,
    branch: Seq<char>,
    log: Seq<ReplyView>,
    at: int,
    n: int,
)
    requires
        within(log, at, n),
        !blank(session_id),
    ensures
        tame(
            found_run(parsed, session_id, remote, branch, log, at),
            found_run(parsed, session_id, remote, branch, log.take(n), at),
            log,
            at,
            n,
        ),
        yields(
            found_run(parsed, session_id, remote, branch, log, at),
            found_run(parsed, session_id, remote, branch, log.take(n), at),
            log,
            n,
        ),
{
    if let Ok(pr) = parsed {
        let status = projected_status(pr);
        if let Some(url) = strict_text(status.field("url"@)) {
            if let Some(state) = strict_text(status.field("state"@)) {
                tame_persist(
                    session_id,
                    url,
                    state,
                    Some(trimmed(remote)),
                    Some(branch),
                    log,
                    at,
                    n,
                );
            }
        }
    }
}

proof fn tame_looked_up(
    raw: Result<Seq<char>, ErrorView>,
    session_id: Seq<char>,
    remote: Seq<char>,
    branch: Seq<char>,
    log: Seq<ReplyView>,
    at: int,
    n: int,
)
    requires
        within(log, at, n),
        !blank(session_id),
    ensures
        tame(
            looked_up_run(raw, session_id, remote, branch, log, at),
            looked_up_run(raw, session_id, remote, branch, log.take(n), at),
            log,
            at,
            n,
        ),
        yields(
            looked_up_run(raw, session_id, remote, branch, log, at),
            looked_up_run(raw, session_id, remote, branch, log.take(n), at),
            log,
            n,
        ),
{
    match raw {
        Ok(raw) => {
            tame_found(parsed_text(raw), session_id, remote, branch, log, at, n);
        },
        Err(_) => {
            tame_patch(mapping_patch(session_id, JsonView::Null), false, log, at, n);
        },
    }
}

proof fn tame_lookup(
    session_id: Seq<char>,
    repository: JsonView,
    cwd: Seq<char>,
    remote: Seq<char>,
    log: Seq<ReplyView>,
    at: int,
    n: int,
)
    requires
        within(log, at, n),
        !blank(session_id),
    ensures
        tame(
            lookup_run(session_id, repository, cwd, remote, log, at),
            lookup_run(session_id, repository, cwd, remote, log.take(n), at),
            log,
            at,
            n,
        ),
        yields(
            lookup_run(session_id, repository, cwd, remote, log, at),
            lookup_run(session_id, repository, cwd, remote, log.take(n), at),
            log,
            n,
        ),
{
    if let Ok(branch) = context_text(repository, "branch"@) {
        let args = view_args(branch, status_fields());
        let view = program_run(Program::Gh, cwd, args, log, at);
        tame_program(Program::Gh, cwd, args, log, at, n);
        match view.outcome {
            Ok(raw) => {
                tame_looked_up(
                    Ok(raw),
                    session_id,
                    remote,
                    branch,
                    log,
                    view.at,
                    cut(log, view.at, n),
                );
            },
            Err(HaltView::Fail(error)) => {
                tame_looked_up(
                    Err(error),
                    session_id,
                    remote,
                    branch,
                    log,
                    view.at,
                    cut(log, view.at, n),
                );
            },
            _ => {},
        }
    }
}

pub(crate) proof fn tame_status(
    params: JsonView,
    log: Seq<ReplyView>,
    at: int,
    n: int,
)
    requires
        within(log, at, n),
    ensures
        tame(status_run(params, log, at), status_run(params, log.take(n), at), log, at, n),
        yields(status_run(params, log, at), status_run(params, log.take(n), at), log, n),
{
    reveal(status_run);
    let context = context_run(params, log, at);
    tame_context(params, log, at, n);
    if let Ok(repository) = context.outcome {
        if let Ok(cwd) = context_directory(repository) {
            let shown = program_run(Program::Git, cwd, remote_args(), log, context.at);
            tame_program(
                Program::Git,
                cwd,
                remote_args(),
                log,
                context.at,
                cut(log, context.at, n),
            );
            if let Ok(remote) = shown.outcome {
                if let Ok(session_id) = required(params, "session_id"@) {
                    tame_lookup(
                        session_id,
                        repository,
                        cwd,
                        remote,
                        log,
                        shown.at,
                        cut(log, shown.at, n),
                    );
                }
            }
        }
    }
}

pub(crate) proof fn tame_checkout(
    params: JsonView,
    log: Seq<ReplyView>,
    at: int,
    n: int,
)
    requires
        within(log, at, n),
    ensures
        tame(checkout_run(params, log, at), checkout_run(params, log.take(n), at), log, at, n),
        yields(checkout_run(params, log, at), checkout_run(params, log.take(n), at), log, n),
{
    tame_context(params, log, at, n);
}

proof fn tame_defaults(
    params: JsonView,
    log: Seq<ReplyView>,
    at: int,
    n: int,
)
    requires
        within(log, at, n),
    ensures
        tame(defaults_run(params, log, at), defaults_run(params, log.take(n), at), log, at, n),
        at == n || !(log[n - 1] is Host) ==> yields(
            defaults_run(params, log, at),
            defaults_run(params, log.take(n), at),
            log,
            n,
        ),
{
    let place = checkout_run(params, log, at);
    tame_checkout(params, log, at, n);
    if let Ok(found) = place.outcome {
        tame_program(
            Program::Git,
            found.cwd,
            diff_args(base_branch(found.repository)),
            log,
            place.at,
            cut(log, place.at, n),
        );
    }
}

proof fn tame_created(
    params: JsonView,
    place: CheckoutView,
    draft: bool,
    printed_url: Seq<char>,
    log: Seq<ReplyView>,
    at: int,
    n: int,
)
    requires
        within(log, at, n),
    ensures
        tame_but_for_url(
            created_run(params, place, draft, printed_url, log, at),
            created_run(params, place, draft, printed_url, log.take(n), at),
            log,
            at,
            n,
        ),
        yields(
            created_run(params, place, draft, printed_url, log, at),
            created_run(params, place, draft, printed_url, log.take(n), at),
            log,
            n,
        ),
{
    lemma_states();
    let shown = program_run(Program::Git, place.cwd, remote_args(), log, at);
    tame_program(Program::Git, place.cwd, remote_args(), log, at, n);
    if let Ok(remote) = shown.outcome {
        if let Ok(session_id) = required(params, "session_id"@) {
            tame_persist(
                session_id,
                trimmed(printed_url),
                if draft {
                    "draft"@
                } else {
                    "open"@
                },
                Some(trimmed(remote)),
                Some(place.branch),
                log,
                shown.at,
                cut(log, shown.at, n),
            );
        }
    }
}

proof fn tame_create(
    params: JsonView,
    log: Seq<ReplyView>,
    at: int,
    n: int,
)
    requires
        within(log, at, n),
    ensures
        tame_but_for_url(create_run(params, log, at), create_run(params, log.take(n), at), log, at, n),
        yields(create_run(params, log, at), create_run(params, log.take(n), at), log, n),
{
    let place = checkout_run(params, log, at);
    tame_checkout(params, log, at, n);
    if let Ok(found) = place.outcome {
        if let Ok(draft) = drafted(params) {
            let push = program_run(Program::Git, found.cwd, push_args(found.branch), log, place.at);
            tame_program(
                Program::Git,
                found.cwd,
                push_args(found.branch),
                log,
                place.at,
                cut(log, place.at, n),
            );
            if push.outcome is Ok {
                let args = create_args(draft.title, draft.body, draft.base, draft.draft);
                let create = program_run(Program::Gh, found.cwd, args, log, push.at);
                tame_program(Program::Gh, found.cwd, args, log, push.at, cut(log, push.at, n));
                if let Ok(printed_url) = create.outcome {
                    tame_created(
                        params,
                        found,
                        draft.draft,
                        printed_url,
                        log,
                        create.at,
                        cut(log, create.at, n),
                    );
                }
            }
        }
    }
}

proof fn tame_link(
    params: JsonView,
    url: Seq<char>,
    state: Seq<char>,
    remote: Option<Seq<char>>,
    branch: Option<Seq<char>>,
    projected: JsonView,
    log: Seq<ReplyView>,
    at: int,
    n: int,
)
    requires
        within(log, at, n),
        !blank(url),
        !blank(state),
    ensures
        tame(
            link_run(params, url, state, remote, branch, projected, log, at),
            link_run(params, url, state, remote, branch, projected, log.take(n), at),
            log,
            at,
            n,
        ),
        yields(
            link_run(params, url, state, remote, branch, projected, log, at),
            link_run(params, url, state, remote, branch, projected, log.take(n), at),
            log,
            n,
        ),
{
    if let Ok(session_id) = required(params, "session_id"@) {
        tame_persist(session_id, url, state, remote, branch, log, at, n);
    }
}

proof fn tame_linked(
    parsed: Result<JsonView, Seq<char>>,
    params: JsonView,
    repository: JsonView,
    cwd: Seq<char>,
    log: Seq<ReplyView>,
    at: int,
    n: int,
)
    requires
        within(log, at, n),
    ensures
        tame(
            linked_run(parsed, params, repository, cwd, log, at),
            linked_run(parsed, params, repository, cwd, log.take(n), at),
            log,
            at,
            n,
        ),
        at < n ==> yields(
            linked_run(parsed, params, repository, cwd, log, at),
            linked_run(parsed, params, repository, cwd, log.take(n), at),
            log,
            n,
        ),
{
    if let Ok(pr) = parsed {
        let status = projected_status(pr);
        if let Some(url) = strict_text(status.field("url"@)) {
            if let Some(state) = strict_text(status.field("state"@)) {
                let branch = strict_text(repository.field("branch"@));
                let shown = program_run(Program::Git, cwd, remote_args(), log, at);
                tame_program(Program::Git, cwd, remote_args(), log, at, n);
                match shown.outcome {
                    Ok(remote) => {
                        tame_link(
                            params,
                            url,
                            state,
                            known_remote(Ok(remote)),
                            branch,
                            status,
                            log,
                            shown.at,
                            cut(log, shown.at, n),
                        );
                    },
                    Err(HaltView::Fail(error)) => {
                        tame_link(
                            params,
                            url,
                            state,
                            known_remote(Err(error)),
                            branch,
                            status,
                            log,
                            shown.at,
                            cut(log, shown.at, n),
                        );
                    },
                    _ => {},
                }
            }
        }
    }
}

proof fn tame_link_request(
    params: JsonView,
    log: Seq<ReplyView>,
    at: int,
    n: int,
)
    requires
        within(log, at, n),
    ensures
        tame(
            link_request_run(params, log, at),
            link_request_run(params, log.take(n), at),
            log,
            at,
            n,
        ),
        at == n || !(log[n - 1] is Output) ==> yields(
            link_request_run(params, log, at),
            link_request_run(params, log.take(n), at),
            log,
            n,
        ),
{
    let context = context_run(params, log, at);
    tame_context(params, log, at, n);
    if let Ok(repository) = context.outcome {
        if let Ok(cwd) = context_directory(repository) {
            if let Ok(url) = required(params, "url"@) {
                let args = view_args(url, "url,state,isDraft"@);
                let view = program_run(Program::Gh, cwd, args, log, context.at);
                tame_program(Program::Gh, cwd, args, log, context.at, cut(log, context.at, n));
                if let Ok(raw) = view.outcome {
                    tame_linked(
                        parsed_text(raw),
                        params,
                        repository,
                        cwd,
                        log,
                        view.at,
                        cut(log, view.at, n),
                    );
                }
            }
        }
    }
}

proof fn tame_merged(
    params: JsonView,
    url: Seq<char>,
    remote: Seq<char>,
    branch: Seq<char>,
    log: Seq<ReplyView>,
    at: int,
    n: int,
)
    requires
        within(log, at, n),
        !blank(url),
    ensures
        tame(
            merged_run(params, url, remote, branch, log, at),
            merged_run(params, url, remote, branch, log.take(n), at),
            log,
            at,
            n,
        ),
        yields(
            merged_run(params, url, remote, branch, log, at),
            merged_run(params, url, remote, branch, log.take(n), at),
            log,
            n,
        ),
{
    lemma_states();
    if let Ok(session_id) = required(params, "session_id"@) {
        tame_persist(session_id, url, "merged"@, Some(trimmed(remote)), Some(branch), log, at, n);
    }
}

proof fn tame_merge_viewed(
    parsed: Result<JsonView, Seq<char>>,
    params: JsonView,
    place: CheckoutView,
    flag: Seq<char>,
    log: Seq<ReplyView>,
    at: int,
    n: int,
)
    requires
        within(log, at, n),
    ensures
        tame(
            merge_viewed_run(parsed, params, place, flag, log, at),
            merge_viewed_run(parsed, params, place, flag, log.take(n), at),
            log,
            at,
            n,
        ),
        yields(
            merge_viewed_run(parsed, params, place, flag, log, at),
            merge_viewed_run(parsed, params, place, flag, log.take(n), at),
            log,
            n,
        ),
{
    if let Ok(pr) = parsed {
        if let Some(url) = strict_text(pr.field("url"@)) {
            let shown = program_run(Program::Git, place.cwd, remote_args(), log, at);
            tame_program(Program::Git, place.cwd, remote_args(), log, at, n);
            if let Ok(remote) = shown.outcome {
                let args = merge_args(place.branch, flag);
                let merge = program_run(Program::Gh, place.cwd, args, log, shown.at);
                tame_program(Program::Gh, place.cwd, args, log, shown.at, cut(log, shown.at, n));
                if merge.outcome is Ok {
                    tame_merged(
                        params,
                        url,
                        remote,
                        place.branch,
                        log,
                        merge.at,
                        cut(log, merge.at, n),
                    );
                }
            }
        }
    }
}

proof fn tame_merge(
    params: JsonView,
    log: Seq<ReplyView>,
    at: int,
    n: int,
)
    requires
        within(log, at, n),
    ensures
        tame(merge_run(params, log, at), merge_run(params, log.take(n), at), log, at, n),
        yields(merge_run(params, log, at), merge_run(params, log.take(n), at), log, n),
{
    let place = checkout_run(params, log, at);
    tame_checkout(params, log, at, n);
    if let Ok(found) = place.outcome {
        if let Ok(flag) = merge_flag(params.text_at("strategy"@)) {
            let args = view_args(found.branch, "url"@);
            let view = program_run(Program::Gh, found.cwd, args, log, place.at);
            tame_program(Program::Gh, found.cwd, args, log, place.at, cut(log, place.at, n));
            if let Ok(raw) = view.outcome {
                tame_merge_viewed(
                    parsed_text(raw),
                    params,
                    found,
                    flag,
                    log,
                    view.at,
                    cut(log, view.at, n),
                );
            }
        }
    }
}

proof fn tame_ready(
    params: JsonView,
    log: Seq<ReplyView>,
    at: int,
    n: int,
)
    requires
        within(log, at, n),
    ensures
        tame(ready_run(params, log, at), ready_run(params, log.take(n), at), log, at, n),
        yields(ready_run(params, log, at), ready_run(params, log.take(n), at), log, n),
{
    let place = checkout_run(params, log, at);
    tame_checkout(params, log, at, n);
    if let Ok(found) = place.outcome {
        tame_program(
            Program::Gh,
            found.cwd,
            ready_args(found.branch),
            log,
            place.at,
            cut(log, place.at, n),
        );
    }
}

proof fn tame_logs(
    params: JsonView,
    log: Seq<ReplyView>,
    at: int,
    n: int,
)
    requires
        within(log, at, n),
    ensures
        tame(logs_run(params, log, at), logs_run(params, log.take(n), at), log, at, n),
        yields(logs_run(params, log, at), logs_run(params, log.take(n), at), log, n),
{
    let place = checkout_run(params, log, at);
    tame_checkout(params, log, at, n);
    if let Ok(found) = place.outcome {
        let args = view_args(found.branch, "statusCheckRollup"@);
        let view = program_run(Program::Gh, found.cwd, args, log, place.at);
        tame_program(Program::Gh, found.cwd, args, log, place.at, cut(log, place.at, n));
        if let Ok(raw) = view.outcome {
            if let Ok(status) = parsed_text(raw) {
                if let Ok(run_id) = failed_id(status) {
                    tame_program(
                        Program::Gh,
                        found.cwd,
                        log_args(run_id),
                        log,
                        view.at,
                        cut(log, view.at, n),
                    );
                }
            }
        }
    }
}

/// The outcome of a sweep, without the count.
pub open spec fn swept_run(swept: Swept) -> Run<()> {
    Run { outcome: swept.outcome, at: swept.at }
}

proof fn tame_sweep(sessions: Seq<JsonView>, checked: u64, log: Seq<ReplyView>, at: int, n: int)
    requires
        within(log, at, n),
    ensures
        tame(
            swept_run(sweep_run(sessions, checked, log, at)),
            swept_run(sweep_run(sessions, checked, log.take(n), at)),
            log,
            at,
            n,
        ),
        !asks(swept_run(sweep_run(sessions, checked, log.take(n), at))) ==> sweep_run(
            sessions,
            checked,
            log.take(n),
            at,
        ) == sweep_run(sessions, checked, log, at),
        yields(
            swept_run(sweep_run(sessions, checked, log, at)),
            swept_run(sweep_run(sessions, checked, log.take(n), at)),
            log,
            n,
        ),
    decreases sessions.len(),
{
    if sessions.len() > 0 {
        let go = check_run(log, at);
        tame_check(log, at, n);
        if go.outcome is Ok {
            let rest = sessions.drop_first();
            match active_id(sessions.first()) {
                None => {
                    tame_sweep(rest, checked, log, go.at, cut(log, go.at, n));
                },
                Some(session_id) => {
                    let shown = status_run(session_params(session_id), log, go.at);
                    tame_status(session_params(session_id), log, go.at, cut(log, go.at, n));
                    if shown.outcome is Ok {
                        tame_sweep(
                            rest,
                            (checked + 1) as u64,
                            log,
                            shown.at,
                            cut(log, shown.at, n),
                        );
                    }
                },
            }
        }
    }
}

pub(crate) proof fn tame_work(log: Seq<ReplyView>, at: int, n: int)
    requires
        within(log, at, n),
    ensures
        tame(swept_run(work_run(log, at)), swept_run(work_run(log.take(n), at)), log, at, n),
        !asks(swept_run(work_run(log.take(n), at))) ==> work_run(log.take(n), at) == work_run(log, at),
        yields(swept_run(work_run(log, at)), swept_run(work_run(log.take(n), at)), log, n),
{
    reveal(work_run);
    let listed = host_run(
        "github-sessions"@,
        "host.sessions.list"@,
        JsonView::Null,
        false,
        log,
        at,
    );
    tame_host("github-sessions"@, "host.sessions.list"@, JsonView::Null, false, log, at, n);
    if let Ok(sessions) = listed.outcome {
        tame_sweep(sessions.items_at("sessions"@), 0, log, listed.at, cut(log, listed.at, n));
    }
}

proof fn tame_fail(
    attempt_id: Seq<char>,
    error: ErrorView,
    checked: u64,
    finished_at: u64,
    log: Seq<ReplyView>,
    at: int,
    n: int,
)
    requires
        within(log, at, n),
    ensures
        tame(
            fail_run(attempt_id, error, checked, finished_at, log, at),
            fail_run(attempt_id, error, checked, finished_at, log.take(n), at),
            log,
            at,
            n,
        ),
{
    tame_finish(
        true,
        attempt_id,
        "failed"@,
        checked,
        finished_at,
        Some(described(error)),
        log,
        at,
        n,
    );
}

proof fn tame_succeed(
    attempt_id: Seq<char>,
    checked: u64,
    finished_at: u64,
    log: Seq<ReplyView>,
    at: int,
    n: int,
)
    requires
        within(log, at, n),
    ensures
        tame(
            succeed_run(attempt_id, checked, finished_at, log, at),
            succeed_run(attempt_id, checked, finished_at, log.take(n), at),
            log,
            at,
            n,
        ),
{
    let written = finish_run(false, attempt_id, "idle"@, checked, finished_at, None, log, at);
    tame_finish(false, attempt_id, "idle"@, checked, finished_at, None, log, at, n);
    if let Err(HaltView::Fail(error)) = written.outcome {
        tame_fail(
            attempt_id,
            error,
            checked,
            finished_at,
            log,
            written.at,
            cut(log, written.at, n),
        );
    }
}

proof fn tame_settle(
    attempt_id: Seq<char>,
    work: Result<(), ErrorView>,
    checked: u64,
    finished_at: u64,
    log: Seq<ReplyView>,
    at: int,
    n: int,
)
    requires
        within(log, at, n),
    ensures
        tame(
            settle_run(attempt_id, work, checked, finished_at, log, at),
            settle_run(attempt_id, work, checked, finished_at, log.take(n), at),
            log,
            at,
            n,
        ),
{
    match work {
        Ok(_) => {
            let flag = cancelled_run(log, at);
            tame_cancelled(log, at, n);
            if let Ok(cancelled) = flag.outcome {
                let m = cut(log, flag.at, n);
                if cancelled {
                    tame_fail(
                        attempt_id,
                        ErrorView::Cancelled,
                        checked,
                        finished_at,
                        log,
                        flag.at,
                        m,
                    );
                } else {
                    tame_succeed(attempt_id, checked, finished_at, log, flag.at, m);
                }
            }
        },
        Err(error) => {
            tame_fail(attempt_id, error, checked, finished_at, log, at, n);
        },
    }
}

proof fn tame_attempt(
    attempt_id: Seq<char>,
    started_at: u64,
    log: Seq<ReplyView>,
    at: int,
    n: int,
)
    requires
        within(log, at, n),
        named(attempt_id, started_at),
    ensures
        tame(
            attempt_run(attempt_id, started_at, log, at),
            attempt_run(attempt_id, started_at, log.take(n), at),
            log,
            at,
            n,
        ),
{
    let begin = begin_run(attempt_id, started_at, log, at);
    tame_begin(attempt_id, started_at, log, at, n);
    if begin.outcome is Ok {
        let swept = work_run(log, begin.at);
        tame_work(log, begin.at, cut(log, begin.at, n));
        match swept.outcome {
            Err(HaltView::Ask(_)) | Err(HaltView::Stray) => {},
            _ => {
                let work: Result<(), ErrorView> = match swept.outcome {
                    Ok(_) => Ok(()),
                    Err(HaltView::Fail(error)) => Err(error),
                    _ => Ok(()),
                };
                let clock = clock_run(log, swept.at);
                tame_clock(log, swept.at, cut(log, swept.at, n));
                if let Ok(finished_at) = clock.outcome {
                    tame_settle(
                        attempt_id,
                        work,
                        swept.checked,
                        finished_at,
                        log,
                        clock.at,
                        cut(log, clock.at, n),
                    );
                }
            },
        }
    }
}

proof fn tame_reconcile(
    log: Seq<ReplyView>,
    at: int,
    n: int,
)
    requires
        within(log, at, n),
    ensures
        tame(reconcile_run(log, at), reconcile_run(log.take(n), at), log, at, n),
{
    let lock = lock_run(log, at);
    tame_lock(log, at, n);
    if lock.outcome == Ok::<bool, HaltView>(true) {
        let checked = check_run(log, lock.at);
        tame_check(log, lock.at, cut(log, lock.at, n));
        if checked.outcome is Ok {
            let clock = clock_run(log, checked.at);
            tame_clock(log, checked.at, cut(log, checked.at, n));
            if let Ok(started_at) = clock.outcome {
                let number = sequence_run(log, clock.at);
                tame_sequence(log, clock.at, cut(log, clock.at, n));
                if let Ok(sequence) = number.outcome {
                    tame_attempt(
                        attempt_name(started_at, sequence),
                        started_at,
                        log,
                        number.at,
                        cut(log, number.at, n),
                    );
                }
            }
        }
    }
}

proof fn tame_method(
    method: Seq<char>,
    params: JsonView,
    log: Seq<ReplyView>,
    at: int,
    n: int,
)
    requires
        within(log, at, n),
    ensures
        ({
            let whole = method_run(method, params, log, at);
            let part = method_run(method, params, log.take(n), at);
            &&& tame_but_for_url(whole, part, log, at, n)
            &&& method != "github.create"@ ==> tame(whole, part, log, at, n)
        }),
{
    if method == "plugin.handshake"@ || method == "plugin.shutdown"@ {
    } else if method == "github.status"@ {
        tame_status(params, log, at, n);
    } else if method == "github.defaults"@ {
        tame_defaults(params, log, at, n);
    } else if method == "github.create"@ {
        tame_create(params, log, at, n);
    } else if method == "github.link"@ {
        tame_link_request(params, log, at, n);
    } else if method == "github.merge"@ {
        tame_merge(params, log, at, n);
    } else if method == "github.markReady"@ {
        tame_ready(params, log, at, n);
    } else if method == "github.failureLogs"@ {
        tame_logs(params, log, at, n);
    } else if method == "github.reconcile"@ {
        tame_reconcile(log, at, n);
    }
}

proof fn tame_request(
    method: Seq<char>,
    params: JsonView,
    log: Seq<ReplyView>,
    at: int,
    n: int,
)
    requires
        within(log, at, n),
    ensures
        ({
            let whole = request_run(method, params, log, at);
            let part = request_run(method, params, log.take(n), at);
            &&& tame_but_for_url(whole, part, log, at, n)
            &&& method != "github.create"@ ==> tame(whole, part, log, at, n)
        }),
{
    let checked = check_run(log, at);
    tame_check(log, at, n);
    if checked.outcome is Ok {
        tame_method(method, params, log, checked.at, cut(log, checked.at, n));
    }
}

/// A request asks the host about nothing but sessions and the plugin's own namespace of the
/// settings, and runs nothing but the listed commands of `git` and `gh`. It patches nothing but
/// that namespace: it starts an empty document, records mappings that can be used and hold no
/// credentials, takes them away, and writes down how its own attempts start and end. The one
/// exception is `github.create`, which also records a URL that `gh` printed and that is blank.
pub proof fn law_requests_stay_in_bounds(method: Seq<char>, params: JsonView, log: Seq<ReplyView>)
    ensures
        next_step(method, params, log) matches StepView::Ask(action) ==> in_bounds(action) || (method
            == "github.create"@ && records_blank_url(action)),
{
    tame_request(method, params, log, 0, log.len() as int);
}

/// Whether each reply on record answers the action that the request asked for with the replies
/// before it.
pub open spec fn answered_in_turn(method: Seq<char>, params: JsonView, log: Seq<ReplyView>) -> bool {
    forall|i: int|
        0 <= i < log.len() ==> (next_step(method, params, #[trigger] log.take(i)) matches StepView::Ask(
            action,
        ) ==> answers(action, log[i]))
}

/// A request whose actions are answered in turn never goes astray.
pub proof fn law_answered_requests_never_go_astray(
    method: Seq<char>,
    params: JsonView,
    log: Seq<ReplyView>,
)
    requires
        answered_in_turn(method, params, log),
    ensures
        !(next_step(method, params, log) is Stray),
{
    let whole = request_run(method, params, log, 0);
    tame_request(method, params, log, 0, log.len() as int);
    if whole.outcome == Err::<JsonView, HaltView>(HaltView::Stray) {
        let n = whole.at - 1;
        tame_request(method, params, log, 0, n);
        assert(next_step(method, params, log.take(n)) is Ask);
    }
}

/// A request that has ended stays ended, in the same way, whatever else is put on record.
pub proof fn law_ended_requests_stay_ended(
    method: Seq<char>,
    params: JsonView,
    log: Seq<ReplyView>,
    more: Seq<ReplyView>,
)
    requires
        !(next_step(method, params, log) is Ask),
    ensures
        next_step(method, params, log + more) == next_step(method, params, log),
{
    let whole = log + more;
    let n = log.len() as int;
    assert(whole.take(n) =~= log);
    tame_request(method, params, whole, 0, n);
}

/// A request that waits for a reply has waited for every reply before it.
pub proof fn law_requests_wait_for_each_reply(
    method: Seq<char>,
    params: JsonView,
    log: Seq<ReplyView>,
    n: int,
)
    requires
        next_step(method, params, log) is Ask,
        0 <= n <= log.len(),
    ensures
        next_step(method, params, log.take(n)) is Ask,
{
    tame_request(method, params, log, 0, n);
    assert(log.take(log.len() as int) =~= log);
}

/// A request that checks for cancellation, and learns of it, ends as cancelled. This leaves out
/// `github.defaults` behind the reply of the host and `github.link` behind the output of `gh`:
/// there they go on without the output of a `git` that was not run. And it leaves out
/// `github.reconcile`, which has a law of its own, as it may have to write down that it failed.
pub proof fn law_cancellation_ends_requests(
    method: Seq<char>,
    params: JsonView,
    log: Seq<ReplyView>,
)
    requires
        next_step(method, params, log) == StepView::Ask(ActionView::CheckCancelled),
        method == "github.defaults"@ && log.len() > 0 ==> !(log.last() is Host),
        method == "github.link"@ && log.len() > 0 ==> !(log.last() is Output),
        method != "github.reconcile"@,
    ensures
        next_step(method, params, log.push(ReplyView::Cancelled(true))) == StepView::Finished(
            Err::<JsonView, ErrorView>(ErrorView::Cancelled),
        ),
{
    let whole = log.push(ReplyView::Cancelled(true));
    let n = log.len() as int;
    assert(whole.take(n) =~= log);
    let checked = check_run(whole, 0);
    tame_check(whole, 0, n);
    if checked.outcome is Ok && checked.at <= n {
        let at = checked.at;
        if method == "github.status"@ {
            tame_status(params, whole, at, n);
        } else if method == "github.defaults"@ {
            tame_defaults(params, whole, at, n);
        } else if method == "github.create"@ {
            tame_create(params, whole, at, n);
        } else if method == "github.link"@ {
            tame_link_request(params, whole, at, n);
        } else if method == "github.merge"@ {
            tame_merge(params, whole, at, n);
        } else if method == "github.markReady"@ {
            tame_ready(params, whole, at, n);
        } else if method == "github.failureLogs"@ {
            tame_logs(params, whole, at, n);
        }
    }
}

/// A request that was cancelled before it starts does nothing.
pub proof fn law_cancelled_requests_do_not_start(
    method: Seq<char>,
    params: JsonView,
    log: Seq<ReplyView>,
)
    requires
        log.len() > 0,
        log[0] == ReplyView::Cancelled(true),
    ensures
        next_step(method, params, log) == StepView::Finished(
            Err::<JsonView, ErrorView>(ErrorView::Cancelled),
        ),
{
}

} // verus!
