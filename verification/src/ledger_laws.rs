//! What holds of reconciliation as a whole.

use vstd::prelude::*;
use crate::dispatch::{StepView, law_each_method_has_its_handler, next_step};
use crate::error::{ErrorView, described};
use crate::exchange::{
    ActionView, HaltView, ReplyView, cancelled_run, check_run, check_unless_run, clock_run,
    lock_run, sequence_run,
};
use crate::json::JsonView;
use crate::laws::{confirmed, lemma_host_methods, lemma_patch_confirmed, written};
use crate::reconcile::{Swept, attempt_name, reconcile_run, report, work_run};
use crate::replay::{
    tame_begin, tame_cancelled, tame_check, tame_check_unless, tame_clock, tame_ensure, tame_finish,
    tame_ledger, tame_lock, tame_work, writes,
};
use crate::settings::{
    begin_run, ensure_run, finish_run, ledger_patch, ledger_run, patch_run, read_request,
};
use crate::state::{begin_patch, begun, ended, finish_patch, runs, settings_value};

verus! {

/// Whether an action turns to sessions: it lists them, asks about the repository of one, or runs a
/// program.
pub open spec fn turns_to_sessions(action: ActionView) -> bool {
    match action {
        ActionView::Run { program, cwd, args } => true,
        ActionView::HostCall { id, method, params, allow_cancelled } => method == "host.sessions.list"@
            || method == "host.sessions.repositoryContext"@,
        _ => false,
    }
}

/// What `github.reconcile` does next, once it has checked for cancellation.
pub(crate) proof fn lemma_reconcile_name(params: JsonView, log: Seq<ReplyView>)
    ensures
        next_step("github.reconcile"@, params, log) == (match check_run(log, 0).outcome {
            Err(HaltView::Fail(error)) => StepView::Finished(Err::<JsonView, ErrorView>(error)),
            Err(HaltView::Ask(action)) => StepView::Ask(action),
            Err(HaltView::Stray) => StepView::Stray,
            Ok(_) => match reconcile_run(log, check_run(log, 0).at).outcome {
                Ok(shown) => StepView::Finished(Ok(shown)),
                Err(HaltView::Fail(error)) => StepView::Finished(Err(error)),
                Err(HaltView::Ask(action)) => StepView::Ask(action),
                Err(HaltView::Stray) => StepView::Stray,
            },
        }),
{
    law_each_method_has_its_handler(params, log, check_run(log, 0).at);
}

/// An attempt: when it started, its number, and how many replies came before it.
pub struct Attempt {
    pub started_at: u64,
    pub number: u64,
    pub at: int,
}

/// What an attempt is called.
pub open spec fn name_of(attempt: Attempt) -> Seq<char> {
    attempt_name(attempt.started_at, attempt.number)
}

/// The attempt that a record tells of, where one is under way.
pub open spec fn attempt_of(log: Seq<ReplyView>) -> Attempt {
    let checked = check_run(log, 0);
    let lock = lock_run(log, checked.at);
    let again = check_run(log, lock.at);
    let clock = clock_run(log, again.at);
    let number = sequence_run(log, clock.at);
    Attempt { started_at: clock.outcome->Ok_0, number: number.outcome->Ok_0, at: number.at }
}

/// Whether an attempt is the one that is under way on a record.
pub open spec fn under_way(log: Seq<ReplyView>, attempt: Attempt) -> bool {
    let checked = check_run(log, 0);
    let lock = lock_run(log, checked.at);
    let again = check_run(log, lock.at);
    let clock = clock_run(log, again.at);
    let number = sequence_run(log, clock.at);
    &&& checked.outcome is Ok
    &&& lock.outcome == Ok::<bool, HaltView>(true)
    &&& again.outcome is Ok
    &&& clock.outcome == Ok::<u64, HaltView>(attempt.started_at)
    &&& number.outcome == Ok::<u64, HaltView>(attempt.number)
    &&& number.at == attempt.at
    &&& 0 <= attempt.at <= log.len()
}

/// Whether an action reads the ledger.
pub open spec fn reads_ledger(action: ActionView) -> bool {
    action matches ActionView::HostCall { id, method, params, allow_cancelled } && method
        == "host.settings.get"@ && params == read_request("reconciliation"@)
}

/// Whether a reply of the host holds the ledger.
pub open spec fn holds_ledger(reply: ReplyView, ledger: JsonView) -> bool {
    reply matches ReplyView::Host(result) && (result matches Ok(response) && settings_value(response) == Ok::<
        JsonView,
        ErrorView,
    >(ledger))
}

/// Whether a reconciliation asked for the ledger with the first `i` replies on record, and the
/// host replied with `ledger`.
pub open spec fn read_ledger(params: JsonView, log: Seq<ReplyView>, i: int, ledger: JsonView) -> bool {
    &&& 0 <= i < log.len()
    &&& next_step("github.reconcile"@, params, log.take(i)) matches StepView::Ask(action)
        && reads_ledger(action)
    &&& holds_ledger(log[i], ledger)
}

/// Whether the host confirmed that an attempt is written down as running, over the ledger that the
/// host had replied with.
pub open spec fn written_as_running(params: JsonView, log: Seq<ReplyView>, attempt: Attempt) -> bool {
    exists|j: int, i: int, ledger: JsonView|
        {
            &&& #[trigger] read_ledger(params, log, j, ledger)
            &&& attempt.at <= j < i
            &&& #[trigger] written(
                "github.reconcile"@,
                params,
                log,
                i,
                ledger_patch(
                    JsonView::Object(begin_patch(ledger, name_of(attempt), attempt.started_at)),
                ),
            )
        }
}

/// What the work of an attempt came to.
pub open spec fn work_of(log: Seq<ReplyView>, attempt: Attempt) -> Swept {
    work_run(log, begin_run(name_of(attempt), attempt.started_at, log, attempt.at).at)
}

/// When the work of an attempt ended.
pub open spec fn finish_of(log: Seq<ReplyView>, attempt: Attempt) -> u64 {
    clock_run(log, work_of(log, attempt).at).outcome->Ok_0
}

/// Why an attempt failed, and how many replies came before it turns to writing this down: its work
/// failed, or it was cancelled when the work was done, or it could not write down that it
/// succeeded.
pub open spec fn failure_of(log: Seq<ReplyView>, attempt: Attempt) -> (ErrorView, int) {
    let swept = work_of(log, attempt);
    let clock = clock_run(log, swept.at);
    match swept.outcome {
        Err(halt) => (halt->Fail_0, clock.at),
        Ok(_) => {
            let flag = cancelled_run(log, clock.at);
            if flag.outcome == Ok::<bool, HaltView>(true) {
                (ErrorView::Cancelled, flag.at)
            } else {
                let idle = finish_run(
                    false,
                    name_of(attempt),
                    "idle"@,
                    swept.checked,
                    finish_of(log, attempt),
                    None,
                    log,
                    flag.at,
                );
                (idle.outcome->Err_0->Fail_0, idle.at)
            }
        },
    }
}

/// What comes before an attempt is the same on a longer record.
pub(crate) proof fn lemma_under_way(log: Seq<ReplyView>, n: int, start: Attempt)
    requires
        0 <= n <= log.len(),
    ensures
        under_way(log.take(n), start) ==> under_way(log, start),
        under_way(log, start) && start.at <= n ==> under_way(log.take(n), start),
{
    let early = log.take(n);
    if under_way(early, start) {
        tame_check(log, 0, n);
        let checked = check_run(early, 0);
        tame_lock(log, checked.at, n);
        let lock = lock_run(early, checked.at);
        tame_check(log, lock.at, n);
        let again = check_run(early, lock.at);
        tame_clock(log, again.at, n);
    }
    if under_way(log, start) && start.at <= n {
        let end = log.len() as int;
        tame_check(log, 0, end);
        let checked = check_run(log, 0);
        tame_lock(log, checked.at, end);
        let lock = lock_run(log, checked.at);
        tame_check(log, lock.at, end);
        let again = check_run(log, lock.at);
        tame_clock(log, again.at, end);
        tame_check(log, 0, n);
        tame_lock(log, checked.at, n);
        tame_check(log, lock.at, n);
        tame_clock(log, again.at, n);
    }
}

/// The attempt that is under way, once a session is turned to or the request reports.
pub(crate) proof fn lemma_start(params: JsonView, log: Seq<ReplyView>) -> (start: Attempt)
    requires
        match next_step("github.reconcile"@, params, log) {
            StepView::Ask(action) => turns_to_sessions(action),
            StepView::Finished(result) => result is Ok,
            StepView::Stray => false,
        },
    ensures
        under_way(log, start),
        begin_run(name_of(start), start.started_at, log, start.at).outcome is Ok,
{
    lemma_reconcile_name(params, log);
    lemma_host_methods();
    let end = log.len() as int;
    let checked = check_run(log, 0);
    tame_check(log, 0, end);
    let lock = lock_run(log, checked.at);
    tame_lock(log, checked.at, end);
    let again = check_run(log, lock.at);
    tame_check(log, lock.at, end);
    let clock = clock_run(log, again.at);
    let number = sequence_run(log, clock.at);
    let start = Attempt {
        started_at: clock.outcome->Ok_0,
        number: number.outcome->Ok_0,
        at: number.at,
    };
    assert(under_way(log, start));
    lemma_begin_asks(name_of(start), start.started_at, log, start.at);
    start
}

/// Writing down that an attempt runs turns to no session.
proof fn lemma_begin_asks(attempt_id: Seq<char>, started_at: u64, log: Seq<ReplyView>, at: int)
    ensures
        begin_run(attempt_id, started_at, log, at).outcome matches Err(HaltView::Ask(action))
            ==> !turns_to_sessions(action),
{
    reveal(begin_run);
    lemma_host_methods();
    let read = ledger_run(false, log, at);
    lemma_ledger_asks(false, log, at);
    if let Ok(ledger) = read.outcome {
        if let Ok(patch) = begun(ledger, attempt_id, started_at) {
            lemma_patch_turns_to_none(ledger_patch(patch), false, log, read.at);
        }
    }
}

proof fn lemma_ledger_asks(allow: bool, log: Seq<ReplyView>, at: int)
    ensures
        ledger_run(allow, log, at).outcome matches Err(HaltView::Ask(action)) ==> !turns_to_sessions(
            action,
        ),
{
    reveal(ledger_run);
    reveal(ensure_run);
    lemma_host_methods();
}

proof fn lemma_patch_turns_to_none(patch: JsonView, allow: bool, log: Seq<ReplyView>, at: int)
    ensures
        patch_run(patch, allow, log, at).outcome matches Err(HaltView::Ask(action)) ==> !turns_to_sessions(
            action,
        ),
{
    reveal(patch_run);
    reveal(ensure_run);
    lemma_host_methods();
}

/// A reconciliation turns to sessions only once the host has confirmed that its attempt is written
/// down as running, over the ledger that the host had replied with.
pub proof fn law_attempts_are_written_down_first(
    params: JsonView,
    log: Seq<ReplyView>,
    action: ActionView,
)
    requires
        next_step("github.reconcile"@, params, log) == StepView::Ask(action),
        turns_to_sessions(action),
    ensures
        under_way(log, attempt_of(log)),
        written_as_running(params, log, attempt_of(log)),
{
    let start = lemma_start(params, log);
    assert(start == attempt_of(log));
    lemma_begin_confirmed(params, log, start);
}

/// A ledger that was read is what the host replied with.
pub(crate) proof fn lemma_ledger_reply(allow: bool, log: Seq<ReplyView>, at: int) -> (j: int)
    requires
        0 <= at <= log.len(),
        ledger_run(allow, log, at).outcome is Ok,
    ensures
        at <= j < log.len(),
        j + 1 == ledger_run(allow, log, at).at,
        holds_ledger(log[j], ledger_run(allow, log, at).outcome->Ok_0),
        ledger_run(allow, log.take(j), at).outcome matches Err(HaltView::Ask(action)) && reads_ledger(
            action,
        ),
{
    reveal(ledger_run);
    let end = log.len() as int;
    let ensured = ensure_run(allow, log, at);
    tame_ensure(allow, log, at, end);
    let checked = check_unless_run(allow, log, ensured.at);
    tame_check_unless(allow, log, ensured.at, end);
    let number = sequence_run(log, checked.at);
    let j = number.at;
    tame_ensure(allow, log, at, j);
    tame_check_unless(allow, log, ensured.at, j);
    j
}

/// An attempt that has begun has the host's word for it.
proof fn lemma_begin_confirmed(params: JsonView, log: Seq<ReplyView>, start: Attempt)
    requires
        under_way(log, start),
        begin_run(name_of(start), start.started_at, log, start.at).outcome is Ok,
    ensures
        written_as_running(params, log, start),
{
    reveal(begin_run);
    let end = log.len() as int;
    let read = ledger_run(false, log, start.at);
    tame_ledger(false, log, start.at, end);
    let ledger = read.outcome->Ok_0;
    let patch = begun(ledger, name_of(start), start.started_at)->Ok_0;
    let j = lemma_ledger_reply(false, log, start.at);
    lemma_under_way(log, j, start);
    lemma_reconcile_name(params, log.take(j));
    assert(read_ledger(params, log, j, ledger));
    let i = lemma_patch_confirmed(ledger_patch(patch), false, log, read.at);
    lemma_under_way(log, i, start);
    tame_ledger(false, log, start.at, i);
    lemma_reconcile_name(params, log.take(i));
    assert(written(
        "github.reconcile"@,
        params,
        log,
        i,
        ledger_patch(JsonView::Object(begin_patch(ledger, name_of(start), start.started_at))),
    ));
}

/// A reconciliation that checks for cancellation, and learns of it, ends as cancelled, unless the
/// host has confirmed that its attempt is written down as running.
pub proof fn law_cancellation_ends_reconciliations(params: JsonView, log: Seq<ReplyView>)
    requires
        next_step("github.reconcile"@, params, log) == StepView::Ask(ActionView::CheckCancelled),
        under_way(log, attempt_of(log)) ==> !written_as_running(params, log, attempt_of(log)),
    ensures
        next_step("github.reconcile"@, params, log.push(ReplyView::Cancelled(true)))
            == StepView::Finished(Err::<JsonView, ErrorView>(ErrorView::Cancelled)),
{
    let whole = log.push(ReplyView::Cancelled(true));
    let n = log.len() as int;
    let start = attempt_of(log);
    assert(whole.take(n) =~= log);
    lemma_reconcile_name(params, log);
    lemma_reconcile_name(params, whole);
    if under_way(log, start) {
        if begin_run(name_of(start), start.started_at, log, start.at).outcome is Ok {
            lemma_begin_confirmed(params, log, start);
        }
        lemma_under_way(whole, n, start);
        tame_begin(name_of(start), start.started_at, whole, start.at, n);
    } else {
        let checked = check_run(log, 0);
        tame_check(whole, 0, n);
        if checked.outcome is Ok {
            tame_lock(whole, checked.at, n);
            tame_check(whole, lock_run(log, checked.at).at, n);
        }
    }
}

/// An attempt that has written down how it ended has the host's word for it.
proof fn lemma_finish_confirmed(
    allow: bool,
    attempt_id: Seq<char>,
    status: Seq<char>,
    checked: u64,
    finished_at: u64,
    error: Option<Seq<char>>,
    log: Seq<ReplyView>,
    at: int,
) -> (i: int)
    requires
        0 <= at <= log.len(),
        finish_run(allow, attempt_id, status, checked, finished_at, error, log, at).outcome is Ok,
    ensures
        at <= i < log.len(),
        confirmed(log[i]),
        finish_run(allow, attempt_id, status, checked, finished_at, error, log.take(i), at).outcome matches Err(
            HaltView::Ask(action),
        ) && writes(
            action,
            ledger_patch(JsonView::Object(finish_patch(status, checked, finished_at, error))),
        ),
{
    reveal(finish_run);
    let end = log.len() as int;
    let read = ledger_run(allow, log, at);
    tame_ledger(allow, log, at, end);
    let patch = ended(read.outcome->Ok_0, attempt_id, status, checked, finished_at, error)->Ok_0;
    let i = lemma_patch_confirmed(ledger_patch(patch), allow, log, read.at);
    tame_ledger(allow, log, at, i);
    i
}

/// A reconciliation reports only once the host has confirmed that its attempt, which it had
/// confirmed as running, is written down as idle, with the count that is reported.
pub proof fn law_reported_attempts_are_written_down(
    params: JsonView,
    log: Seq<ReplyView>,
    shown: JsonView,
)
    requires
        next_step("github.reconcile"@, params, log) == StepView::Finished(
            Ok::<JsonView, ErrorView>(shown),
        ),
    ensures
        ({
            let attempt = attempt_of(log);
            let checked = work_of(log, attempt).checked;
            &&& under_way(log, attempt)
            &&& written_as_running(params, log, attempt)
            &&& shown == report(checked, name_of(attempt))
            &&& exists|i: int| #[trigger]
                written(
                    "github.reconcile"@,
                    params,
                    log,
                    i,
                    ledger_patch(
                        JsonView::Object(
                            finish_patch("idle"@, checked, finish_of(log, attempt), None),
                        ),
                    ),
                )
        }),
{
    let end = log.len() as int;
    let start = lemma_start(params, log);
    assert(start == attempt_of(log));
    lemma_begin_confirmed(params, log, start);
    lemma_reconcile_name(params, log);
    let begin = begin_run(name_of(start), start.started_at, log, start.at);
    tame_begin(name_of(start), start.started_at, log, start.at, end);
    let swept = work_run(log, begin.at);
    tame_work(log, begin.at, end);
    let clock = clock_run(log, swept.at);
    tame_clock(log, swept.at, end);
    let finished_at = clock.outcome->Ok_0;
    let flag = cancelled_run(log, clock.at);
    tame_cancelled(log, clock.at, end);
    assert(swept.outcome is Ok);
    assert(flag.outcome == Ok::<bool, HaltView>(false));
    let i = lemma_finish_confirmed(
        false,
        name_of(start),
        "idle"@,
        swept.checked,
        finished_at,
        None,
        log,
        flag.at,
    );
    lemma_under_way(log, i, start);
    tame_begin(name_of(start), start.started_at, log, start.at, i);
    tame_work(log, begin.at, i);
    tame_clock(log, swept.at, i);
    tame_cancelled(log, clock.at, i);
    lemma_reconcile_name(params, log.take(i));
    assert(written(
        "github.reconcile"@,
        params,
        log,
        i,
        ledger_patch(JsonView::Object(finish_patch("idle"@, swept.checked, finished_at, None))),
    ));
    assert(shown == report(swept.checked, name_of(start)));
}

/// A reconciliation that fails once it has turned to sessions, also by cancellation, has the
/// host's word that its attempt, which it had confirmed as running, is written down as failed, with
/// the first characters of the error. The one exception is that this attempt could not write down,
/// at the place where it turned to that, why it failed; the request then ends with the error of
/// the writing.
pub proof fn law_failed_attempts_are_written_down(
    params: JsonView,
    log: Seq<ReplyView>,
    n: int,
    action: ActionView,
    error: ErrorView,
)
    requires
        0 <= n <= log.len(),
        next_step("github.reconcile"@, params, log.take(n)) == StepView::Ask(action),
        turns_to_sessions(action),
        next_step("github.reconcile"@, params, log) == StepView::Finished(
            Err::<JsonView, ErrorView>(error),
        ),
    ensures
        ({
            let attempt = attempt_of(log);
            let checked = work_of(log, attempt).checked;
            let (cause, place) = failure_of(log, attempt);
            &&& under_way(log, attempt)
            &&& written_as_running(params, log, attempt)
            &&& {
                ||| cause == error && exists|i: int|
                    place <= i && #[trigger] written(
                        "github.reconcile"@,
                        params,
                        log,
                        i,
                        ledger_patch(
                            JsonView::Object(
                                finish_patch(
                                    "failed"@,
                                    checked,
                                    finish_of(log, attempt),
                                    Some(described(error)),
                                ),
                            ),
                        ),
                    )
                ||| finish_run(
                    true,
                    name_of(attempt),
                    "failed"@,
                    checked,
                    finish_of(log, attempt),
                    Some(described(cause)),
                    log,
                    place,
                ).outcome == Err::<(), HaltView>(HaltView::Fail(error))
            }
        }),
{
    let end = log.len() as int;
    let start = lemma_start(params, log.take(n));
    lemma_under_way(log, n, start);
    assert(start == attempt_of(log));
    tame_begin(name_of(start), start.started_at, log, start.at, n);
    lemma_reconcile_name(params, log);
    let begin = begin_run(name_of(start), start.started_at, log, start.at);
    tame_begin(name_of(start), start.started_at, log, start.at, end);
    assert(begin.outcome is Ok);
    lemma_begin_confirmed(params, log, start);
    let swept = work_run(log, begin.at);
    tame_work(log, begin.at, end);
    let clock = clock_run(log, swept.at);
    tame_clock(log, swept.at, end);
    let finished_at = clock.outcome->Ok_0;
    let flag = cancelled_run(log, clock.at);
    tame_cancelled(log, clock.at, end);
    let idle = finish_run(
        false,
        name_of(start),
        "idle"@,
        swept.checked,
        finished_at,
        None,
        log,
        flag.at,
    );
    tame_finish(false, name_of(start), "idle"@, swept.checked, finished_at, None, log, flag.at, end);
    let (cause, at) = failure_of(log, start);
    let failed = finish_run(
        true,
        name_of(start),
        "failed"@,
        swept.checked,
        finished_at,
        Some(described(cause)),
        log,
        at,
    );
    if failed.outcome is Ok {
        let i = lemma_finish_confirmed(
            true,
            name_of(start),
            "failed"@,
            swept.checked,
            finished_at,
            Some(described(cause)),
            log,
            at,
        );
        lemma_under_way(log, i, start);
        tame_begin(name_of(start), start.started_at, log, start.at, i);
        tame_work(log, begin.at, i);
        tame_clock(log, swept.at, i);
        tame_cancelled(log, clock.at, i);
        tame_finish(false, name_of(start), "idle"@, swept.checked, finished_at, None, log, flag.at, if flag.at <= i {
            i
        } else {
            end
        });
        lemma_reconcile_name(params, log.take(i));
        assert(written(
            "github.reconcile"@,
            params,
            log,
            i,
            ledger_patch(
                JsonView::Object(
                    finish_patch("failed"@, swept.checked, finished_at, Some(described(error))),
                ),
            ),
        ));
    }
}

/// An attempt that finds in the ledger that another one runs, or that none does, writes nothing and
/// fails.
pub proof fn law_superseded_attempts_write_nothing(
    ledger: JsonView,
    allow_cancelled: bool,
    attempt_id: Seq<char>,
    status: Seq<char>,
    checked: u64,
    finished_at: u64,
    error: Option<Seq<char>>,
    log: Seq<ReplyView>,
    at: int,
)
    requires
        ledger_run(allow_cancelled, log, at).outcome == Ok::<JsonView, HaltView>(ledger),
        !runs(ledger, attempt_id),
    ensures
        finish_run(allow_cancelled, attempt_id, status, checked, finished_at, error, log, at).outcome
            == Err::<(), HaltView>(
            HaltView::Fail(ErrorView::Message("reconciliation attempt was superseded"@)),
        ),
{
    reveal(finish_run);
    reveal(ledger_run);
}

} // verus!
