//! Which sessions `github.reconcile` turns to, and what it writes down about them.

use vstd::prelude::*;
use crate::command::Program;
use crate::dispatch::{StepView, next_step};
use crate::document_laws::{law_usable_ledgers_are_accepted, usable_ledger};
use crate::error::{ErrorView, described};
use crate::exchange::{ActionView, HaltView, ReplyView, Run, cancelled_run, check_run, clock_run};
use crate::findings::{
    lemma_look, lemma_look_fails, look_runs, look_shows, look_writes, member, says_none,
};
use crate::json::JsonView;
use crate::laws::lemma_host_methods;
use crate::ledger_laws::{
    attempt_of, lemma_ledger_reply, lemma_reconcile_name, lemma_start, lemma_under_way, name_of,
    turns_to_sessions, under_way,
};
use crate::promises::{
    failed_with, holds, introduced, lemma_settles, new_document, patch_call, settled, settles,
    single, told,
};
use crate::reconcile::{
    active_id, conclude_run, fail_run, report, session_params, settle_run, sweep_run, work_run,
};
use crate::replay::{tame_begin, tame_status, tame_work};
use crate::handlers::status_run;
use crate::settings::{begin_run, ensure_run, finish_run, ledger_patch, ledger_run, patch_run};
use crate::state::{begin_patch, empty_state, finish_patch};
use crate::state_laws::lemma_ledger_names;
use crate::text::decimal;

verus! {

/// The sessions that the host lists.
pub open spec fn listed(listing: JsonView) -> Seq<JsonView> {
    match listing {
        JsonView::Object(members) => if members.contains_key("sessions"@) {
            match members["sessions"@] {
                JsonView::Array(sessions) => sessions,
                _ => Seq::empty(),
            }
        } else {
            Seq::empty()
        },
        _ => Seq::empty(),
    }
}

/// The ids of some sessions, in their order: of those whose `status` is `active` and whose `id` is
/// a text.
pub open spec fn active_sessions(sessions: Seq<JsonView>) -> Seq<Seq<char>>
    decreases sessions.len(),
{
    if sessions.len() == 0 {
        Seq::empty()
    } else {
        let rest = active_sessions(sessions.drop_first());
        if told(sessions[0], "status"@) == Some("active"@) && told(sessions[0], "id"@) is Some {
            seq![told(sessions[0], "id"@)->Some_0] + rest
        } else {
            rest
        }
    }
}

/// The session that a request asks the host about, where it does.
pub open spec fn asked_about(step: StepView) -> Option<JsonView> {
    match step {
        StepView::Ask(ActionView::HostCall { id, method, params, allow_cancelled }) => if method
            == "host.sessions.repositoryContext"@ {
            Some(params)
        } else {
            None
        },
        _ => None,
    }
}

/// The questions about sessions that a reconciliation has asked with fewer than `n` replies on
/// record, in their order.
pub open spec fn questions(params: JsonView, log: Seq<ReplyView>, n: int) -> Seq<JsonView>
    decreases n,
{
    if n <= 0 {
        Seq::empty()
    } else {
        let before = questions(params, log, n - 1);
        match asked_about(next_step("github.reconcile"@, params, log.take(n - 1))) {
            Some(question) => before.push(question),
            None => before,
        }
    }
}

/// The questions about the repositories of some sessions.
pub open spec fn questions_about(ids: Seq<Seq<char>>) -> Seq<JsonView> {
    ids.map_values(|id: Seq<char>| single("session_id"@, JsonView::Text(id)))
}

/// What a request does next whose run has come to this.
spec fn step_of(run: Run<JsonView>) -> StepView {
    match run.outcome {
        Ok(answer) => StepView::Finished(Ok(answer)),
        Err(HaltView::Fail(error)) => StepView::Finished(Err(error)),
        Err(HaltView::Ask(action)) => StepView::Ask(action),
        Err(HaltView::Stray) => StepView::Stray,
    }
}

/// Whether a reconciliation is in its sweep behind `at` replies: it has these sessions before it,
/// whatever of the record is looked at.
spec fn sweeping(
    params: JsonView,
    log: Seq<ReplyView>,
    attempt_id: Seq<char>,
    sessions: Seq<JsonView>,
    checked: u64,
    at: int,
) -> bool {
    forall|i: int|
        at <= i <= log.len() ==> next_step("github.reconcile"@, params, #[trigger] log.take(i))
            == step_of(
            conclude_run(attempt_id, sweep_run(sessions, checked, log.take(i), at), log.take(i)),
        )
}

/// A look at a session begins with the question about it.
proof fn lemma_look_begins(session_id: Seq<char>, log: Seq<ReplyView>, at: int)
    requires
        0 <= at <= log.len(),
    ensures
        ({
            let whole = status_run(session_params(session_id), log, at);
            &&& whole.at > at + 2 ==> (status_run(session_params(session_id), log.take(at + 2), at).outcome matches Err(
                HaltView::Ask(ActionView::HostCall { id, method, params, allow_cancelled }),
            ) && method == "host.sessions.repositoryContext"@ && params == single(
                "session_id"@,
                JsonView::Text(session_id),
            ))
            &&& whole.outcome is Ok ==> whole.at > at + 2
            &&& whole.outcome matches Err(HaltView::Ask(action)) ==> (action is Run ==> whole.at > at + 2)
                && (action matches ActionView::HostCall { id, method, params, allow_cancelled } ==> method
                    == "host.sessions.repositoryContext"@ || whole.at > at + 2)
        }),
{
    reveal(status_run);
    let inner = session_params(session_id);
    tame_status(inner, log, at, log.len() as int);
    if at + 2 <= log.len() {
        let part = log.take(at + 2);
        tame_status(inner, log, at, at + 2);
        assert(part[at] == log[at] && part[at + 1] == log[at + 1]);
    }
}

/// The questions that a look at a session adds: one, once it has got that far.
#[verifier::rlimit(60)]
proof fn lemma_look_asks(
    params: JsonView,
    log: Seq<ReplyView>,
    attempt_id: Seq<char>,
    sessions: Seq<JsonView>,
    checked: u64,
    at: int,
    session_id: Seq<char>,
    m: int,
)
    requires
        0 <= at < m <= status_run(session_params(session_id), log, at + 1).at,
        at < log.len(),
        log[at] == ReplyView::Cancelled(false),
        sessions.len() > 0,
        active_id(sessions.first()) == Some(session_id),
        sweeping(params, log, attempt_id, sessions, checked, at),
    ensures
        questions(params, log, m) == questions(params, log, at) + (if m > at + 3 {
            seq![single("session_id"@, JsonView::Text(session_id))]
        } else {
            Seq::empty()
        }),
    decreases m - at,
{
    let inner = session_params(session_id);
    let start = at + 1;
    tame_status(inner, log, start, log.len() as int);
    if m == start {
        assert(next_step("github.reconcile"@, params, log.take(at)) == StepView::Ask(
            ActionView::CheckCancelled,
        ));
        assert(questions(params, log, m) =~= questions(params, log, at) + Seq::<JsonView>::empty());
    } else {
        lemma_look_asks(params, log, attempt_id, sessions, checked, at, session_id, m - 1);
        let i = m - 1;
        let part = log.take(i);
        tame_status(inner, log, start, i);
        lemma_look(inner, session_id, part, start);
        lemma_look_begins(session_id, log, start);
        assert(check_run(part, at).outcome is Ok && check_run(part, at).at == start);
        let seen = status_run(inner, part, start);
        assert(seen.outcome matches Err(HaltView::Ask(_)));
        assert(next_step("github.reconcile"@, params, part) == StepView::Ask(
            seen.outcome->Err_0->Ask_0,
        ));
        if i == start + 2 {
            assert(part == log.take(start + 2));
        }
        assert(questions(params, log, m) =~= questions(params, log, at) + (if m > at + 3 {
            seq![single("session_id"@, JsonView::Text(session_id))]
        } else {
            Seq::empty()
        }));
    }
}

/// How far a sweep got: how many of the sessions before it have been asked about, and where the
/// look at the last one began.
struct Reach {
    asked: int,
    at: int,
}

/// Whether a reconciliation asked about a session, and came to an answer about its pull request.
pub open spec fn looked_at(params: JsonView, log: Seq<ReplyView>, session_id: Seq<char>) -> bool {
    exists|at: int, answer: JsonView|
        {
            &&& 0 <= at && at + 2 < log.len()
            &&& asked_about(next_step("github.reconcile"@, params, log.take(at + 2))) == Some(
                single("session_id"@, JsonView::Text(session_id)),
            )
            &&& #[trigger] look_shows(log, at, answer)
        }
}

/// Whether a sweep got this far.
spec fn reaches(
    params: JsonView,
    log: Seq<ReplyView>,
    sessions: Seq<JsonView>,
    checked: u64,
    at: int,
    before: Seq<Seq<char>>,
    reach: Reach,
) -> bool {
    let swept = sweep_run(sessions, checked, log, at);
    let wanted = active_sessions(sessions);
    let k = reach.asked;
    &&& at <= swept.at <= log.len()
    &&& 0 <= k <= wanted.len()
    &&& questions(params, log, swept.at) == questions_about(before + wanted.take(k))
    &&& checked + k <= swept.checked <= checked + k + 1
    &&& swept.outcome is Ok ==> k == wanted.len() && swept.checked == checked + k
    &&& swept.outcome is Ok ==> forall|j: int|
        0 <= j < wanted.len() ==> looked_at(params, log, #[trigger] wanted[j])
    &&& swept.outcome matches Err(HaltView::Ask(action)) ==> {
        &&& swept.at == log.len()
        &&& action matches ActionView::Run { program, cwd, args } ==> k > 0 && look_runs(
            log,
            reach.at,
            program,
            cwd,
            args,
        )
        &&& action matches ActionView::HostCall {
            id,
            method,
            params: call,
            allow_cancelled,
        } ==> !allow_cancelled && method != "host.sessions.list"@ && (if method
            == "host.sessions.repositoryContext"@ {
            k < wanted.len() && call == single("session_id"@, JsonView::Text(wanted[k]))
        } else {
            k > 0 && (method == "host.settings.patch"@ ==> look_writes(
                log,
                reach.at,
                wanted[k - 1],
                call,
            ))
        })
    }
}

/// A sweep asks about the active sessions before it, one after another, and writes and runs nothing
/// but for the one that it asked about last.
proof fn lemma_sweep(
    params: JsonView,
    log: Seq<ReplyView>,
    attempt_id: Seq<char>,
    sessions: Seq<JsonView>,
    checked: u64,
    at: int,
    before: Seq<Seq<char>>,
) -> (reach: Reach)
    requires
        0 <= at <= log.len(),
        sweeping(params, log, attempt_id, sessions, checked, at),
        questions(params, log, at) == questions_about(before),
        checked == before.len(),
        checked + sessions.len() <= u64::MAX,
    ensures
        reaches(params, log, sessions, checked, at, before, reach),
    decreases sessions.len(), 1int,
{
    let wanted = active_sessions(sessions);
    assert(before + wanted.take(0) =~= before);
    if sessions.len() == 0 {
        Reach { asked: 0, at }
    } else {
        assert(log.take(at).len() == at);
        assert(next_step("github.reconcile"@, params, log.take(at)) == StepView::Ask(
            ActionView::CheckCancelled,
        ));
        assert(questions(params, log, at + 1) == questions(params, log, at));
        assert(sessions.first() == sessions[0]);
        if at == log.len() || log[at] != ReplyView::Cancelled(false) {
            Reach { asked: 0, at }
        } else if active_id(sessions.first()) is None {
            let rest = sessions.drop_first();
            assert forall|i: int| at + 1 <= i <= log.len() implies next_step(
                "github.reconcile"@,
                params,
                #[trigger] log.take(i),
            ) == step_of(
                conclude_run(attempt_id, sweep_run(rest, checked, log.take(i), at + 1), log.take(i)),
            ) by {
                assert(log.take(i)[at] == log[at]);
            }
            lemma_sweep(params, log, attempt_id, rest, checked, at + 1, before)
        } else {
            lemma_sweep_looks(params, log, attempt_id, sessions, checked, at, before)
        }
    }
}

/// The part of a sweep that begins with an active session.
#[verifier::rlimit(60)]
proof fn lemma_sweep_looks(
    params: JsonView,
    log: Seq<ReplyView>,
    attempt_id: Seq<char>,
    sessions: Seq<JsonView>,
    checked: u64,
    at: int,
    before: Seq<Seq<char>>,
) -> (reach: Reach)
    requires
        0 <= at < log.len(),
        log[at] == ReplyView::Cancelled(false),
        sessions.len() > 0,
        active_id(sessions.first()) is Some,
        sweeping(params, log, attempt_id, sessions, checked, at),
        questions(params, log, at) == questions_about(before),
        checked == before.len(),
        checked + sessions.len() <= u64::MAX,
    ensures
        reaches(params, log, sessions, checked, at, before, reach),
    decreases sessions.len(), 0int,
{
    let wanted = active_sessions(sessions);
    let rest = sessions.drop_first();
    assert(sessions.first() == sessions[0]);
    let session_id = active_id(sessions.first())->Some_0;
    let inner = session_params(session_id);
    let shown = status_run(inner, log, at + 1);
    tame_status(inner, log, at + 1, log.len() as int);
    lemma_look(inner, session_id, log, at + 1);
    lemma_look_begins(session_id, log, at + 1);
    let end = shown.at;
    lemma_look_asks(params, log, attempt_id, sessions, checked, at, session_id, end);
    assert(wanted == seq![session_id] + active_sessions(rest));
    assert(wanted[0] == session_id);
    assert(questions_about(before) + seq![single("session_id"@, JsonView::Text(session_id))]
        =~= questions_about(before.push(session_id)));
    assert(questions_about(before) + Seq::<JsonView>::empty() =~= questions_about(before));
    assert(before + wanted.take(0) =~= before);
    assert(before + wanted.take(1) =~= before.push(session_id));
    if shown.outcome is Ok {
        assert forall|i: int| end <= i <= log.len() implies next_step(
            "github.reconcile"@,
            params,
            #[trigger] log.take(i),
        ) == step_of(
            conclude_run(
                attempt_id,
                sweep_run(rest, (checked + 1) as u64, log.take(i), end),
                log.take(i),
            ),
        ) by {
            assert(log.take(i)[at] == log[at]);
            tame_status(inner, log, at + 1, i);
        }
        let reach = lemma_sweep(
            params,
            log,
            attempt_id,
            rest,
            (checked + 1) as u64,
            end,
            before.push(session_id),
        );
        let k = reach.asked;
        assert(before.push(session_id) + active_sessions(rest).take(k) =~= before + wanted.take(k + 1));
        let asking = log.take(at + 3);
        assert(asking[at] == log[at]);
        tame_status(inner, log, at + 1, at + 3);
        assert(asked_about(next_step("github.reconcile"@, params, asking)) == Some(
            single("session_id"@, JsonView::Text(session_id)),
        ));
        assert(look_shows(log, at + 1, shown.outcome->Ok_0));
        assert(looked_at(params, log, session_id));
        assert forall|j: int|
            sweep_run(sessions, checked, log, at).outcome is Ok && 0 <= j
                < wanted.len() implies looked_at(params, log, #[trigger] wanted[j]) by {
            if j > 0 {
                assert(wanted[j] == active_sessions(rest)[j - 1]);
            }
        }
        assert(sweep_run(sessions, checked, log, at) == sweep_run(
            rest,
            (checked + 1) as u64,
            log,
            end,
        ));
        Reach { asked: k + 1, at: reach.at }
    } else if end > at + 3 {
        Reach { asked: 1, at: at + 1 }
    } else {
        Reach { asked: 0, at }
    }
}

/// No list of sessions is longer than can be counted.
pub open spec fn countable(log: Seq<ReplyView>) -> bool {
    forall|i: int|
        0 <= i < log.len() ==> ((#[trigger] log[i]) matches ReplyView::Host(result) ==> (result matches Ok(
            listing,
        ) ==> listed(listing).len() <= u64::MAX))
}

/// A change of the ledger.
pub open spec fn ledger_change(change: JsonView) -> JsonView {
    single("reconciliation"@, change)
}

/// Whether a change of the ledger writes down that an attempt runs, over what the ledger said. An
/// attempt that is still marked as running there is recorded as recovered.
pub open spec fn starts_attempt(
    change: JsonView,
    ledger: JsonView,
    attempt_id: Seq<char>,
    started_at: u64,
) -> bool {
    change matches JsonView::Object(members) && {
        let recovers = told(ledger, "status"@) == Some("running"@);
        &&& told(change, "status"@) == Some("running"@)
        &&& told(change, "attempt_id"@) == Some(attempt_id)
        &&& holds(change, "started_at"@, JsonView::Integer(started_at as int))
        &&& holds(change, "finished_at"@, JsonView::Null)
        &&& holds(change, "checked"@, JsonView::Integer(0))
        &&& holds(change, "error"@, JsonView::Null)
        &&& recovers ==> member(change, "recovered_attempt_id"@) == Some(
            match member(ledger, "attempt_id"@) {
                Some(interrupted) => interrupted,
                None => JsonView::Null,
            },
        ) && holds(change, "recovered_at"@, JsonView::Integer(started_at as int))
        &&& forall|key: Seq<char>| #[trigger]
            members.contains_key(key) ==> key == "status"@ || key == "attempt_id"@ || key == "started_at"@
                || key == "finished_at"@ || key == "checked"@ || key == "error"@ || recovers && (key
                == "recovered_attempt_id"@ || key == "recovered_at"@)
    }
}

/// Whether a change of the ledger writes down how an attempt ended, with the first 500 characters
/// of the error.
pub open spec fn ends_attempt(
    change: JsonView,
    status: Seq<char>,
    checked: int,
    finished_at: u64,
    error: Option<Seq<char>>,
) -> bool {
    change == JsonView::Object(
        map![
            "status"@ => JsonView::Text(status),
            "finished_at"@ => JsonView::Integer(finished_at as int),
            "checked"@ => JsonView::Integer(checked),
            "error"@ => match error {
                Some(error) => JsonView::Text(
                    if error.len() <= 500 {
                        error
                    } else {
                        error.take(500)
                    },
                ),
                None => JsonView::Null,
            },
        ],
    )
}

/// The name of the attempt that a reconciliation makes: when it started, and its number.
pub open spec fn attempt_named(log: Seq<ReplyView>) -> Seq<char> {
    "reconcile-"@ + decimal(log[3]->Clock_0 as nat) + "-"@ + decimal(log[4]->Sequence_0 as nat)
}

/// Whether a reconciliation has started: it was not cancelled, it is the only one, and it knows the
/// time and its number.
pub open spec fn started(log: Seq<ReplyView>) -> bool {
    &&& log.len() >= 5
    &&& log[0] == ReplyView::Cancelled(false)
    &&& log[1] == ReplyView::Locked(true)
    &&& log[2] == ReplyView::Cancelled(false)
    &&& log[3] is Clock
    &&& log[4] is Sequence
}

proof fn lemma_started(log: Seq<ReplyView>)
    ensures
        started(log) <==> under_way(log, attempt_of(log)),
        started(log) ==> attempt_of(log).at == 5 && name_of(attempt_of(log)) == attempt_named(log)
            && attempt_of(log).started_at == log[3]->Clock_0,
{
}

/// Whether the host has listed its sessions, in answer to the question behind `at` replies.
pub open spec fn listed_at(log: Seq<ReplyView>, at: int, listing: JsonView) -> bool {
    introduced(log, at, listing)
}

/// The sweep begins behind the list of sessions, with no question asked.
proof fn lemma_sweep_begins(params: JsonView, log: Seq<ReplyView>, listing: JsonView)
    requires
        started(log),
        ({
            let begun = begin_run(attempt_named(log), log[3]->Clock_0, log, 5);
            begun.outcome is Ok && listed_at(log, begun.at, listing)
        }),
    ensures
        ({
            let at = begin_run(attempt_named(log), log[3]->Clock_0, log, 5).at;
            &&& 5 <= at
            &&& sweeping(params, log, attempt_named(log), listed(listing), 0, at + 3)
            &&& questions(params, log, at + 3) == questions_about(Seq::empty())
            &&& next_step("github.reconcile"@, params, log.take(at + 2)) matches StepView::Ask(
                ActionView::HostCall { id, method, params: call, allow_cancelled },
            ) && method == "host.sessions.list"@ && call is Null && !allow_cancelled
        }),
{
    lemma_started(log);
    let start = attempt_of(log);
    let whole = begin_run(name_of(start), start.started_at, log, start.at);
    tame_begin(name_of(start), start.started_at, log, start.at, log.len() as int);
    let at = whole.at;
    reveal(work_run);
    assert forall|i: int| at + 3 <= i <= log.len() implies next_step(
        "github.reconcile"@,
        params,
        #[trigger] log.take(i),
    ) == step_of(
        conclude_run(
            attempt_named(log),
            sweep_run(listed(listing), 0, log.take(i), at + 3),
            log.take(i),
        ),
    ) by {
        lemma_begun(params, log, i);
    }
    lemma_begun(params, log, at + 2);
    lemma_quiet(params, log, listing, at + 3);
    assert(questions_about(Seq::empty()) =~= Seq::empty());
}

/// What a reconciliation does behind the note that it runs.
proof fn lemma_begun(params: JsonView, log: Seq<ReplyView>, i: int)
    requires
        started(log),
        begin_run(attempt_named(log), log[3]->Clock_0, log, 5).outcome is Ok,
        begin_run(attempt_named(log), log[3]->Clock_0, log, 5).at <= i <= log.len(),
    ensures
        ({
            let at = begin_run(attempt_named(log), log[3]->Clock_0, log, 5).at;
            next_step("github.reconcile"@, params, log.take(i)) == step_of(
                conclude_run(attempt_named(log), work_run(log.take(i), at), log.take(i)),
            )
        }),
{
    lemma_started(log);
    let start = attempt_of(log);
    tame_begin(name_of(start), start.started_at, log, start.at, log.len() as int);
    tame_begin(name_of(start), start.started_at, log, start.at, i);
    lemma_under_way(log, i, start);
    lemma_reconcile_name(params, log.take(i));
}

/// Before the sessions are listed, no question about one is asked.
proof fn lemma_quiet(params: JsonView, log: Seq<ReplyView>, listing: JsonView, n: int)
    requires
        started(log),
        begin_run(attempt_named(log), log[3]->Clock_0, log, 5).outcome is Ok,
        listed_at(log, begin_run(attempt_named(log), log[3]->Clock_0, log, 5).at, listing),
        0 <= n <= begin_run(attempt_named(log), log[3]->Clock_0, log, 5).at + 3,
        n <= log.len(),
    ensures
        questions(params, log, n) == Seq::<JsonView>::empty(),
    decreases n,
{
    if n > 0 {
        lemma_quiet(params, log, listing, n - 1);
        let j = n - 1;
        let part = log.take(j);
        let step = next_step("github.reconcile"@, params, part);
        if asked_about(step) is Some {
            lemma_started(log);
            let start = lemma_start(params, part);
            lemma_under_way(log, j, start);
            assert(start == attempt_of(log));
            tame_begin(name_of(start), start.started_at, log, start.at, log.len() as int);
            tame_begin(name_of(start), start.started_at, log, start.at, j);
            lemma_begun(params, log, j);
            reveal(work_run);
            lemma_host_methods();
        }
    }
}

/// What writing down the end of an attempt calls the host for.
#[verifier::rlimit(60)]
proof fn lemma_finish_calls(
    allow: bool,
    attempt_id: Seq<char>,
    status: Seq<char>,
    checked: u64,
    finished_at: u64,
    error: Option<Seq<char>>,
    log: Seq<ReplyView>,
    at: int,
)
    ensures
        ({
            let outcome = finish_run(allow, attempt_id, status, checked, finished_at, error, log, at).outcome;
            &&& outcome matches Err(HaltView::Ask(action)) ==> !(action is Run)
            &&& outcome matches Err(
                HaltView::Ask(ActionView::HostCall { id, method, params, allow_cancelled }),
            ) ==> {
                &&& method == "host.settings.get"@ || method == "host.settings.patch"@
                &&& method == "host.settings.patch"@ ==> params == patch_call(new_document()) || exists|
                    change: JsonView,
                |
                    params == patch_call(#[trigger] ledger_change(change)) && ends_attempt(
                        change,
                        status,
                        checked as int,
                        finished_at,
                        error,
                    )
            }
        }),
{
    reveal(finish_run);
    reveal(ledger_run);
    reveal(patch_run);
    reveal(ensure_run);
    lemma_host_methods();
    let change = JsonView::Object(finish_patch(status, checked, finished_at, error));
    assert(ends_attempt(change, status, checked as int, finished_at, error));
    assert(ledger_patch(change) == ledger_change(change));
    assert(empty_state() =~= new_document());
}

/// What writing down that an attempt runs calls the host for.
#[verifier::rlimit(60)]
proof fn lemma_begin_calls(attempt_id: Seq<char>, started_at: u64, log: Seq<ReplyView>, at: int)
    requires
        0 <= at <= log.len(),
    ensures
        ({
            let outcome = begin_run(attempt_id, started_at, log, at).outcome;
            &&& outcome matches Err(HaltView::Ask(action)) ==> !(action is Run)
            &&& outcome matches Err(
                HaltView::Ask(ActionView::HostCall { id, method, params, allow_cancelled }),
            ) ==> {
                &&& !allow_cancelled
                &&& method == "host.settings.get"@ || method == "host.settings.patch"@
                &&& method == "host.settings.patch"@ ==> params == patch_call(new_document()) || exists|
                    i: int,
                    ledger: JsonView,
                    change: JsonView,
                |
                    {
                        &&& at <= i < log.len() && #[trigger] replied_with(log[i], ledger)
                        &&& params == patch_call(#[trigger] ledger_change(change))
                        &&& starts_attempt(change, ledger, attempt_id, started_at)
                    }
            }
        }),
{
    reveal(begin_run);
    reveal(patch_run);
    reveal(ensure_run);
    lemma_host_methods();
    assert(empty_state() =~= new_document());
    let read = ledger_run(false, log, at);
    if let Ok(ledger) = read.outcome {
        let i = lemma_ledger_reply(false, log, at);
        let change = JsonView::Object(begin_patch(ledger, attempt_id, started_at));
        lemma_starts(ledger, attempt_id, started_at);
        assert(ledger_patch(change) == ledger_change(change));
        assert(replied_with(log[i], ledger));
    } else {
        reveal(ledger_run);
    }
}

/// Whether the host replied with a value of the settings.
pub open spec fn replied_with(reply: ReplyView, value: JsonView) -> bool {
    reply matches ReplyView::Host(result) && (result matches Ok(response) && holds(
        response,
        "settings"@,
        value,
    ))
}

proof fn lemma_starts(ledger: JsonView, attempt_id: Seq<char>, started_at: u64)
    ensures
        starts_attempt(
            JsonView::Object(begin_patch(ledger, attempt_id, started_at)),
            ledger,
            attempt_id,
            started_at,
        ),
{
    lemma_ledger_names();
}

/// What a reconciliation calls the host for once its work has stopped.
#[verifier::rlimit(60)]
proof fn lemma_settle_calls(
    attempt_id: Seq<char>,
    work: Result<(), ErrorView>,
    checked: u64,
    finished_at: u64,
    log: Seq<ReplyView>,
    at: int,
)
    ensures
        ({
            let outcome = settle_run(attempt_id, work, checked, finished_at, log, at).outcome;
            &&& outcome matches Err(HaltView::Ask(action)) ==> !(action is Run)
            &&& outcome matches Err(
                HaltView::Ask(ActionView::HostCall { id, method, params, allow_cancelled }),
            ) ==> {
                &&& method == "host.settings.get"@ || method == "host.settings.patch"@
                &&& method == "host.settings.patch"@ ==> params == patch_call(new_document()) || exists|
                    change: JsonView,
                |
                    params == patch_call(#[trigger] ledger_change(change)) && {
                        ||| work is Ok && ends_attempt(change, "idle"@, checked as int, finished_at, None)
                        ||| exists|error: ErrorView|
                            ends_attempt(
                                change,
                                "failed"@,
                                checked as int,
                                finished_at,
                                Some(#[trigger] described(error)),
                            )
                    }
            }
            &&& outcome matches Ok(answer) ==> work is Ok && answer == report(checked, attempt_id) && 0
                <= at < log.len() && log[at] == ReplyView::Cancelled(false)
        }),
{
    let flag = cancelled_run(log, at);
    lemma_fail_calls(attempt_id, checked, finished_at, log);
    lemma_finish_calls(false, attempt_id, "idle"@, checked, finished_at, None, log, flag.at);
}

/// What writing down that an attempt failed calls the host for.
proof fn lemma_fail_calls(
    attempt_id: Seq<char>,
    checked: u64,
    finished_at: u64,
    log: Seq<ReplyView>,
)
    ensures
        forall|error: ErrorView, at: int|
            {
                let outcome = (#[trigger] fail_run(attempt_id, error, checked, finished_at, log, at)).outcome;
                &&& outcome matches Err(HaltView::Ask(action)) ==> !(action is Run)
                &&& outcome matches Err(
                    HaltView::Ask(ActionView::HostCall { id, method, params, allow_cancelled }),
                ) ==> {
                    &&& method == "host.settings.get"@ || method == "host.settings.patch"@
                    &&& method == "host.settings.patch"@ ==> params == patch_call(new_document())
                        || exists|change: JsonView|
                        params == patch_call(#[trigger] ledger_change(change)) && ends_attempt(
                            change,
                            "failed"@,
                            checked as int,
                            finished_at,
                            Some(described(error)),
                        )
                }
                &&& !(outcome is Ok)
            },
{
    assert forall|error: ErrorView, at: int|
        {
            let outcome = (#[trigger] fail_run(attempt_id, error, checked, finished_at, log, at)).outcome;
            &&& outcome matches Err(HaltView::Ask(action)) ==> !(action is Run)
            &&& outcome matches Err(
                HaltView::Ask(ActionView::HostCall { id, method, params, allow_cancelled }),
            ) ==> {
                &&& method == "host.settings.get"@ || method == "host.settings.patch"@
                &&& method == "host.settings.patch"@ ==> params == patch_call(new_document()) || exists|
                    change: JsonView,
                |
                    params == patch_call(#[trigger] ledger_change(change)) && ends_attempt(
                        change,
                        "failed"@,
                        checked as int,
                        finished_at,
                        Some(described(error)),
                    )
            }
            &&& !(outcome is Ok)
        } by {
        lemma_finish_calls(
            true,
            attempt_id,
            "failed"@,
            checked,
            finished_at,
            Some(described(error)),
            log,
            at,
        );
    }
}

/// Where a reconciliation stands that has started: it writes down that it runs, or it lists the
/// sessions, or it is in its sweep, or its work has stopped.
proof fn lemma_stage(params: JsonView, log: Seq<ReplyView>) -> (reach: Reach)
    requires
        started(log),
        countable(log),
    ensures
        ({
            let begun = begin_run(attempt_named(log), log[3]->Clock_0, log, 5);
            let listing = log[begun.at + 2]->Host_0->Ok_0;
            let swept = work_run(log, begun.at);
            &&& 5 <= begun.at <= log.len()
            &&& !(begun.outcome is Ok) ==> next_step("github.reconcile"@, params, log) == step_of(
                Run { outcome: Err(begun.outcome->Err_0), at: begun.at },
            )
            &&& begun.outcome is Ok ==> next_step("github.reconcile"@, params, log) == step_of(
                conclude_run(attempt_named(log), swept, log),
            )
            &&& begun.outcome is Ok && listed_at(log, begun.at, listing) ==> {
                &&& swept == sweep_run(listed(listing), 0, log, begun.at + 3)
                &&& reaches(params, log, listed(listing), 0, begun.at + 3, Seq::empty(), reach)
            }
            &&& begun.outcome is Ok && !listed_at(log, begun.at, listing) ==> {
                &&& !(swept.outcome is Ok) && swept.checked == 0
                &&& swept.outcome matches Err(HaltView::Ask(action)) ==> !(action is Run) && (
                action matches ActionView::HostCall { id, method, params: call, allow_cancelled }
                    ==> method == "host.sessions.list"@ && call is Null && !allow_cancelled)
            }
        }),
{
    lemma_started(log);
    let start = attempt_of(log);
    let begun = begin_run(name_of(start), start.started_at, log, start.at);
    tame_begin(name_of(start), start.started_at, log, start.at, log.len() as int);
    lemma_reconcile_name(params, log);
    reveal(work_run);
    let listing = log[begun.at + 2]->Host_0->Ok_0;
    assert(log.take(log.len() as int) =~= log);
    if begun.outcome is Ok && listed_at(log, begun.at, listing) {
        lemma_sweep_begins(params, log, listing);
        assert(log[begun.at + 2] == ReplyView::Host(Ok(listing)));
        lemma_sweep(
            params,
            log,
            attempt_named(log),
            listed(listing),
            0,
            begun.at + 3,
            Seq::empty(),
        )
    } else {
        Reach { asked: 0, at: 0 }
    }
}

/// `github.reconcile` asks the host about the active sessions that it listed, one after another in
/// the order of the list, and about no other.
pub proof fn law_reconciliations_ask_about_active_sessions(
    params: JsonView,
    log: Seq<ReplyView>,
    question: JsonView,
) -> (place: int)
    requires
        countable(log),
        asked_about(next_step("github.reconcile"@, params, log)) == Some(question),
    ensures
        0 <= place < log.len(),
        lists_sessions(next_step("github.reconcile"@, params, log.take(place))),
        log[place] matches ReplyView::Host(result) && (result matches Ok(listing) && {
            let wanted = active_sessions(listed(listing));
            let asked = questions(params, log, log.len() as int);
            &&& asked.len() < wanted.len()
            &&& asked == questions_about(wanted.take(asked.len() as int))
            &&& question == single("session_id"@, JsonView::Text(wanted[asked.len() as int]))
        }),
{
    lemma_host_methods();
    let start = lemma_start(params, log);
    assert(start == attempt_of(log));
    lemma_started(log);
    let reach = lemma_stage(params, log);
    let begun = begin_run(attempt_named(log), log[3]->Clock_0, log, 5);
    let listing = log[begun.at + 2]->Host_0->Ok_0;
    lemma_conclusion(log, begun.at);
    lemma_sweep_begins(params, log, listing);
    let wanted = active_sessions(listed(listing));
    assert(Seq::<Seq<char>>::empty() + wanted.take(reach.asked) =~= wanted.take(reach.asked));
    begun.at + 2
}

/// Whether a request asks the host to list the sessions.
pub open spec fn lists_sessions(step: StepView) -> bool {
    step matches StepView::Ask(ActionView::HostCall { id, method, params, allow_cancelled }) && method
        == "host.sessions.list"@ && params is Null && !allow_cancelled
}

/// What follows the work of an attempt.
#[verifier::rlimit(60)]
proof fn lemma_conclusion(log: Seq<ReplyView>, at: int)
    ensures
        ({
            let swept = work_run(log, at);
            let outcome = conclude_run(attempt_named(log), swept, log).outcome;
            let finished_at = clock_run(log, swept.at).outcome->Ok_0;
            &&& swept.outcome is Err && !(swept.outcome->Err_0 is Fail) ==> outcome == Err::<
                JsonView,
                HaltView,
            >(swept.outcome->Err_0)
            &&& swept.outcome is Ok || swept.outcome->Err_0 is Fail ==> {
                &&& outcome matches Err(HaltView::Ask(action)) ==> !(action is Run)
                &&& outcome matches Err(
                    HaltView::Ask(ActionView::HostCall { id, method, params, allow_cancelled }),
                ) ==> {
                    &&& 0 <= swept.at < log.len() && log[swept.at] == ReplyView::Clock(finished_at)
                    &&& method == "host.settings.get"@ || method == "host.settings.patch"@
                    &&& method == "host.settings.patch"@ ==> params == patch_call(new_document())
                        || exists|change: JsonView|
                        params == patch_call(#[trigger] ledger_change(change)) && {
                            ||| swept.outcome is Ok && ends_attempt(
                                change,
                                "idle"@,
                                swept.checked as int,
                                finished_at,
                                None,
                            )
                            ||| exists|error: ErrorView|
                                ends_attempt(
                                    change,
                                    "failed"@,
                                    swept.checked as int,
                                    finished_at,
                                    Some(#[trigger] described(error)),
                                )
                        }
                }
            }
            &&& outcome matches Ok(answer) ==> swept.outcome is Ok && answer == report(
                swept.checked,
                attempt_named(log),
            ) && 0 <= swept.at && swept.at + 1 < log.len() && log[swept.at] is Clock && log[swept.at + 1]
                == ReplyView::Cancelled(false)
        }),
{
    let swept = work_run(log, at);
    let clock = clock_run(log, swept.at);
    let work: Result<(), ErrorView> = match swept.outcome {
        Ok(_) => Ok(()),
        Err(halt) => Err(halt->Fail_0),
    };
    lemma_settle_calls(
        attempt_named(log),
        work,
        swept.checked,
        clock.outcome->Ok_0,
        log,
        clock.at,
    );
}

/// `github.reconcile` runs programs only for the session that it asked about last: the same ones
/// that `github.status` runs for a session.
pub proof fn law_reconciliations_look_at_the_session_asked_about(
    params: JsonView,
    log: Seq<ReplyView>,
    program: Program,
    cwd: Seq<char>,
    args: Seq<Seq<char>>,
) -> (at: int)
    requires
        countable(log),
        next_step("github.reconcile"@, params, log) == StepView::Ask(
            ActionView::Run { program, cwd, args },
        ),
    ensures
        look_runs(log, at, program, cwd, args),
        questions(params, log, log.len() as int).len() > 0,
{
    lemma_host_methods();
    let start = lemma_start(params, log);
    assert(start == attempt_of(log));
    lemma_started(log);
    let reach = lemma_stage(params, log);
    let begun = begin_run(attempt_named(log), log[3]->Clock_0, log, 5);
    lemma_conclusion(log, begun.at);
    reach.at
}

/// `github.reconcile` changes the settings only to start a new document, to write down that its
/// attempt runs, to record what it found for the session that it asked about last, or to write down
/// how its attempt ended and how many sessions it turned to.
#[verifier::rlimit(60)]
pub proof fn law_reconciliations_write_what_they_found(
    params: JsonView,
    log: Seq<ReplyView>,
    id: Seq<char>,
    call: JsonView,
    allow: bool,
)
    requires
        countable(log),
        next_step("github.reconcile"@, params, log) == StepView::Ask(
            ActionView::HostCall {
                id,
                method: "host.settings.patch"@,
                params: call,
                allow_cancelled: allow,
            },
        ),
    ensures
        started(log),
        ({
            let asked = questions(params, log, log.len() as int);
            ||| call == patch_call(new_document())
            ||| exists|i: int, ledger: JsonView, change: JsonView|
                {
                    &&& 5 <= i < log.len() && #[trigger] replied_with(log[i], ledger)
                    &&& call == patch_call(#[trigger] ledger_change(change))
                    &&& starts_attempt(change, ledger, attempt_named(log), log[3]->Clock_0)
                }
            ||| exists|at: int, session_id: Seq<char>|
                asked.len() > 0 && asked.last() == single("session_id"@, JsonView::Text(session_id))
                    && #[trigger] look_writes(log, at, session_id, call)
            ||| exists|change: JsonView, checked: int, i: int|
                {
                    &&& call == patch_call(#[trigger] ledger_change(change))
                    &&& 5 <= i < log.len() && log[i] is Clock
                    &&& #[trigger] ended_as(change, asked.len() as int, checked, log[i]->Clock_0)
                }
        }),
{
    lemma_host_methods();
    lemma_reconcile_name(params, log);
    lemma_started(log);
    assert(started(log));
    let reach = lemma_stage(params, log);
    let begun = begin_run(attempt_named(log), log[3]->Clock_0, log, 5);
    lemma_begin_calls(attempt_named(log), log[3]->Clock_0, log, 5);
    if begun.outcome is Ok {
        lemma_conclusion(log, begun.at);
        let swept = work_run(log, begun.at);
        let listing = log[begun.at + 2]->Host_0->Ok_0;
        let wanted = active_sessions(listed(listing));
        if swept.outcome is Err && swept.outcome->Err_0 is Ask {
            let k = reach.asked;
            assert((Seq::<Seq<char>>::empty() + wanted.take(k)).last() == wanted[k - 1]);
            assert(look_writes(log, reach.at, wanted[k - 1], call));
        } else if call != patch_call(new_document()) {
            let finished_at = clock_run(log, swept.at).outcome->Ok_0;
            let change = choose|change: JsonView|
                call == patch_call(#[trigger] ledger_change(change)) && {
                    ||| swept.outcome is Ok && ends_attempt(
                        change,
                        "idle"@,
                        swept.checked as int,
                        finished_at,
                        None,
                    )
                    ||| exists|error: ErrorView|
                        ends_attempt(
                            change,
                            "failed"@,
                            swept.checked as int,
                            finished_at,
                            Some(#[trigger] described(error)),
                        )
                };
            let end = log.len() as int;
            lemma_started(log);
            tame_work(log, begun.at, end);
            lemma_quiet_after(params, log, end);
            let asked = questions(params, log, end);
            if listed_at(log, begun.at, listing) {
                let k = reach.asked;
                assert(asked.len() == k);
            } else {
                lemma_unlisted(params, log, end);
            }
            assert(log[swept.at] == ReplyView::Clock(finished_at));
            assert(ended_as(change, asked.len() as int, swept.checked as int, log[swept.at]->Clock_0));
        }
    }
}

/// Whether a change of the ledger writes down that an attempt is idle, with the number of sessions
/// that it asked about, or that it failed and why. One that failed may have turned to one session
/// more than it asked about.
pub open spec fn ended_as(change: JsonView, asked: int, checked: int, finished_at: u64) -> bool {
    ||| checked == asked && ends_attempt(change, "idle"@, checked, finished_at, None)
    ||| asked <= checked <= asked + 1 && exists|error: ErrorView|
        ends_attempt(change, "failed"@, checked, finished_at, Some(#[trigger] described(error)))
}

/// Once its work has stopped, a reconciliation asks about no session.
proof fn lemma_quiet_after(params: JsonView, log: Seq<ReplyView>, n: int)
    requires
        started(log),
        ({
            let begun = begin_run(attempt_named(log), log[3]->Clock_0, log, 5);
            let swept = work_run(log, begun.at);
            &&& begun.outcome is Ok
            &&& swept.outcome is Ok || swept.outcome->Err_0 is Fail
            &&& swept.at <= n <= log.len()
        }),
    ensures
        ({
            let begun = begin_run(attempt_named(log), log[3]->Clock_0, log, 5);
            let swept = work_run(log, begun.at);
            questions(params, log, n) == questions(params, log, swept.at)
        }),
    decreases n,
{
    let begun = begin_run(attempt_named(log), log[3]->Clock_0, log, 5);
    let swept = work_run(log, begun.at);
    if n > swept.at {
        lemma_started(log);
        let start = attempt_of(log);
        tame_begin(name_of(start), start.started_at, log, start.at, log.len() as int);
        tame_work(log, begun.at, log.len() as int);
        lemma_quiet_after(params, log, n - 1);
        tame_work(log, begun.at, n - 1);
        lemma_begun(params, log, n - 1);
        let part = log.take(n - 1);
        assert(attempt_named(part) == attempt_named(log));
        lemma_conclusion(part, begun.at);
        lemma_host_methods();
    }
}

/// A reconciliation that could not list the sessions has asked about none.
proof fn lemma_unlisted(params: JsonView, log: Seq<ReplyView>, n: int)
    requires
        started(log),
        ({
            let begun = begin_run(attempt_named(log), log[3]->Clock_0, log, 5);
            begun.outcome is Ok && !listed_at(log, begun.at, log[begun.at + 2]->Host_0->Ok_0)
        }),
        0 <= n <= log.len(),
    ensures
        questions(params, log, n) == Seq::<JsonView>::empty(),
    decreases n,
{
    if n > 0 {
        lemma_unlisted(params, log, n - 1);
        let begun = begin_run(attempt_named(log), log[3]->Clock_0, log, 5);
        let j = n - 1;
        let part = log.take(j);
        let step = next_step("github.reconcile"@, params, part);
        if asked_about(step) is Some {
            lemma_started(log);
            let start = lemma_start(params, part);
            lemma_under_way(log, j, start);
            assert(start == attempt_of(log));
            tame_begin(name_of(start), start.started_at, log, start.at, log.len() as int);
            tame_begin(name_of(start), start.started_at, log, start.at, j);
            lemma_begun(params, log, j);
            reveal(work_run);
            lemma_host_methods();
            assert(attempt_named(part) == attempt_named(log));
            lemma_conclusion(part, begun.at);
        }
    }
}

/// `github.reconcile` reports only once it has asked about every active session that the host
/// listed and has come to an answer for each, and reports how many these were. One that was
/// cancelled by then does not report.
pub proof fn law_reconciliations_report_the_active_sessions(
    params: JsonView,
    log: Seq<ReplyView>,
    answer: JsonView,
) -> (place: int)
    requires
        countable(log),
        next_step("github.reconcile"@, params, log) == StepView::Finished(
            Ok::<JsonView, ErrorView>(answer),
        ),
    ensures
        started(log) && 0 <= place < log.len(),
        lists_sessions(next_step("github.reconcile"@, params, log.take(place))),
        log[place] matches ReplyView::Host(result) && (result matches Ok(listing) && exists|end: int|
            {
                let wanted = active_sessions(listed(listing));
                &&& place < end && end + 1 < log.len()
                &&& #[trigger] questions(params, log, end) == questions_about(wanted)
                &&& log[end] is Clock && log[end + 1] == ReplyView::Cancelled(false)
                &&& forall|j: int|
                    0 <= j < wanted.len() ==> looked_at(params, log, #[trigger] wanted[j])
                &&& answer == JsonView::Object(
                    map![
                        "checked"@ => JsonView::Integer(wanted.len() as int),
                        "attempt_id"@ => JsonView::Text(attempt_named(log)),
                    ],
                )
            }),
{
    lemma_host_methods();
    let start = lemma_start(params, log);
    assert(start == attempt_of(log));
    lemma_started(log);
    let reach = lemma_stage(params, log);
    let begun = begin_run(attempt_named(log), log[3]->Clock_0, log, 5);
    lemma_conclusion(log, begun.at);
    let listing = log[begun.at + 2]->Host_0->Ok_0;
    lemma_sweep_begins(params, log, listing);
    let wanted = active_sessions(listed(listing));
    let swept = work_run(log, begun.at);
    assert(Seq::<Seq<char>>::empty() + wanted.take(reach.asked) =~= wanted);
    assert(questions(params, log, swept.at) == questions_about(wanted));
    begun.at + 2
}

/// `github.reconcile` starts only where no other reconciliation runs: it takes the lock, and fails
/// where another one has it. Then it reads the clock and takes a number.
pub proof fn law_reconciliations_start_alone(params: JsonView, log: Seq<ReplyView>)
    ensures
        ({
            let step = next_step("github.reconcile"@, params, log);
            let free = log.len() > 1 && log[0] == ReplyView::Cancelled(false) && log[1]
                == ReplyView::Locked(true);
            &&& log.len() == 0 ==> step == StepView::Ask(ActionView::CheckCancelled)
            &&& log.len() == 1 && log[0] == ReplyView::Cancelled(false) ==> step == StepView::Ask(
                ActionView::LockReconciliation,
            )
            &&& log.len() > 1 && log[0] == ReplyView::Cancelled(false) && log[1] == ReplyView::Locked(
                false,
            ) ==> step == StepView::Finished(
                Err::<JsonView, ErrorView>(
                    ErrorView::Message("reconciliation is already running"@),
                ),
            )
            &&& log.len() == 2 && free ==> step == StepView::Ask(ActionView::CheckCancelled)
            &&& log.len() == 3 && free && log[2] == ReplyView::Cancelled(false) ==> step == StepView::Ask(
                ActionView::ReadClock,
            )
            &&& log.len() == 4 && free && log[2] == ReplyView::Cancelled(false) && log[3] is Clock ==> step
                == StepView::Ask(ActionView::NextSequence)
        }),
{
    lemma_reconcile_name(params, log);
}

/// Whether the replies behind the start of a reconciliation are those to its look at the document
/// and at the ledger, where the document is of the current version.
pub open spec fn looked_into_ledger(log: Seq<ReplyView>, ledger: JsonView) -> bool {
    let n = log.len();
    &&& started(log)
    &&& n > 5 ==> log[5] == ReplyView::Cancelled(false)
    &&& n > 6 ==> log[6] is Sequence
    &&& n > 7 ==> replied_with(log[7], JsonView::Integer(1))
    &&& n > 8 ==> log[8] == ReplyView::Cancelled(false)
    &&& n > 9 ==> log[9] is Sequence
    &&& n > 10 ==> replied_with(log[10], ledger)
}

/// `github.reconcile` reads the version of the document and then the ledger, and writes down that
/// its attempt runs, over what the ledger said. Then it asks the host to list the sessions.
#[verifier::rlimit(60)]
pub proof fn law_reconciliations_begin_with_the_ledger(
    params: JsonView,
    log: Seq<ReplyView>,
    ledger: JsonView,
) -> (change: JsonView)
    requires
        looked_into_ledger(log, ledger),
        usable_ledger(ledger),
        log.len() > 11 && log.len() <= 18 ==> settled(log, 11),
        log.len() > 18 ==> settled(log.take(18), 11),
        log.len() >= 18 ==> (log[17] matches ReplyView::Host(result) && (result matches Ok(response)
            && holds(response, "updated"@, JsonView::Bool(true)))),
        log.len() > 18 ==> log[18] == ReplyView::Cancelled(false),
        log.len() > 19 ==> log[19] is Sequence,
    ensures
        ({
            let step = next_step("github.reconcile"@, params, log);
            let n = log.len();
            &&& n == 5 || n == 8 || n == 18 ==> step == StepView::Ask(ActionView::CheckCancelled)
            &&& n == 6 || n == 9 || n == 19 ==> step == StepView::Ask(ActionView::NextSequence)
            &&& n == 7 ==> step == StepView::Ask(
                ActionView::HostCall {
                    id: "github-settings-version"@ + "-"@ + decimal(log[6]->Sequence_0 as nat),
                    method: "host.settings.get"@,
                    params: single(
                        "path"@,
                        JsonView::Array(seq![JsonView::Text("github"@), JsonView::Text("version"@)]),
                    ),
                    allow_cancelled: false,
                },
            )
            &&& n == 10 ==> step == StepView::Ask(
                ActionView::HostCall {
                    id: "github-settings-reconciliation"@ + "-"@ + decimal(log[9]->Sequence_0 as nat),
                    method: "host.settings.get"@,
                    params: single(
                        "path"@,
                        JsonView::Array(
                            seq![JsonView::Text("github"@), JsonView::Text("reconciliation"@)],
                        ),
                    ),
                    allow_cancelled: false,
                },
            )
            &&& starts_attempt(change, ledger, attempt_named(log), log[3]->Clock_0)
            &&& 11 <= n < 18 ==> settles(step, log, 11, ledger_change(change), JsonView::Null)
            &&& n == 20 ==> step == StepView::Ask(
                ActionView::HostCall {
                    id: "github-sessions"@ + "-"@ + decimal(log[19]->Sequence_0 as nat),
                    method: "host.sessions.list"@,
                    params: JsonView::Null,
                    allow_cancelled: false,
                },
            )
        }),
{
    let change = JsonView::Object(begin_patch(ledger, attempt_named(log), log[3]->Clock_0));
    lemma_starts(ledger, attempt_named(log), log[3]->Clock_0);
    law_usable_ledgers_are_accepted(ledger);
    lemma_reconcile_name(params, log);
    lemma_started(log);
    reveal(begin_run);
    reveal(ledger_run);
    reveal(ensure_run);
    reveal(work_run);
    assert(ledger_patch(change) == ledger_change(change));
    if 11 <= log.len() < 18 {
        lemma_settles(ledger_change(change), log, 11, JsonView::Null);
    } else if log.len() >= 18 {
        reveal(patch_run);
        assert(forall|i: int| 0 <= i < 18 ==> #[trigger] log.take(18)[i] == log[i]);
    }
    change
}

/// A reconciliation that has learned of its cancellation asks about no session and runs nothing.
pub proof fn law_cancelled_reconciliations_turn_to_no_session(
    params: JsonView,
    log: Seq<ReplyView>,
    i: int,
)
    requires
        countable(log),
        0 <= i < log.len(),
        next_step("github.reconcile"@, params, log.take(i)) == StepView::Ask(
            ActionView::CheckCancelled,
        ),
        log[i] == ReplyView::Cancelled(true),
    ensures
        asked_about(next_step("github.reconcile"@, params, log)) is None,
        next_step("github.reconcile"@, params, log) matches StepView::Ask(action) ==> !(action is Run),
{
    let step = next_step("github.reconcile"@, params, log);
    if asked_about(step) is Some || step is Ask && step->Ask_0 is Run {
        lemma_host_methods();
        let start = lemma_start(params, log);
        assert(start == attempt_of(log));
        lemma_started(log);
        let reach = lemma_stage(params, log);
        let begun = begin_run(attempt_named(log), log[3]->Clock_0, log, 5);
        lemma_conclusion(log, begun.at);
        assert(i >= 5);
        tame_begin(name_of(start), start.started_at, log, start.at, i);
        let part = log.take(i);
        if i < begun.at {
            lemma_under_way(log, i, start);
            lemma_reconcile_name(params, part);
        } else {
            lemma_begun(params, log, i);
            tame_work(log, begun.at, i);
        }
    }
}

/// A sweep ends where a program or a call to the host fails in it, with that error.
proof fn lemma_sweep_fails(
    sessions: Seq<JsonView>,
    checked: u64,
    log: Seq<ReplyView>,
    at: int,
    action: ActionView,
    reply: ReplyView,
    error: ErrorView,
)
    requires
        0 <= at <= log.len(),
        sweep_run(sessions, checked, log, at).outcome == Err::<(), HaltView>(HaltView::Ask(action)),
        failed_with(action, reply, error),
        (action matches ActionView::Run { program, cwd, args } && program is Gh) ==> !says_none(error),
    ensures
        sweep_run(sessions, checked, log.push(reply), at).outcome == Err::<(), HaltView>(
            HaltView::Fail(error),
        ),
    decreases sessions.len(),
{
    let whole = log.push(reply);
    let n = log.len() as int;
    assert(whole.take(n) =~= log);
    if sessions.len() > 0 && at < n {
        assert(whole[at] == log[at]);
        let rest = sessions.drop_first();
        match active_id(sessions.first()) {
            None => {
                lemma_sweep_fails(rest, checked, log, at + 1, action, reply, error);
            },
            Some(session_id) => {
                let inner = session_params(session_id);
                let shown = status_run(inner, log, at + 1);
                tame_status(inner, log, at + 1, n);
                tame_status(inner, whole, at + 1, n);
                if shown.outcome is Ok {
                    lemma_sweep_fails(
                        rest,
                        (checked + 1) as u64,
                        log,
                        shown.at,
                        action,
                        reply,
                        error,
                    );
                } else {
                    lemma_look_fails(inner, log, at + 1, action, reply, error);
                }
            },
        }
    }
}

/// A reconciliation in which a look at a session fails, or the list of sessions, turns to no other
/// session, runs nothing and does not report. The one failure that a look takes is that of `gh`
/// where it says that there is no pull request.
pub proof fn law_failed_reconciliations_turn_to_no_session(
    params: JsonView,
    log: Seq<ReplyView>,
    i: int,
    action: ActionView,
    error: ErrorView,
)
    requires
        countable(log),
        0 <= i < log.len(),
        next_step("github.reconcile"@, params, log.take(i)) == StepView::Ask(action),
        turns_to_sessions(action),
        failed_with(action, log[i], error),
        (action matches ActionView::Run { program, cwd, args } && program is Gh) ==> !says_none(error),
    ensures
        asked_about(next_step("github.reconcile"@, params, log)) is None,
        next_step("github.reconcile"@, params, log) matches StepView::Ask(later) ==> !(later is Run),
        next_step("github.reconcile"@, params, log) matches StepView::Finished(result) ==> result is Err,
{
    let part = log.take(i);
    let next = log.take(i + 1);
    lemma_host_methods();
    let start = lemma_start(params, part);
    lemma_under_way(log, i, start);
    lemma_under_way(log, i + 1, start);
    assert(start == attempt_of(log));
    lemma_started(log);
    tame_begin(name_of(start), start.started_at, log, start.at, log.len() as int);
    tame_begin(name_of(start), start.started_at, log, start.at, i);
    let begun = begin_run(attempt_named(log), log[3]->Clock_0, log, 5);
    assert(begun.outcome is Ok && begun.at <= i);
    lemma_begun(params, log, i);
    assert(attempt_named(part) == attempt_named(log));
    lemma_conclusion(part, begun.at);
    assert(next =~= part.push(log[i]));
    lemma_work_fails(part, begun.at, action, log[i], error);
    tame_work(log, begun.at, i + 1);
    lemma_begun(params, log, log.len() as int);
    assert(log.take(log.len() as int) =~= log);
    lemma_conclusion(log, begun.at);
}

/// The work of an attempt ends where the list of sessions fails or a look at one, with that error.
proof fn lemma_work_fails(
    log: Seq<ReplyView>,
    at: int,
    action: ActionView,
    reply: ReplyView,
    error: ErrorView,
)
    requires
        0 <= at <= log.len(),
        work_run(log, at).outcome == Err::<(), HaltView>(HaltView::Ask(action)),
        failed_with(action, reply, error),
        (action matches ActionView::Run { program, cwd, args } && program is Gh) ==> !says_none(error),
    ensures
        work_run(log.push(reply), at).outcome == Err::<(), HaltView>(HaltView::Fail(error)),
{
    reveal(work_run);
    let whole = log.push(reply);
    assert(forall|i: int| 0 <= i < log.len() ==> #[trigger] whole[i] == log[i]);
    if log.len() > at + 2 {
        let listing = log[at + 2]->Host_0->Ok_0;
        lemma_sweep_fails(listing.items_at("sessions"@), 0, log, at + 3, action, reply, error);
    }
}

} // verus!
