//! `github.reconcile`: checks the pull requests of all active sessions, one attempt at a time.

use vstd::prelude::*;
use crate::error::{ErrorView, RequestError, described, result_view};
use crate::exchange::{
    Halt, HaltView, Record, ReplyView, Run, cancelled_run, caught_by, check_run, clock_run, done,
    failed, followed_by, halted, host_run, lock_run, outcome_view, sequence_run,
};
use crate::handlers::{status, status_run};
use crate::json::{Json, JsonView, Object, has_text, items_view, json_view, text_view};
use crate::settings::{begin_reconciliation, begin_run, finish_reconciliation, finish_run};
use crate::text::{concat3, decimal, to_decimal};

verus! {

/// The name of an attempt. The number sets it apart from every other attempt of this process.
pub open spec fn attempt_name(started_at: u64, number: u64) -> Seq<char> {
    "reconcile-"@ + decimal(started_at as nat) + "-"@ + decimal(number as nat)
}

/// The name of an attempt.
fn name_attempt(started_at: u64, number: u64) -> (name: String)
    ensures
        name@ == attempt_name(started_at, number),
{
    let front = concat3("reconcile-", to_decimal(started_at).as_str(), "-");
    let number = to_decimal(number);
    let mut name = front;
    name.append(number.as_str());
    name
}

/// The id of a session, where it is active and has one.
pub open spec fn active_id(session: JsonView) -> Option<Seq<char>> {
    if session.text_at("status"@) == Some("active"@) {
        session.text_at("id"@)
    } else {
        None
    }
}

/// The id of a session, where it is active and has one.
fn active_session(session: &Json) -> (id: Option<&str>)
    ensures
        text_view(id) == active_id(session@),
{
    if has_text(session, "status", "active") {
        session.text_at("id")
    } else {
        None
    }
}

/// The parameters of a status request for a session.
pub open spec fn session_params(session_id: Seq<char>) -> JsonView {
    JsonView::Object(map!["session_id"@ => JsonView::Text(session_id)])
}

/// How far an attempt got: what its work came to, and how many sessions it turned to.
pub struct Swept {
    pub outcome: Result<(), HaltView>,
    pub checked: u64,
    pub at: int,
}

/// Turns to some sessions, one after another, up to the first failure. `checked` sessions came
/// before them.
pub open spec fn sweep_run(
    sessions: Seq<JsonView>,
    checked: u64,
    log: Seq<ReplyView>,
    at: int,
) -> Swept
    decreases sessions.len(),
{
    if sessions.len() == 0 {
        Swept { outcome: Ok(()), checked, at }
    } else {
        let go = check_run(log, at);
        match go.outcome {
            Err(halt) => Swept { outcome: Err(halt), checked, at: go.at },
            Ok(_) => match active_id(sessions.first()) {
                None => sweep_run(sessions.drop_first(), checked, log, go.at),
                Some(session_id) => {
                    let shown = status_run(session_params(session_id), log, go.at);
                    match shown.outcome {
                        Err(halt) => Swept {
                            outcome: Err(halt),
                            checked: (checked + 1) as u64,
                            at: shown.at,
                        },
                        Ok(_) => sweep_run(
                            sessions.drop_first(),
                            (checked + 1) as u64,
                            log,
                            shown.at,
                        ),
                    }
                },
            },
        }
    }
}

/// Turns to all active sessions that the host lists.
#[verifier::opaque]
pub open spec fn work_run(log: Seq<ReplyView>, at: int) -> Swept {
    let listed = host_run(
        "github-sessions"@,
        "host.sessions.list"@,
        JsonView::Null,
        false,
        log,
        at,
    );
    match listed.outcome {
        Err(halt) => Swept { outcome: Err(halt), checked: 0, at: listed.at },
        Ok(sessions) => sweep_run(sessions.items_at("sessions"@), 0, log, listed.at),
    }
}

/// Turns to some sessions, one after another, up to the first failure.
pub fn check_sessions(sessions: &Vec<Json>, record: &mut Record) -> (swept: (Result<(), Halt>, u64))
    ensures
        final(record).replies == old(record).replies,
        (Swept { outcome: outcome_view(swept.0), checked: swept.1, at: final(record).at as int })
            == sweep_run(items_view(sessions@), 0, old(record).log(), old(record).at as int),
{
    let ghost all = items_view(sessions@);
    let ghost log = record.log();
    let ghost start = record.at as int;
    let mut checked: u64 = 0;
    let mut i: usize = 0;
    assert(all.skip(0) =~= all);
    while i < sessions.len()
        invariant
            all == items_view(sessions@),
            i <= sessions.len(),
            checked <= i,
            record.replies == old(record).replies,
            log == old(record).log(),
            start == old(record).at,
            sweep_run(all, 0, log, start) == sweep_run(all.skip(i as int), checked, log, record.at as int),
        decreases sessions.len() - i,
    {
        proof {
            assert(all.skip(i as int).first() == json_view(sessions@[i as int]));
            assert(all.skip(i as int).drop_first() =~= all.skip(i + 1));
        }
        match record.check_cancelled() {
            Ok(()) => {},
            Err(halt) => {
                return (Err(halt), checked);
            },
        }
        match active_session(&sessions[i]) {
            None => {},
            Some(session_id) => {
                checked = checked + 1;
                match status(&Json::member("session_id", Json::text(session_id)), record) {
                    Ok(_) => {},
                    Err(halt) => {
                        return (Err(halt), checked);
                    },
                }
            },
        }
        i = i + 1;
    }
    (Ok(()), checked)
}

/// Turns to all active sessions that the host lists.
fn work(record: &mut Record) -> (swept: (Result<(), Halt>, u64))
    ensures
        final(record).replies == old(record).replies,
        (Swept { outcome: outcome_view(swept.0), checked: swept.1, at: final(record).at as int })
            == work_run(old(record).log(), old(record).at as int),
{
    reveal(work_run);
    match record.host_call("github-sessions", "host.sessions.list", Json::Null) {
        Err(halt) => (Err(halt), 0),
        Ok(response) => match response.items_at("sessions") {
            Some(sessions) => check_sessions(sessions, record),
            None => (Ok(()), 0),
        },
    }
}

/// What a finished attempt reports.
pub open spec fn report(checked: u64, attempt_id: Seq<char>) -> JsonView {
    JsonView::Object(
        map![
            "checked"@ => JsonView::Integer(checked as int),
            "attempt_id"@ => JsonView::Text(attempt_id),
        ],
    )
}

/// Writes down that an attempt failed, and fails. A cancelled request may still do so.
pub open spec fn fail_run(
    attempt_id: Seq<char>,
    error: ErrorView,
    checked: u64,
    finished_at: u64,
    log: Seq<ReplyView>,
    at: int,
) -> Run<JsonView> {
    followed_by(
        finish_run(
            true,
            attempt_id,
            "failed"@,
            checked,
            finished_at,
            Some(described(error)),
            log,
            at,
        ),
        |written: (), at: int| halted(HaltView::Fail(error), at),
    )
}

/// Writes down that an attempt failed, and fails.
fn fail_attempt(
    attempt_id: &str,
    error: RequestError,
    checked: u64,
    finished_at: u64,
    record: &mut Record,
) -> (outcome: Result<Json, Halt>)
    ensures
        final(record).follows(
            *old(record),
            outcome_view(outcome),
            fail_run(
                attempt_id@,
                error@,
                checked,
                finished_at,
                old(record).log(),
                old(record).at as int,
            ),
        ),
{
    let message = error.describe();
    finish_reconciliation(
        record,
        true,
        attempt_id,
        "failed",
        checked,
        finished_at,
        Some(message.as_str()),
    )?;
    Err(Halt::Fail(error))
}

/// Writes down that an attempt succeeded, and reports. Where that fails, the attempt has failed.
pub open spec fn succeed_run(
    attempt_id: Seq<char>,
    checked: u64,
    finished_at: u64,
    log: Seq<ReplyView>,
    at: int,
) -> Run<JsonView> {
    caught_by(
        finish_run(false, attempt_id, "idle"@, checked, finished_at, None, log, at),
        |written: Result<(), ErrorView>, at: int|
            match written {
                Ok(_) => done(report(checked, attempt_id), at),
                Err(error) => fail_run(attempt_id, error, checked, finished_at, log, at),
            },
    )
}

/// Writes down that an attempt succeeded, and reports.
fn succeed(
    attempt_id: &str,
    checked: u64,
    finished_at: u64,
    record: &mut Record,
) -> (outcome: Result<Json, Halt>)
    ensures
        final(record).follows(
            *old(record),
            outcome_view(outcome),
            succeed_run(
                attempt_id@,
                checked,
                finished_at,
                old(record).log(),
                old(record).at as int,
            ),
        ),
{
    match finish_reconciliation(record, false, attempt_id, "idle", checked, finished_at, None) {
        Ok(()) => {
            let mut report = Object::new();
            report.insert("checked".to_owned(), Json::natural(checked));
            report.insert("attempt_id".to_owned(), Json::text(attempt_id));
            Ok(Json::Object(report))
        },
        Err(Halt::Fail(error)) => fail_attempt(attempt_id, error, checked, finished_at, record),
        Err(halt) => Err(halt),
    }
}

/// Writes down how an attempt ended, from what its work came to. An attempt whose request was
/// cancelled has failed even where its work was done.
pub open spec fn settle_run(
    attempt_id: Seq<char>,
    work: Result<(), ErrorView>,
    checked: u64,
    finished_at: u64,
    log: Seq<ReplyView>,
    at: int,
) -> Run<JsonView> {
    match work {
        Ok(_) => followed_by(
            cancelled_run(log, at),
            |cancelled: bool, at: int|
                if cancelled {
                    fail_run(attempt_id, ErrorView::Cancelled, checked, finished_at, log, at)
                } else {
                    succeed_run(attempt_id, checked, finished_at, log, at)
                },
        ),
        Err(error) => fail_run(attempt_id, error, checked, finished_at, log, at),
    }
}

/// Writes down how an attempt ended, from what its work came to.
pub fn settle(
    attempt_id: &str,
    work: Result<(), RequestError>,
    checked: u64,
    finished_at: u64,
    record: &mut Record,
) -> (outcome: Result<Json, Halt>)
    ensures
        final(record).follows(
            *old(record),
            outcome_view(outcome),
            settle_run(
                attempt_id@,
                result_view(work),
                checked,
                finished_at,
                old(record).log(),
                old(record).at as int,
            ),
        ),
{
    match work {
        Ok(()) => if record.read_cancelled()? {
            fail_attempt(attempt_id, RequestError::Cancelled, checked, finished_at, record)
        } else {
            succeed(attempt_id, checked, finished_at, record)
        },
        Err(error) => fail_attempt(attempt_id, error, checked, finished_at, record),
    }
}

/// Brings an attempt to its end once its work has stopped.
pub open spec fn conclude_run(
    attempt_id: Seq<char>,
    swept: Swept,
    log: Seq<ReplyView>,
) -> Run<JsonView> {
    caught_by(
        Run { outcome: swept.outcome, at: swept.at },
        |work: Result<(), ErrorView>, at: int|
            followed_by(
                clock_run(log, at),
                |finished_at: u64, at: int|
                    settle_run(attempt_id, work, swept.checked, finished_at, log, at),
            ),
    )
}

/// An attempt: it is written down as running before any session is turned to.
pub open spec fn attempt_run(
    attempt_id: Seq<char>,
    started_at: u64,
    log: Seq<ReplyView>,
    at: int,
) -> Run<JsonView> {
    followed_by(
        begin_run(attempt_id, started_at, log, at),
        |begun: (), at: int| conclude_run(attempt_id, work_run(log, at), log),
    )
}

/// An attempt.
pub fn attempt(
    attempt_id: &str,
    started_at: u64,
    record: &mut Record,
) -> (outcome: Result<Json, Halt>)
    ensures
        final(record).follows(
            *old(record),
            outcome_view(outcome),
            attempt_run(attempt_id@, started_at, old(record).log(), old(record).at as int),
        ),
{
    begin_reconciliation(record, attempt_id, started_at)?;
    let (work, checked) = work(record);
    let work: Result<(), RequestError> = match work {
        Ok(()) => Ok(()),
        Err(Halt::Fail(error)) => Err(error),
        Err(halt) => {
            return Err(halt);
        },
    };
    let finished_at: u64 = record.read_clock()?;
    settle(attempt_id, work, checked, finished_at, record)
}

/// `github.reconcile`: makes an attempt, unless one is under way.
pub open spec fn reconcile_run(log: Seq<ReplyView>, at: int) -> Run<JsonView> {
    followed_by(
        lock_run(log, at),
        |locked: bool, at: int|
            if !locked {
                failed("reconciliation is already running"@, at)
            } else {
                followed_by(
                    check_run(log, at),
                    |checked: (), at: int|
                        followed_by(
                            clock_run(log, at),
                            |started_at: u64, at: int|
                                followed_by(
                                    sequence_run(log, at),
                                    |number: u64, at: int|
                                        attempt_run(
                                            attempt_name(started_at, number),
                                            started_at,
                                            log,
                                            at,
                                        ),
                                ),
                        ),
                )
            },
    )
}

/// `github.reconcile`: makes an attempt, unless one is under way.
pub fn reconcile(record: &mut Record) -> (outcome: Result<Json, Halt>)
    ensures
        final(record).follows(
            *old(record),
            outcome_view(outcome),
            reconcile_run(old(record).log(), old(record).at as int),
        ),
{
    if !record.lock_reconciliation()? {
        return Err(Halt::Fail(RequestError::message("reconciliation is already running")));
    }
    record.check_cancelled()?;
    let started_at: u64 = record.read_clock()?;
    let number: u64 = record.next_sequence()?;
    let attempt_id = name_attempt(started_at, number);
    attempt(attempt_id.as_str(), started_at, record)
}

/// How many of some sessions are active and have an id.
pub open spec fn active_count(sessions: Seq<JsonView>) -> nat
    decreases sessions.len(),
{
    if sessions.len() == 0 {
        0
    } else {
        active_count(sessions.drop_first()) + (if active_id(sessions.first()) is Some {
            1nat
        } else {
            0nat
        })
    }
}

/// An attempt whose work is done has counted each active session once; one that has failed has
/// counted no more of them.
pub proof fn law_attempts_count_the_active_sessions(
    sessions: Seq<JsonView>,
    checked: u64,
    log: Seq<ReplyView>,
    at: int,
)
    requires
        checked + sessions.len() <= u64::MAX,
    ensures
        ({
            let swept = sweep_run(sessions, checked, log, at);
            &&& swept.outcome is Ok ==> swept.checked == checked + active_count(sessions)
            &&& checked <= swept.checked <= checked + active_count(sessions)
        }),
    decreases sessions.len(),
{
    if sessions.len() > 0 {
        let go = check_run(log, at);
        let rest = sessions.drop_first();
        law_attempts_count_the_active_sessions(rest, checked, log, go.at);
        if let Some(session_id) = active_id(sessions.first()) {
            let shown = status_run(session_params(session_id), log, go.at);
            law_attempts_count_the_active_sessions(rest, (checked + 1) as u64, log, shown.at);
        }
    }
}

} // verus!
