//! How a request talks to the world outside the library.
//!
//! A request asks for one action at a time and goes on with the reply. Its whole state is the
//! record of the replies so far: the same record always leads to the same next action, or to the
//! same end. Whoever serves the request performs the action, adds the reply to the record, and
//! runs the request again from its start.

use vstd::prelude::*;
use crate::command::Program;
use crate::error::{ErrorView, RequestError, result_view};
use crate::json::{Json, JsonView};
use crate::text::{concat3, decimal, texts_view, to_decimal};

verus! {

/// What a request asks for.
#[derive(Debug, PartialEq)]
pub enum Action {
    /// Whether the request has been cancelled.
    CheckCancelled,
    /// The milliseconds since the start of 1970.
    ReadClock,
    /// A number that no one else gets.
    NextSequence,
    /// To be the only reconciliation until the request ends.
    LockReconciliation,
    /// A call to the host.
    HostCall { id: String, method: String, params: Json, allow_cancelled: bool },
    /// A run of a program in a directory.
    Run { program: Program, cwd: String, args: Vec<String> },
}

/// What an `Action` says.
pub enum ActionView {
    CheckCancelled,
    ReadClock,
    NextSequence,
    LockReconciliation,
    HostCall { id: Seq<char>, method: Seq<char>, params: JsonView, allow_cancelled: bool },
    Run { program: Program, cwd: Seq<char>, args: Seq<Seq<char>> },
}

impl View for Action {
    type V = ActionView;

    open spec fn view(&self) -> ActionView {
        match self {
            Action::CheckCancelled => ActionView::CheckCancelled,
            Action::ReadClock => ActionView::ReadClock,
            Action::NextSequence => ActionView::NextSequence,
            Action::LockReconciliation => ActionView::LockReconciliation,
            Action::HostCall { id, method, params, allow_cancelled } => ActionView::HostCall {
                id: id@,
                method: method@,
                params: params@,
                allow_cancelled: *allow_cancelled,
            },
            Action::Run { program, cwd, args } => ActionView::Run {
                program: *program,
                cwd: cwd@,
                args: texts_view(args@),
            },
        }
    }
}

/// What an action came to.
#[derive(Debug, PartialEq)]
pub enum Reply {
    Cancelled(bool),
    Clock(u64),
    Sequence(u64),
    Locked(bool),
    Host(Result<Json, RequestError>),
    Output(Result<String, RequestError>),
}

/// What a `Reply` says.
pub enum ReplyView {
    Cancelled(bool),
    Clock(u64),
    Sequence(u64),
    Locked(bool),
    Host(Result<JsonView, ErrorView>),
    Output(Result<Seq<char>, ErrorView>),
}

impl View for Reply {
    type V = ReplyView;

    open spec fn view(&self) -> ReplyView {
        match self {
            Reply::Cancelled(cancelled) => ReplyView::Cancelled(*cancelled),
            Reply::Clock(now) => ReplyView::Clock(*now),
            Reply::Sequence(number) => ReplyView::Sequence(*number),
            Reply::Locked(locked) => ReplyView::Locked(*locked),
            Reply::Host(result) => ReplyView::Host(result_view(*result)),
            Reply::Output(result) => ReplyView::Output(result_view(*result)),
        }
    }
}

/// Whether a reply answers an action: it is of the kind that the action asks for.
pub open spec fn answers(action: ActionView, reply: ReplyView) -> bool {
    match action {
        ActionView::CheckCancelled => reply is Cancelled,
        ActionView::ReadClock => reply is Clock,
        ActionView::NextSequence => reply is Sequence,
        ActionView::LockReconciliation => reply is Locked,
        ActionView::HostCall { id, method, params, allow_cancelled } => reply is Host,
        ActionView::Run { program, cwd, args } => reply is Output,
    }
}

/// What the replies so far say.
pub open spec fn log_view(replies: Seq<Reply>) -> Seq<ReplyView> {
    replies.map_values(|reply: Reply| reply@)
}

/// Why a request does not go on.
#[derive(Debug, PartialEq)]
pub enum Halt {
    /// It waits for the reply to an action.
    Ask(Action),
    /// It has failed.
    Fail(RequestError),
    /// A reply on record does not answer the action that was asked for.
    Stray,
}

/// What a `Halt` says.
pub enum HaltView {
    Ask(ActionView),
    Fail(ErrorView),
    Stray,
}

impl View for Halt {
    type V = HaltView;

    open spec fn view(&self) -> HaltView {
        match self {
            Halt::Ask(action) => HaltView::Ask(action@),
            Halt::Fail(error) => HaltView::Fail(error@),
            Halt::Stray => HaltView::Stray,
        }
    }
}

/// What the outcome of a part of a request says.
pub open spec fn outcome_view<T: View>(outcome: Result<T, Halt>) -> Result<T::V, HaltView> {
    match outcome {
        Ok(value) => Ok(value@),
        Err(halt) => Err(halt@),
    }
}

/// A part of a request: what it comes to, and how many replies have been used up behind it.
pub struct Run<T> {
    pub outcome: Result<T, HaltView>,
    pub at: int,
}

/// A part that comes to `value`.
pub open spec fn done<T>(value: T, at: int) -> Run<T> {
    Run { outcome: Ok(value), at }
}

/// A part that halts.
pub open spec fn halted<T>(halt: HaltView, at: int) -> Run<T> {
    Run { outcome: Err(halt), at }
}

/// A part that fails with `message`.
pub open spec fn failed<T>(message: Seq<char>, at: int) -> Run<T> {
    halted(HaltView::Fail(ErrorView::Message(message)), at)
}

/// A part that uses no reply.
pub open spec fn lifted<T>(result: Result<T, ErrorView>, at: int) -> Run<T> {
    match result {
        Ok(value) => done(value, at),
        Err(error) => halted(HaltView::Fail(error), at),
    }
}

/// One part, and then another that goes on from it.
pub open spec fn followed_by<A, B>(run: Run<A>, next: spec_fn(A, int) -> Run<B>) -> Run<B> {
    match run.outcome {
        Ok(value) => next(value, run.at),
        Err(halt) => halted(halt, run.at),
    }
}

/// One part, and then another that goes on from it also where it failed.
pub open spec fn caught_by<A, B>(
    run: Run<A>,
    next: spec_fn(Result<A, ErrorView>, int,
) -> Run<B>) -> Run<B> {
    match run.outcome {
        Ok(value) => next(Ok(value), run.at),
        Err(HaltView::Fail(error)) => next(Err(error), run.at),
        Err(halt) => halted(halt, run.at),
    }
}

/// The reply to `action`, where there is one on record.
pub open spec fn answer(
    action: ActionView,
    log: Seq<ReplyView>,
    at: int,
) -> Result<ReplyView, HaltView> {
    if 0 <= at < log.len() {
        Ok(log[at])
    } else {
        Err(HaltView::Ask(action))
    }
}

/// The flag of the request.
pub open spec fn cancelled_run(log: Seq<ReplyView>, at: int) -> Run<bool> {
    match answer(ActionView::CheckCancelled, log, at) {
        Ok(ReplyView::Cancelled(cancelled)) => done(cancelled, at + 1),
        Ok(_) => halted(HaltView::Stray, at + 1),
        Err(halt) => halted(halt, at),
    }
}

/// A check that fails where the request has been cancelled.
pub open spec fn check_run(log: Seq<ReplyView>, at: int) -> Run<()> {
    followed_by(
        cancelled_run(log, at),
        |cancelled: bool, at: int|
            if cancelled {
                halted(HaltView::Fail(ErrorView::Cancelled), at)
            } else {
                done((), at)
            },
    )
}

/// The time.
pub open spec fn clock_run(log: Seq<ReplyView>, at: int) -> Run<u64> {
    match answer(ActionView::ReadClock, log, at) {
        Ok(ReplyView::Clock(now)) => done(now, at + 1),
        Ok(_) => halted(HaltView::Stray, at + 1),
        Err(halt) => halted(halt, at),
    }
}

/// A fresh number.
pub open spec fn sequence_run(log: Seq<ReplyView>, at: int) -> Run<u64> {
    match answer(ActionView::NextSequence, log, at) {
        Ok(ReplyView::Sequence(number)) => done(number, at + 1),
        Ok(_) => halted(HaltView::Stray, at + 1),
        Err(halt) => halted(halt, at),
    }
}

/// Whether the lock was free.
pub open spec fn lock_run(log: Seq<ReplyView>, at: int) -> Run<bool> {
    match answer(ActionView::LockReconciliation, log, at) {
        Ok(ReplyView::Locked(locked)) => done(locked, at + 1),
        Ok(_) => halted(HaltView::Stray, at + 1),
        Err(halt) => halted(halt, at),
    }
}

/// The id of a call to the host.
pub open spec fn callback_id(id_prefix: Seq<char>, number: u64) -> Seq<char> {
    id_prefix + "-"@ + decimal(number as nat)
}

/// The reply to a call to the host.
pub open spec fn reply_run(
    id: Seq<char>,
    method: Seq<char>,
    params: JsonView,
    allow_cancelled: bool,
    log: Seq<ReplyView>,
    at: int,
) -> Run<JsonView> {
    match answer(ActionView::HostCall { id, method, params, allow_cancelled }, log, at) {
        Ok(ReplyView::Host(result)) => lifted(result, at + 1),
        Ok(_) => halted(HaltView::Stray, at + 1),
        Err(halt) => halted(halt, at),
    }
}

/// A check that is left out where a cancelled request may go on.
pub open spec fn check_unless_run(allow_cancelled: bool, log: Seq<ReplyView>, at: int) -> Run<()> {
    if allow_cancelled {
        done((), at)
    } else {
        check_run(log, at)
    }
}

/// A call to the host under an id that no other call has. A cancelled request makes none, unless
/// it may go on.
pub open spec fn host_run(
    id_prefix: Seq<char>,
    method: Seq<char>,
    params: JsonView,
    allow_cancelled: bool,
    log: Seq<ReplyView>,
    at: int,
) -> Run<JsonView> {
    followed_by(
        check_unless_run(allow_cancelled, log, at),
        |checked: (), at: int|
            followed_by(
                sequence_run(log, at),
                |number: u64, at: int|
                    reply_run(
                        callback_id(id_prefix, number),
                        method,
                        params,
                        allow_cancelled,
                        log,
                        at,
                    ),
            ),
    )
}

/// What a program came to.
pub open spec fn output_run(
    program: Program,
    cwd: Seq<char>,
    args: Seq<Seq<char>>,
    log: Seq<ReplyView>,
    at: int,
) -> Run<Seq<char>> {
    match answer(ActionView::Run { program, cwd, args }, log, at) {
        Ok(ReplyView::Output(result)) => lifted(result, at + 1),
        Ok(_) => halted(HaltView::Stray, at + 1),
        Err(halt) => halted(halt, at),
    }
}

/// A run of a program. A cancelled request starts none.
pub open spec fn program_run(
    program: Program,
    cwd: Seq<char>,
    args: Seq<Seq<char>>,
    log: Seq<ReplyView>,
    at: int,
) -> Run<Seq<char>> {
    followed_by(
        check_run(log, at),
        |checked: (), at: int| output_run(program, cwd, args, log, at),
    )
}

/// The record of a request, and how many of its replies have been used up.
pub struct Record<'a> {
    pub replies: &'a Vec<Reply>,
    pub at: usize,
}

impl<'a> Record<'a> {
    /// What the replies say.
    pub open spec fn log(self) -> Seq<ReplyView> {
        log_view(self.replies@)
    }

    /// Whether a part of a request that started at `before` and ended at `self` came to `run`.
    pub open spec fn follows<T>(
        self,
        before: Record<'a>,
        outcome: Result<T, HaltView>,
        run: Run<T>,
    ) -> bool {
        self.replies == before.replies && outcome == run.outcome && self.at == run.at
    }

    /// The flag of the request.
    pub fn read_cancelled(&mut self) -> (outcome: Result<bool, Halt>)
        ensures
            final(self).follows(
                *old(self),
                outcome_view(outcome),
                cancelled_run(old(self).log(), old(self).at as int),
            ),
    {
        if self.at >= self.replies.len() {
            return Err(Halt::Ask(Action::CheckCancelled));
        }
        match self.replies[self.at] {
            Reply::Cancelled(cancelled) => {
                self.at = self.at + 1;
                Ok(cancelled)
            },
            _ => {
                self.at = self.at + 1;
                Err(Halt::Stray)
            },
        }
    }

    /// Fails where the request has been cancelled.
    pub fn check_cancelled(&mut self) -> (outcome: Result<(), Halt>)
        ensures
            final(self).follows(
                *old(self),
                outcome_view(outcome),
                check_run(old(self).log(), old(self).at as int),
            ),
    {
        if self.read_cancelled()? {
            Err(Halt::Fail(RequestError::Cancelled))
        } else {
            Ok(())
        }
    }

    /// The time.
    pub fn read_clock(&mut self) -> (outcome: Result<u64, Halt>)
        ensures
            final(self).follows(
                *old(self),
                outcome_view(outcome),
                clock_run(old(self).log(), old(self).at as int),
            ),
    {
        if self.at >= self.replies.len() {
            return Err(Halt::Ask(Action::ReadClock));
        }
        match self.replies[self.at] {
            Reply::Clock(now) => {
                self.at = self.at + 1;
                Ok(now)
            },
            _ => {
                self.at = self.at + 1;
                Err(Halt::Stray)
            },
        }
    }

    /// A fresh number.
    pub fn next_sequence(&mut self) -> (outcome: Result<u64, Halt>)
        ensures
            final(self).follows(
                *old(self),
                outcome_view(outcome),
                sequence_run(old(self).log(), old(self).at as int),
            ),
    {
        if self.at >= self.replies.len() {
            return Err(Halt::Ask(Action::NextSequence));
        }
        match self.replies[self.at] {
            Reply::Sequence(number) => {
                self.at = self.at + 1;
                Ok(number)
            },
            _ => {
                self.at = self.at + 1;
                Err(Halt::Stray)
            },
        }
    }

    /// Whether the lock was free.
    pub fn lock_reconciliation(&mut self) -> (outcome: Result<bool, Halt>)
        ensures
            final(self).follows(
                *old(self),
                outcome_view(outcome),
                lock_run(old(self).log(), old(self).at as int),
            ),
    {
        if self.at >= self.replies.len() {
            return Err(Halt::Ask(Action::LockReconciliation));
        }
        match self.replies[self.at] {
            Reply::Locked(locked) => {
                self.at = self.at + 1;
                Ok(locked)
            },
            _ => {
                self.at = self.at + 1;
                Err(Halt::Stray)
            },
        }
    }

    /// Fails where the request has been cancelled, unless it may go on.
    pub fn check_unless(&mut self, allow_cancelled: bool) -> (outcome: Result<(), Halt>)
        ensures
            final(self).follows(
                *old(self),
                outcome_view(outcome),
                check_unless_run(allow_cancelled, old(self).log(), old(self).at as int),
            ),
    {
        if allow_cancelled {
            Ok(())
        } else {
            self.check_cancelled()
        }
    }

    /// The reply to a call to the host.
    fn host_reply(
        &mut self,
        id: String,
        method: &str,
        params: Json,
        allow_cancelled: bool,
    ) -> (outcome: Result<
        Json,
        Halt,
    >)
        ensures
            final(self).follows(
                *old(self),
                outcome_view(outcome),
                reply_run(
                    id@,
                    method@,
                    params@,
                    allow_cancelled,
                    old(self).log(),
                    old(self).at as int,
                ),
            ),
    {
        if self.at >= self.replies.len() {
            return Err(
                Halt::Ask(
                    Action::HostCall { id, method: method.to_owned(), params, allow_cancelled },
                ),
            );
        }
        match &self.replies[self.at] {
            Reply::Host(Ok(response)) => {
                let response = response.copy();
                self.at = self.at + 1;
                Ok(response)
            },
            Reply::Host(Err(error)) => {
                let error = error.copy();
                self.at = self.at + 1;
                Err(Halt::Fail(error))
            },
            _ => {
                self.at = self.at + 1;
                Err(Halt::Stray)
            },
        }
    }

    /// A call to the host. A cancelled request makes none, unless it may go on.
    pub fn host_call_with_cancellation(
        &mut self,
        id_prefix: &str,
        method: &str,
        params: Json,
        allow_cancelled: bool,
    ) -> (outcome: Result<Json, Halt>)
        ensures
            final(self).follows(
                *old(self),
                outcome_view(outcome),
                host_run(
                    id_prefix@,
                    method@,
                    params@,
                    allow_cancelled,
                    old(self).log(),
                    old(self).at as int,
                ),
            ),
    {
        self.check_unless(allow_cancelled)?;
        let number: u64 = self.next_sequence()?;
        let id = concat3(id_prefix, "-", to_decimal(number).as_str());
        self.host_reply(id, method, params, allow_cancelled)
    }

    /// A call to the host that a cancelled request does not make.
    pub fn host_call(
        &mut self,
        id_prefix: &str,
        method: &str,
        params: Json,
    ) -> (outcome: Result<Json, Halt>)
        ensures
            final(self).follows(
                *old(self),
                outcome_view(outcome),
                host_run(
                    id_prefix@,
                    method@,
                    params@,
                    false,
                    old(self).log(),
                    old(self).at as int,
                ),
            ),
    {
        self.host_call_with_cancellation(id_prefix, method, params, false)
    }

    /// What a program came to.
    fn program_output(
        &mut self,
        program: Program,
        cwd: &str,
        args: Vec<String>,
    ) -> (outcome: Result<
        String,
        Halt,
    >)
        ensures
            final(self).follows(
                *old(self),
                outcome_view(outcome),
                output_run(program, cwd@, texts_view(args@), old(self).log(), old(self).at as int),
            ),
    {
        if self.at >= self.replies.len() {
            return Err(Halt::Ask(Action::Run { program, cwd: cwd.to_owned(), args }));
        }
        match &self.replies[self.at] {
            Reply::Output(Ok(text)) => {
                let text = text.clone();
                self.at = self.at + 1;
                Ok(text)
            },
            Reply::Output(Err(error)) => {
                let error = error.copy();
                self.at = self.at + 1;
                Err(Halt::Fail(error))
            },
            _ => {
                self.at = self.at + 1;
                Err(Halt::Stray)
            },
        }
    }

    /// A run of a program. A cancelled request starts none.
    pub fn command_output(
        &mut self,
        program: Program,
        cwd: &str,
        args: Vec<String>,
    ) -> (outcome: Result<
        String,
        Halt,
    >)
        ensures
            final(self).follows(
                *old(self),
                outcome_view(outcome),
                program_run(program, cwd@, texts_view(args@), old(self).log(), old(self).at as int),
            ),
    {
        self.check_cancelled()?;
        self.program_output(program, cwd, args)
    }
}

/// A part of a request that uses no reply.
pub fn lift<T: View>(result: Result<T, RequestError>) -> (outcome: Result<T, Halt>)
    ensures
        outcome_view(outcome) == (match result {
            Ok(value) => Ok::<T::V, HaltView>(value@),
            Err(error) => Err(HaltView::Fail(error@)),
        }),
        result matches Ok(value) ==> outcome == Ok::<T, Halt>(value),
{
    match result {
        Ok(value) => Ok(value),
        Err(error) => Err(Halt::Fail(error)),
    }
}

} // verus!
