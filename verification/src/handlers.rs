//! The requests that the host makes of the plugin.

use vstd::prelude::*;
use crate::arguments::{
    create_args, create_arguments, diff_args, diff_arguments, log_args, log_arguments, merge_args,
    merge_arguments, push_args, push_arguments, ready_args, ready_arguments, remote_args,
    remote_arguments, view_args, view_arguments,
};
use crate::codec::{parse_json, parsed_text, parsed_view};
use crate::command::Program;
use crate::error::{ErrorView, RequestError, result_view};
use crate::exchange::{
    Halt, HaltView, Record, ReplyView, Run, caught_by, done, followed_by, halted, host_run, lift,
    lifted, outcome_view, program_run,
};
use crate::github::{
    describe_failure, failed_run, failure_message, first_failed, github_remote, is_github_remote,
    is_no_pull_request, merge_flag, no_pull_request, project_pr_status, projected_status,
    strategy_flag, suggest_body, suggested_body,
};
use crate::json::{Json, JsonView, Object};
use crate::settings::{clear_pr_mapping, clear_run, persist_pr_mapping, persist_run};
use crate::state::{invalid_text, strict_string, strict_text};
use crate::text::{concat, is_blank, trim, trimmed};

verus! {

/// A member of the parameters that must be a string and not blank.
pub open spec fn required(params: JsonView, field: Seq<char>) -> Result<Seq<char>, ErrorView> {
    match strict_text(params.field(field)) {
        Some(text) => Ok(text),
        None => Err(ErrorView::Message(field + " is required"@)),
    }
}

/// A member of the parameters that must be a string and not blank.
pub fn required_string<'a>(params: &'a Json, field: &str) -> (text: Result<&'a str, RequestError>)
    ensures
        result_view(text) == required(params@, field@),
{
    match params.text_at(field) {
        Some(text) => if is_blank(text) {
            Err(RequestError::Message(concat(field, " is required")))
        } else {
            Ok(text)
        },
        None => Err(RequestError::Message(concat(field, " is required"))),
    }
}

/// A member of a repository context that must be a string and not blank.
pub open spec fn context_text(context: JsonView, field: Seq<char>) -> Result<Seq<char>, ErrorView> {
    match strict_text(context.field(field)) {
        Some(text) => Ok(text),
        None => Err(ErrorView::Message("repository context did not include "@ + field)),
    }
}

/// A member of a repository context that must be a string and not blank.
pub fn context_string(context: &Json, field: &str) -> (text: Result<String, RequestError>)
    ensures
        result_view(text) == context_text(context@, field@),
{
    match strict_string(context.get(field), field) {
        Ok(text) => Ok(text),
        Err(_) => Err(RequestError::Message(concat("repository context did not include ", field))),
    }
}

/// The directory of a repository context.
pub open spec fn context_directory(context: JsonView) -> Result<Seq<char>, ErrorView> {
    context_text(context, "working_tree_path"@)
}

/// The directory of a repository context.
pub fn context_path(context: &Json) -> (path: Result<String, RequestError>)
    ensures
        result_view(path) == context_directory(context@),
{
    context_string(context, "working_tree_path")
}

/// Asks the host about the repository of the session.
pub open spec fn context_run(params: JsonView, log: Seq<ReplyView>, at: int) -> Run<JsonView> {
    followed_by(
        lifted(required(params, "session_id"@), at),
        |session_id: Seq<char>, at: int|
            host_run(
                "github-context-"@ + session_id,
                "host.sessions.repositoryContext"@,
                JsonView::Object(map!["session_id"@ => JsonView::Text(session_id)]),
                false,
                log,
                at,
            ),
    )
}

/// Asks the host about the repository of the session.
pub fn repository_context(params: &Json, record: &mut Record) -> (outcome: Result<Json, Halt>)
    ensures
        final(record).follows(
            *old(record),
            outcome_view(outcome),
            context_run(params@, old(record).log(), old(record).at as int),
        ),
{
    let session_id = lift(required_string(params, "session_id"))?;
    let id_prefix = concat("github-context-", session_id);
    record.host_call(
        id_prefix.as_str(),
        "host.sessions.repositoryContext",
        Json::member("session_id", Json::text(session_id)),
    )
}

/// The value that a program printed as JSON, or what is said where it is none.
pub open spec fn printed(
    fault: Seq<char>,
    parsed: Result<JsonView, Seq<char>>,
) -> Result<JsonView, ErrorView> {
    match parsed {
        Ok(value) => Ok(value),
        Err(message) => Err(ErrorView::Message(fault + message)),
    }
}

/// The value that a program printed as JSON, or what is said where it is none.
pub fn printed_value(
    fault: &str,
    parsed: Result<Json, String>,
) -> (value: Result<Json, RequestError>)
    ensures
        result_view(value) == printed(fault@, parsed_view(parsed)),
{
    match parsed {
        Ok(value) => Ok(value),
        Err(message) => Err(RequestError::Message(concat(fault, message.as_str()))),
    }
}

/// A member of a pull request that must be a string and not blank.
pub open spec fn pull_request_text(
    value: Option<JsonView>,
    field: Seq<char>,
) -> Result<Seq<char>, ErrorView> {
    match strict_text(value) {
        Some(text) => Ok(text),
        None => Err(ErrorView::Message(invalid_text(field))),
    }
}

/// The answer to a status request where the remote is not on GitHub.
pub open spec fn not_applicable() -> JsonView {
    JsonView::Object(
        map![
            "applicable"@ => JsonView::Bool(false),
            "reason"@ => JsonView::Text("The origin remote is not github.com."@),
        ],
    )
}

/// The answer to a status request where the remote is on GitHub.
pub open spec fn applicable(remote: Seq<char>, pr: JsonView) -> JsonView {
    JsonView::Object(
        map![
            "applicable"@ => JsonView::Bool(true),
            "remote"@ => JsonView::Text(trimmed(remote)),
            "pr"@ => pr,
        ],
    )
}

/// The answer to a status request where the remote is not on GitHub.
fn answer_not_applicable() -> (json: Json)
    ensures
        json@ == not_applicable(),
{
    let mut answer = Object::new();
    answer.insert("applicable".to_owned(), Json::Bool(false));
    answer.insert("reason".to_owned(), Json::text("The origin remote is not github.com."));
    Json::Object(answer)
}

/// The answer to a status request where the remote is on GitHub.
fn answer_applicable(remote: &str, pr: Json) -> (json: Json)
    ensures
        json@ == applicable(remote@, pr@),
{
    let mut answer = Object::new();
    answer.insert("applicable".to_owned(), Json::Bool(true));
    answer.insert("remote".to_owned(), Json::text(trim(remote)));
    answer.insert("pr".to_owned(), pr);
    Json::Object(answer)
}

/// What a status request shows of a pull request.
pub open spec fn status_fields() -> Seq<char> {
    "url,state,isDraft,statusCheckRollup,mergeable,mergeStateStatus,reviewDecision"@
}

/// Maps the pull request that `gh` found for a branch to the session, and shows it.
pub open spec fn found_run(
    parsed: Result<JsonView, Seq<char>>,
    session_id: Seq<char>,
    remote: Seq<char>,
    branch: Seq<char>,
    log: Seq<ReplyView>,
    at: int,
) -> Run<JsonView> {
    followed_by(
        lifted(printed("failed to parse gh pr view output: "@, parsed), at),
        |pr: JsonView, at: int|
            followed_by(
                lifted(
                    pull_request_text(projected_status(pr).field("url"@), "pull request url"@),
                    at,
                ),
                |url: Seq<char>, at: int|
                    followed_by(
                        lifted(
                            pull_request_text(
                                projected_status(pr).field("state"@),
                                "pull request state"@,
                            ),
                            at,
                        ),
                        |state: Seq<char>, at: int|
                            followed_by(
                                persist_run(
                                    session_id,
                                    url,
                                    state,
                                    Some(trimmed(remote)),
                                    Some(branch),
                                    log,
                                    at,
                                ),
                                |persisted: (), at: int|
                                    done(applicable(remote, projected_status(pr)), at),
                            ),
                    ),
            ),
    )
}

/// Maps the pull request that `gh` found for a branch to the session, and shows it.
pub fn found_pull_request(
    parsed: Result<Json, String>,
    session_id: &str,
    remote: &str,
    branch: &str,
    record: &mut Record,
) -> (outcome: Result<Json, Halt>)
    ensures
        final(record).follows(
            *old(record),
            outcome_view(outcome),
            found_run(
                parsed_view(parsed),
                session_id@,
                remote@,
                branch@,
                old(record).log(),
                old(record).at as int,
            ),
        ),
{
    let pr = lift(printed_value("failed to parse gh pr view output: ", parsed))?;
    let projected = project_pr_status(&pr);
    let url = lift(strict_string(projected.get("url"), "pull request url"))?;
    let state = lift(strict_string(projected.get("state"), "pull request state"))?;
    persist_pr_mapping(
        record,
        session_id,
        url.as_str(),
        state.as_str(),
        Some(trim(remote)),
        Some(branch),
    )?;
    Ok(answer_applicable(remote, projected))
}

/// What follows from what `gh` says of the pull request of a branch. Where it says that there is
/// none, the session loses its mapping.
pub open spec fn looked_up_run(
    raw: Result<Seq<char>, ErrorView>,
    session_id: Seq<char>,
    remote: Seq<char>,
    branch: Seq<char>,
    log: Seq<ReplyView>,
    at: int,
) -> Run<JsonView> {
    match raw {
        Ok(raw) => found_run(parsed_text(raw), session_id, remote, branch, log, at),
        Err(ErrorView::Message(error)) => if no_pull_request(error) {
            followed_by(
                clear_run(session_id, log, at),
                |cleared: (), at: int| done(applicable(remote, JsonView::Null), at),
            )
        } else {
            halted(HaltView::Fail(ErrorView::Message(error)), at)
        },
        Err(error) => halted(HaltView::Fail(error), at),
    }
}

/// What follows from what `gh` says of the pull request of a branch.
fn looked_up(
    raw: Result<String, RequestError>,
    session_id: &str,
    remote: &str,
    branch: &str,
    record: &mut Record,
) -> (outcome: Result<Json, Halt>)
    ensures
        final(record).follows(
            *old(record),
            outcome_view(outcome),
            looked_up_run(
                result_view(raw),
                session_id@,
                remote@,
                branch@,
                old(record).log(),
                old(record).at as int,
            ),
        ),
{
    match raw {
        Ok(raw) => found_pull_request(parse_json(raw.as_str()), session_id, remote, branch, record),
        Err(RequestError::Message(error)) => if is_no_pull_request(error.as_str()) {
            clear_pr_mapping(record, session_id)?;
            Ok(answer_applicable(remote, Json::Null))
        } else {
            Err(Halt::Fail(RequestError::Message(error)))
        },
        Err(error) => Err(Halt::Fail(error)),
    }
}

/// Looks up the pull request of the session's branch.
pub open spec fn lookup_run(
    session_id: Seq<char>,
    repository: JsonView,
    cwd: Seq<char>,
    remote: Seq<char>,
    log: Seq<ReplyView>,
    at: int,
) -> Run<JsonView> {
    followed_by(
        lifted(context_text(repository, "branch"@), at),
        |branch: Seq<char>, at: int|
            caught_by(
                program_run(Program::Gh, cwd, view_args(branch, status_fields()), log, at),
                |raw: Result<Seq<char>, ErrorView>, at: int|
                    looked_up_run(raw, session_id, remote, branch, log, at),
            ),
    )
}

/// Looks up the pull request of the session's branch.
fn look_up(
    session_id: &str,
    repository: &Json,
    cwd: &str,
    remote: &str,
    record: &mut Record,
) -> (outcome: Result<Json, Halt>)
    ensures
        final(record).follows(
            *old(record),
            outcome_view(outcome),
            lookup_run(
                session_id@,
                repository@,
                cwd@,
                remote@,
                old(record).log(),
                old(record).at as int,
            ),
        ),
{
    let branch = lift(context_string(repository, "branch"))?;
    let args = view_arguments(
        branch.as_str(),
        "url,state,isDraft,statusCheckRollup,mergeable,mergeStateStatus,reviewDecision",
    );
    let raw: Result<String, RequestError> = match record.command_output(Program::Gh, cwd, args) {
        Ok(raw) => Ok(raw),
        Err(Halt::Fail(error)) => Err(error),
        Err(halt) => {
            return Err(halt);
        },
    };
    looked_up(raw, session_id, remote, branch.as_str(), record)
}

/// `github.status`: shows the pull request of the session's branch. A remote that is not on
/// GitHub ends the request before `gh` is run.
#[verifier::opaque]
pub open spec fn status_run(params: JsonView, log: Seq<ReplyView>, at: int) -> Run<JsonView> {
    followed_by(
        lifted(required(params, "session_id"@), at),
        |session_id: Seq<char>, at: int|
            followed_by(
                context_run(params, log, at),
                |repository: JsonView, at: int|
                    followed_by(
                        lifted(context_directory(repository), at),
                        |cwd: Seq<char>, at: int|
                            followed_by(
                                program_run(Program::Git, cwd, remote_args(), log, at),
                                |remote: Seq<char>, at: int|
                                    if github_remote(remote) {
                                        lookup_run(session_id, repository, cwd, remote, log, at)
                                    } else {
                                        done(not_applicable(), at)
                                    },
                            ),
                    ),
            ),
    )
}

/// `github.status`: shows the pull request of the session's branch.
pub fn status(params: &Json, record: &mut Record) -> (outcome: Result<Json, Halt>)
    ensures
        final(record).follows(
            *old(record),
            outcome_view(outcome),
            status_run(params@, old(record).log(), old(record).at as int),
        ),
{
    reveal(status_run);
    let session_id = lift(required_string(params, "session_id"))?;
    let repository = repository_context(params, record)?;
    let cwd = lift(context_path(&repository))?;
    let remote = record.command_output(Program::Git, cwd.as_str(), remote_arguments())?;
    if !is_github_remote(remote.as_str()) {
        return Ok(answer_not_applicable());
    }
    look_up(session_id, &repository, cwd.as_str(), remote.as_str(), record)
}

/// Where the branch of a session is checked out.
pub struct Checkout {
    pub repository: Json,
    pub cwd: String,
    pub branch: String,
}

/// What a `Checkout` says.
pub struct CheckoutView {
    pub repository: JsonView,
    pub cwd: Seq<char>,
    pub branch: Seq<char>,
}

impl View for Checkout {
    type V = CheckoutView;

    open spec fn view(&self) -> CheckoutView {
        CheckoutView { repository: self.repository@, cwd: self.cwd@, branch: self.branch@ }
    }
}

/// Finds out where the branch of the session is checked out.
pub open spec fn checkout_run(params: JsonView, log: Seq<ReplyView>, at: int) -> Run<CheckoutView> {
    followed_by(
        context_run(params, log, at),
        |repository: JsonView, at: int|
            followed_by(
                lifted(context_directory(repository), at),
                |cwd: Seq<char>, at: int|
                    followed_by(
                        lifted(context_text(repository, "branch"@), at),
                        |branch: Seq<char>, at: int|
                            done(CheckoutView { repository, cwd, branch }, at),
                    ),
            ),
    )
}

/// Finds out where the branch of the session is checked out.
fn checkout(params: &Json, record: &mut Record) -> (outcome: Result<Checkout, Halt>)
    ensures
        final(record).follows(
            *old(record),
            outcome_view(outcome),
            checkout_run(params@, old(record).log(), old(record).at as int),
        ),
{
    let repository = repository_context(params, record)?;
    let cwd = lift(context_path(&repository))?;
    let branch = lift(context_string(&repository, "branch"))?;
    Ok(Checkout { repository, cwd, branch })
}

/// The branch that a pull request is suggested for.
pub open spec fn base_branch(repository: JsonView) -> Seq<char> {
    match repository.text_at("base_branch"@) {
        Some(base) => if base.len() == 0 {
            "main"@
        } else {
            base
        },
        None => "main"@,
    }
}

/// The branch that a pull request is suggested for.
fn suggest_base(repository: &Json) -> (base: &str)
    ensures
        base@ == base_branch(repository@),
{
    match repository.text_at("base_branch") {
        Some(base) => if base.unicode_len() == 0 {
            "main"
        } else {
            base
        },
        None => "main",
    }
}

/// What is suggested for a pull request.
pub open spec fn suggestion(title: Seq<char>, diff: Seq<char>, base: Seq<char>) -> JsonView {
    JsonView::Object(
        map![
            "title"@ => JsonView::Text(title),
            "body"@ => JsonView::Text(suggested_body(diff)),
            "base_branch"@ => JsonView::Text(base),
        ],
    )
}

/// `github.defaults`: suggests a pull request. A diff that cannot be had counts as empty.
pub open spec fn defaults_run(params: JsonView, log: Seq<ReplyView>, at: int) -> Run<JsonView> {
    followed_by(
        checkout_run(params, log, at),
        |place: CheckoutView, at: int|
            caught_by(
                program_run(
                    Program::Git,
                    place.cwd,
                    diff_args(base_branch(place.repository)),
                    log,
                    at,
                ),
                |diff: Result<Seq<char>, ErrorView>, at: int|
                    done(
                        suggestion(
                            place.branch,
                            match diff {
                                Ok(diff) => diff,
                                Err(_) => Seq::empty(),
                            },
                            base_branch(place.repository),
                        ),
                        at,
                    ),
            ),
    )
}

/// `github.defaults`: suggests a pull request.
pub fn defaults(params: &Json, record: &mut Record) -> (outcome: Result<Json, Halt>)
    ensures
        final(record).follows(
            *old(record),
            outcome_view(outcome),
            defaults_run(params@, old(record).log(), old(record).at as int),
        ),
{
    let place = checkout(params, record)?;
    let base = suggest_base(&place.repository);
    let diff: String = match record.command_output(Program::Git, place.cwd.as_str(), diff_arguments(base)) {
        Ok(diff) => diff,
        Err(Halt::Fail(_)) => String::new(),
        Err(halt) => {
            return Err(halt);
        },
    };
    let mut answer = Object::new();
    answer.insert("title".to_owned(), Json::text(place.branch.as_str()));
    answer.insert("body".to_owned(), Json::Text(suggest_body(diff.as_str())));
    answer.insert("base_branch".to_owned(), Json::text(base));
    Ok(Json::Object(answer))
}

/// What a pull request is created with.
pub struct Draft<'a> {
    pub title: &'a str,
    pub body: &'a str,
    pub base: &'a str,
    pub draft: bool,
}

/// What a `Draft` says.
pub struct DraftView {
    pub title: Seq<char>,
    pub body: Seq<char>,
    pub base: Seq<char>,
    pub draft: bool,
}

impl<'a> View for Draft<'a> {
    type V = DraftView;

    open spec fn view(&self) -> DraftView {
        DraftView { title: self.title@, body: self.body@, base: self.base@, draft: self.draft }
    }
}

/// What a pull request is created with: the title and the base are required.
pub open spec fn drafted(params: JsonView) -> Result<DraftView, ErrorView> {
    match required(params, "title"@) {
        Err(error) => Err(error),
        Ok(title) => match required(params, "base_branch"@) {
            Err(error) => Err(error),
            Ok(base) => Ok(
                DraftView {
                    title,
                    body: match params.text_at("body"@) {
                        Some(body) => body,
                        None => ""@,
                    },
                    base,
                    draft: params.bool_at("draft"@) == Some(true),
                },
            ),
        },
    }
}

/// What a pull request is created with.
fn draft<'a>(params: &'a Json) -> (draft: Result<Draft<'a>, RequestError>)
    ensures
        result_view(draft) == drafted(params@),
{
    let title = required_string(params, "title")?;
    let body = match params.text_at("body") {
        Some(body) => body,
        None => "",
    };
    let base = required_string(params, "base_branch")?;
    let draft = match params.bool_at("draft") {
        Some(draft) => draft,
        None => false,
    };
    Ok(Draft { title, body, base, draft })
}

/// Maps the pull request that `gh` created to the session.
pub open spec fn created_run(
    params: JsonView,
    place: CheckoutView,
    draft: bool,
    printed_url: Seq<char>,
    log: Seq<ReplyView>,
    at: int,
) -> Run<JsonView> {
    followed_by(
        program_run(Program::Git, place.cwd, remote_args(), log, at),
        |remote: Seq<char>, at: int|
            followed_by(
                lifted(required(params, "session_id"@), at),
                |session_id: Seq<char>, at: int|
                    followed_by(
                        persist_run(
                            session_id,
                            trimmed(printed_url),
                            if draft {
                                "draft"@
                            } else {
                                "open"@
                            },
                            Some(trimmed(remote)),
                            Some(place.branch),
                            log,
                            at,
                        ),
                        |persisted: (), at: int|
                            done(
                                JsonView::Object(
                                    map!["url"@ => JsonView::Text(trimmed(printed_url))],
                                ),
                                at,
                            ),
                    ),
            ),
    )
}

/// Maps the pull request that `gh` created to the session.
fn created(
    params: &Json,
    place: &Checkout,
    draft: bool,
    printed_url: &str,
    record: &mut Record,
) -> (outcome: Result<Json, Halt>)
    ensures
        final(record).follows(
            *old(record),
            outcome_view(outcome),
            created_run(
                params@,
                place@,
                draft,
                printed_url@,
                old(record).log(),
                old(record).at as int,
            ),
        ),
{
    let url = trim(printed_url);
    let remote = record.command_output(Program::Git, place.cwd.as_str(), remote_arguments())?;
    let session_id = lift(required_string(params, "session_id"))?;
    let state = if draft {
        "draft"
    } else {
        "open"
    };
    persist_pr_mapping(
        record,
        session_id,
        url,
        state,
        Some(trim(remote.as_str())),
        Some(place.branch.as_str()),
    )?;
    Ok(Json::member("url", Json::text(url)))
}

/// `github.create`: pushes the branch of the session and creates a pull request for it.
pub open spec fn create_run(params: JsonView, log: Seq<ReplyView>, at: int) -> Run<JsonView> {
    followed_by(
        checkout_run(params, log, at),
        |place: CheckoutView, at: int|
            followed_by(
                lifted(drafted(params), at),
                |draft: DraftView, at: int|
                    followed_by(
                        program_run(Program::Git, place.cwd, push_args(place.branch), log, at),
                        |pushed: Seq<char>, at: int|
                            followed_by(
                                program_run(
                                    Program::Gh,
                                    place.cwd,
                                    create_args(draft.title, draft.body, draft.base, draft.draft),
                                    log,
                                    at,
                                ),
                                |printed_url: Seq<char>, at: int|
                                    created_run(params, place, draft.draft, printed_url, log, at),
                            ),
                    ),
            ),
    )
}

/// `github.create`: pushes the branch of the session and creates a pull request for it.
pub fn create_pull_request(params: &Json, record: &mut Record) -> (outcome: Result<Json, Halt>)
    ensures
        final(record).follows(
            *old(record),
            outcome_view(outcome),
            create_run(params@, old(record).log(), old(record).at as int),
        ),
{
    let place = checkout(params, record)?;
    let draft = lift(draft(params))?;
    record.command_output(Program::Git, place.cwd.as_str(), push_arguments(place.branch.as_str()))?;
    let printed_url = record.command_output(
        Program::Gh,
        place.cwd.as_str(),
        create_arguments(draft.title, draft.body, draft.base, draft.draft),
    )?;
    created(params, &place, draft.draft, printed_url.as_str(), record)
}

/// Maps a pull request that `gh` found by its URL to the session. The branch and the remote are
/// recorded where they are known.
pub open spec fn linked_run(
    parsed: Result<JsonView, Seq<char>>,
    params: JsonView,
    repository: JsonView,
    cwd: Seq<char>,
    log: Seq<ReplyView>,
    at: int,
) -> Run<JsonView> {
    followed_by(
        lifted(printed("failed to parse linked pull request: "@, parsed), at),
        |pr: JsonView, at: int|
            followed_by(
                lifted(
                    pull_request_text(projected_status(pr).field("url"@), "pull request url"@),
                    at,
                ),
                |url: Seq<char>, at: int|
                    followed_by(
                        lifted(
                            pull_request_text(
                                projected_status(pr).field("state"@),
                                "pull request state"@,
                            ),
                            at,
                        ),
                        |state: Seq<char>, at: int|
                            caught_by(
                                program_run(Program::Git, cwd, remote_args(), log, at),
                                |remote: Result<Seq<char>, ErrorView>, at: int|
                                    link_run(
                                        params,
                                        url,
                                        state,
                                        known_remote(remote),
                                        strict_text(repository.field("branch"@)),
                                        projected_status(pr),
                                        log,
                                        at,
                                    ),
                            ),
                    ),
            ),
    )
}

/// The remote, where it could be had.
pub open spec fn known_remote(remote: Result<Seq<char>, ErrorView>) -> Option<Seq<char>> {
    match remote {
        Ok(remote) => Some(trimmed(remote)),
        Err(_) => None,
    }
}

/// Maps a pull request to the session, and shows it.
pub open spec fn link_run(
    params: JsonView,
    url: Seq<char>,
    state: Seq<char>,
    remote: Option<Seq<char>>,
    branch: Option<Seq<char>>,
    projected: JsonView,
    log: Seq<ReplyView>,
    at: int,
) -> Run<JsonView> {
    followed_by(
        lifted(required(params, "session_id"@), at),
        |session_id: Seq<char>, at: int|
            followed_by(
                persist_run(session_id, url, state, remote, branch, log, at),
                |persisted: (), at: int| done(JsonView::Object(map!["pr"@ => projected]), at),
            ),
    )
}

/// Maps a pull request that `gh` found by its URL to the session.
pub fn linked_pull_request(
    parsed: Result<Json, String>,
    params: &Json,
    repository: &Json,
    cwd: &str,
    record: &mut Record,
) -> (outcome: Result<Json, Halt>)
    ensures
        final(record).follows(
            *old(record),
            outcome_view(outcome),
            linked_run(
                parsed_view(parsed),
                params@,
                repository@,
                cwd@,
                old(record).log(),
                old(record).at as int,
            ),
        ),
{
    let pr = lift(printed_value("failed to parse linked pull request: ", parsed))?;
    let projected = project_pr_status(&pr);
    let url = lift(strict_string(projected.get("url"), "pull request url"))?;
    let state = lift(strict_string(projected.get("state"), "pull request state"))?;
    let branch: Option<String> = match context_string(repository, "branch") {
        Ok(branch) => Some(branch),
        Err(_) => None,
    };
    let remote: Option<String> = match record.command_output(Program::Git, cwd, remote_arguments()) {
        Ok(remote) => Some(remote),
        Err(Halt::Fail(_)) => None,
        Err(halt) => {
            return Err(halt);
        },
    };
    let session_id = lift(required_string(params, "session_id"))?;
    let remote: Option<&str> = match &remote {
        Some(remote) => Some(trim(remote.as_str())),
        None => None,
    };
    let branch: Option<&str> = match &branch {
        Some(branch) => Some(branch.as_str()),
        None => None,
    };
    persist_pr_mapping(record, session_id, url.as_str(), state.as_str(), remote, branch)?;
    Ok(Json::member("pr", projected))
}

/// `github.link`: maps the pull request with a given URL to the session.
pub open spec fn link_request_run(params: JsonView, log: Seq<ReplyView>, at: int) -> Run<JsonView> {
    followed_by(
        context_run(params, log, at),
        |repository: JsonView, at: int|
            followed_by(
                lifted(context_directory(repository), at),
                |cwd: Seq<char>, at: int|
                    followed_by(
                        lifted(required(params, "url"@), at),
                        |url: Seq<char>, at: int|
                            followed_by(
                                program_run(
                                    Program::Gh,
                                    cwd,
                                    view_args(url, "url,state,isDraft"@),
                                    log,
                                    at,
                                ),
                                |raw: Seq<char>, at: int|
                                    linked_run(parsed_text(raw), params, repository, cwd, log, at),
                            ),
                    ),
            ),
    )
}

/// `github.link`: maps the pull request with a given URL to the session.
pub fn link_pull_request(params: &Json, record: &mut Record) -> (outcome: Result<Json, Halt>)
    ensures
        final(record).follows(
            *old(record),
            outcome_view(outcome),
            link_request_run(params@, old(record).log(), old(record).at as int),
        ),
{
    let repository = repository_context(params, record)?;
    let cwd = lift(context_path(&repository))?;
    let url = lift(required_string(params, "url"))?;
    let raw = record.command_output(
        Program::Gh,
        cwd.as_str(),
        view_arguments(url, "url,state,isDraft"),
    )?;
    linked_pull_request(parse_json(raw.as_str()), params, &repository, cwd.as_str(), record)
}

/// Merges the pull request that `gh` showed, and maps it to the session as merged.
pub open spec fn merge_viewed_run(
    parsed: Result<JsonView, Seq<char>>,
    params: JsonView,
    place: CheckoutView,
    flag: Seq<char>,
    log: Seq<ReplyView>,
    at: int,
) -> Run<JsonView> {
    followed_by(
        lifted(printed("failed to parse pull request before merge: "@, parsed), at),
        |pr: JsonView, at: int|
            followed_by(
                lifted(pull_request_text(pr.field("url"@), "pull request url"@), at),
                |url: Seq<char>, at: int|
                    followed_by(
                        program_run(Program::Git, place.cwd, remote_args(), log, at),
                        |remote: Seq<char>, at: int|
                            followed_by(
                                program_run(
                                    Program::Gh,
                                    place.cwd,
                                    merge_args(place.branch, flag),
                                    log,
                                    at,
                                ),
                                |merged: Seq<char>, at: int|
                                    merged_run(params, url, remote, place.branch, log, at),
                            ),
                    ),
            ),
    )
}

/// Maps a pull request to the session as merged.
pub open spec fn merged_run(
    params: JsonView,
    url: Seq<char>,
    remote: Seq<char>,
    branch: Seq<char>,
    log: Seq<ReplyView>,
    at: int,
) -> Run<JsonView> {
    followed_by(
        lifted(required(params, "session_id"@), at),
        |session_id: Seq<char>, at: int|
            followed_by(
                persist_run(
                    session_id,
                    url,
                    "merged"@,
                    Some(trimmed(remote)),
                    Some(branch),
                    log,
                    at,
                ),
                |persisted: (), at: int|
                    done(JsonView::Object(map!["merged"@ => JsonView::Bool(true)]), at),
            ),
    )
}

/// Merges the pull request that `gh` showed, and maps it to the session as merged.
pub fn merge_viewed(
    parsed: Result<Json, String>,
    params: &Json,
    place: &Checkout,
    flag: &str,
    record: &mut Record,
) -> (outcome: Result<Json, Halt>)
    ensures
        final(record).follows(
            *old(record),
            outcome_view(outcome),
            merge_viewed_run(
                parsed_view(parsed),
                params@,
                place@,
                flag@,
                old(record).log(),
                old(record).at as int,
            ),
        ),
{
    let pr = lift(printed_value("failed to parse pull request before merge: ", parsed))?;
    let url = lift(strict_string(pr.get("url"), "pull request url"))?;
    let remote = record.command_output(Program::Git, place.cwd.as_str(), remote_arguments())?;
    record.command_output(
        Program::Gh,
        place.cwd.as_str(),
        merge_arguments(place.branch.as_str(), flag),
    )?;
    let session_id = lift(required_string(params, "session_id"))?;
    persist_pr_mapping(
        record,
        session_id,
        url.as_str(),
        "merged",
        Some(trim(remote.as_str())),
        Some(place.branch.as_str()),
    )?;
    Ok(Json::member("merged", Json::Bool(true)))
}

/// `github.merge`: merges the pull request of the session's branch.
pub open spec fn merge_run(params: JsonView, log: Seq<ReplyView>, at: int) -> Run<JsonView> {
    followed_by(
        checkout_run(params, log, at),
        |place: CheckoutView, at: int|
            followed_by(
                lifted(merge_flag(params.text_at("strategy"@)), at),
                |flag: Seq<char>, at: int|
                    followed_by(
                        program_run(Program::Gh, place.cwd, view_args(place.branch, "url"@), log, at),
                        |raw: Seq<char>, at: int|
                            merge_viewed_run(parsed_text(raw), params, place, flag, log, at),
                    ),
            ),
    )
}

/// `github.merge`: merges the pull request of the session's branch.
pub fn merge_pull_request(params: &Json, record: &mut Record) -> (outcome: Result<Json, Halt>)
    ensures
        final(record).follows(
            *old(record),
            outcome_view(outcome),
            merge_run(params@, old(record).log(), old(record).at as int),
        ),
{
    let place = checkout(params, record)?;
    let flag = lift(strategy_flag(params.text_at("strategy")))?;
    let raw = record.command_output(
        Program::Gh,
        place.cwd.as_str(),
        view_arguments(place.branch.as_str(), "url"),
    )?;
    merge_viewed(parse_json(raw.as_str()), params, &place, flag, record)
}

/// `github.markReady`: marks the draft of the session's branch as ready.
pub open spec fn ready_run(params: JsonView, log: Seq<ReplyView>, at: int) -> Run<JsonView> {
    followed_by(
        checkout_run(params, log, at),
        |place: CheckoutView, at: int|
            followed_by(
                program_run(Program::Gh, place.cwd, ready_args(place.branch), log, at),
                |output: Seq<char>, at: int|
                    done(JsonView::Object(map!["ready"@ => JsonView::Bool(true)]), at),
            ),
    )
}

/// `github.markReady`: marks the draft of the session's branch as ready.
pub fn mark_ready(params: &Json, record: &mut Record) -> (outcome: Result<Json, Halt>)
    ensures
        final(record).follows(
            *old(record),
            outcome_view(outcome),
            ready_run(params@, old(record).log(), old(record).at as int),
        ),
{
    let place = checkout(params, record)?;
    record.command_output(Program::Gh, place.cwd.as_str(), ready_arguments(place.branch.as_str()))?;
    Ok(Json::member("ready", Json::Bool(true)))
}

/// The first run that failed, where there is one.
pub open spec fn failed_id(status: JsonView) -> Result<Seq<char>, ErrorView> {
    match first_failed(status.items_at("statusCheckRollup"@)) {
        Some(id) => Ok(id),
        None => Err(ErrorView::Message("no failed GitHub Actions run found"@)),
    }
}

/// Fetches the log of the first check that failed.
pub open spec fn checked_run(
    parsed: Result<JsonView, Seq<char>>,
    place: CheckoutView,
    log: Seq<ReplyView>,
    at: int,
) -> Run<JsonView> {
    followed_by(
        lifted(printed("failed to parse CI status: "@, parsed), at),
        |status: JsonView, at: int|
            followed_by(
                lifted(failed_id(status), at),
                |run_id: Seq<char>, at: int|
                    followed_by(
                        program_run(Program::Gh, place.cwd, log_args(run_id), log, at),
                        |logs: Seq<char>, at: int|
                            done(
                                JsonView::Object(
                                    map![
                                        "message"@ => JsonView::Text(
                                            failure_message(place.branch, logs),
                                        ),
                                    ],
                                ),
                                at,
                            ),
                    ),
            ),
    )
}

/// Fetches the log of the first check that failed.
pub fn checked_logs(
    parsed: Result<Json, String>,
    place: &Checkout,
    record: &mut Record,
) -> (outcome: Result<Json, Halt>)
    ensures
        final(record).follows(
            *old(record),
            outcome_view(outcome),
            checked_run(parsed_view(parsed), place@, old(record).log(), old(record).at as int),
        ),
{
    let status = lift(printed_value("failed to parse CI status: ", parsed))?;
    let run_id = lift(failed_run(&status))?;
    let logs = record.command_output(Program::Gh, place.cwd.as_str(), log_arguments(run_id))?;
    Ok(Json::member("message", Json::Text(describe_failure(place.branch.as_str(), logs.as_str()))))
}

/// `github.failureLogs`: fetches the log of the first check that failed.
pub open spec fn logs_run(params: JsonView, log: Seq<ReplyView>, at: int) -> Run<JsonView> {
    followed_by(
        checkout_run(params, log, at),
        |place: CheckoutView, at: int|
            followed_by(
                program_run(
                    Program::Gh,
                    place.cwd,
                    view_args(place.branch, "statusCheckRollup"@),
                    log,
                    at,
                ),
                |raw: Seq<char>, at: int| checked_run(parsed_text(raw), place, log, at),
            ),
    )
}

/// `github.failureLogs`: fetches the log of the first check that failed.
pub fn failure_logs(params: &Json, record: &mut Record) -> (outcome: Result<Json, Halt>)
    ensures
        final(record).follows(
            *old(record),
            outcome_view(outcome),
            logs_run(params@, old(record).log(), old(record).at as int),
        ),
{
    let place = checkout(params, record)?;
    let raw = record.command_output(
        Program::Gh,
        place.cwd.as_str(),
        view_arguments(place.branch.as_str(), "statusCheckRollup"),
    )?;
    checked_logs(parse_json(raw.as_str()), &place, record)
}

} // verus!
