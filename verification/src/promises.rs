//! What the requests do, seen from outside: what they ask for and what they answer, told by their
//! parameters and by the replies that they were given.
//!
//! Each request uses its replies in a fixed order, so a reply is named by its place in the record:
//! the first one says that the request has not been cancelled, the next three come of the question
//! about the repository of the session, and from then on each program takes two, one for the check
//! before it and one for what it printed.

use vstd::prelude::*;
use crate::arguments::create_args;
use crate::codec::parsed_text;
use crate::command::Program;
use crate::dispatch::{StepView, law_each_method_has_its_handler, next_step};
use crate::error::ErrorView;
use crate::exchange::{ActionView, HaltView, ReplyView, clock_run};
use crate::handlers::{checkout_run, context_run, drafted, required, status_run};
use crate::json::JsonView;
use crate::settings::{ensure_run, patch_run, persist_run};
use crate::github::{failed_check, first_failed, merge_flag, public_remote, run_id, suggested_body};
use crate::laws::lemma_host_methods;
use crate::state::{empty_state, lemma_mapping_names, mapping, mapping_patch, patch_request};
use crate::text::{
    blank, decimal, first_occurrence, joined, last_lines, law_blank_texts_trim_to_nothing,
    lemma_first_occurrence, lemma_length_before, lemma_length_before_bounds, lines, occurs,
    occurs_at, small_letter, small_letters, trimmed,
};

verus! {

/// The text that an object holds under a key.
pub open spec fn told(json: JsonView, key: Seq<char>) -> Option<Seq<char>> {
    match json {
        JsonView::Object(members) => if members.contains_key(key) {
            match members[key] {
                JsonView::Text(text) => Some(text),
                _ => None,
            }
        } else {
            None
        },
        _ => None,
    }
}

/// Whether an object holds a text under a key that is more than white space.
pub open spec fn tells(json: JsonView, key: Seq<char>, text: Seq<char>) -> bool {
    told(json, key) == Some(text) && !blank(text)
}

/// Whether an object holds a value under a key.
pub open spec fn holds(json: JsonView, key: Seq<char>, value: JsonView) -> bool {
    json matches JsonView::Object(members) && members.contains_key(key) && members[key] == value
}

/// The object with one member.
pub open spec fn single(key: Seq<char>, value: JsonView) -> JsonView {
    JsonView::Object(map![key => value])
}

/// Whether the host has told about the repository of a session, with the check before that question
/// in the place `at`.
pub open spec fn introduced(log: Seq<ReplyView>, at: int, context: JsonView) -> bool {
    &&& 0 <= at && at + 3 <= log.len()
    &&& log[at] == ReplyView::Cancelled(false)
    &&& log[at + 1] is Sequence
    &&& log[at + 2] == ReplyView::Host(Ok(context))
}

/// Whether a request was not cancelled at its start, and the host has told about the repository of
/// its session.
pub open spec fn opened(log: Seq<ReplyView>, context: JsonView) -> bool {
    introduced(log, 1, context) && log[0] == ReplyView::Cancelled(false)
}

/// What the host told about the repository of the session.
pub open spec fn context_of(log: Seq<ReplyView>) -> JsonView {
    log[3]->Host_0->Ok_0
}

/// Whether a program has printed something, with the check before it in the place `at`.
pub open spec fn printed_at(log: Seq<ReplyView>, at: int, output: Seq<char>) -> bool {
    &&& 0 <= at && at + 2 <= log.len()
    &&& log[at] == ReplyView::Cancelled(false)
    &&& log[at + 1] == ReplyView::Output(Ok(output))
}

/// What a program printed that was run with the check before it in the place `at`.
pub open spec fn output_at(log: Seq<ReplyView>, at: int) -> Seq<char> {
    log[at + 1]->Output_0->Ok_0
}

/// Whether the replies from the fifth on are those of programs that succeeded, up to the place
/// `end`.
pub open spec fn smooth(log: Seq<ReplyView>, end: int) -> bool {
    forall|i: int|
        4 <= i < end && i < log.len() ==> if i % 2 == 0 {
            #[trigger] log[i] == ReplyView::Cancelled(false)
        } else {
            log[i] matches ReplyView::Output(result) && result is Ok
        }
}

/// Whether a request asks for a program.
pub open spec fn asks_to_run(
    step: StepView,
    program: Program,
    cwd: Seq<char>,
    args: Seq<Seq<char>>,
) -> bool {
    step == StepView::Ask(ActionView::Run { program, cwd, args })
}

/// The parameters of a call that patches the plugin's own namespace of the settings.
pub open spec fn patch_call(patch: JsonView) -> JsonView {
    single("patch"@, single("github"@, patch))
}

/// The patch that gives a session a mapping, or takes it away with `null`.
pub open spec fn mapping_change(session_id: Seq<char>, recorded: JsonView) -> JsonView {
    single("pull_requests"@, single(session_id, recorded))
}

/// The document that a plugin starts with.
pub open spec fn new_document() -> JsonView {
    JsonView::Object(
        map![
            "version"@ => JsonView::Integer(1),
            "pull_requests"@ => JsonView::Object(Map::empty()),
            "reconciliation"@ => JsonView::Object(
                map![
                    "status"@ => JsonView::Text("idle"@),
                    "attempt_id"@ => JsonView::Null,
                    "started_at"@ => JsonView::Null,
                    "finished_at"@ => JsonView::Null,
                    "checked"@ => JsonView::Integer(0),
                    "recovered_attempt_id"@ => JsonView::Null,
                    "recovered_at"@ => JsonView::Null,
                    "error"@ => JsonView::Null,
                ],
            ),
        ],
    )
}

/// Whether a mapping says this of a pull request, and nothing else. The remote and the branch are
/// left out where they are not known or blank.
pub open spec fn mapped(
    recorded: JsonView,
    session_id: Seq<char>,
    url: Seq<char>,
    state: Seq<char>,
    remote: Option<Seq<char>>,
    branch: Option<Seq<char>>,
    updated_at: u64,
) -> bool {
    recorded matches JsonView::Object(members) && {
        &&& told(recorded, "session_id"@) == Some(session_id)
        &&& told(recorded, "url"@) == Some(url)
        &&& told(recorded, "state"@) == Some(state)
        &&& holds(recorded, "updated_at"@, JsonView::Integer(updated_at as int))
        &&& match remote {
            Some(remote) => if blank(remote) {
                !members.contains_key("remote"@)
            } else {
                told(recorded, "remote"@) == Some(public_remote(remote))
            },
            None => !members.contains_key("remote"@),
        }
        &&& match branch {
            Some(branch) => if blank(branch) {
                !members.contains_key("branch"@)
            } else {
                told(recorded, "branch"@) == Some(branch)
            },
            None => !members.contains_key("branch"@),
        }
        &&& forall|key: Seq<char>| #[trigger]
            members.contains_key(key) ==> key == "session_id"@ || key == "url"@ || key == "state"@ || key
                == "remote"@ || key == "branch"@ || key == "updated_at"@
    }
}

/// Whether a request patches the settings with this call only to give a session this mapping, with
/// the check before the first look at the settings in the place `at`; or to start a new document,
/// where the host said that there is none.
pub open spec fn gives_mapping(
    log: Seq<ReplyView>,
    at: int,
    call: JsonView,
    session_id: Seq<char>,
    recorded: JsonView,
) -> bool {
    ||| call == patch_call(mapping_change(session_id, recorded))
    ||| call == patch_call(new_document()) && at + 4 <= log.len() && (log[at + 3] matches ReplyView::Host(
        result,
    ) && (result matches Ok(response) && holds(response, "settings"@, JsonView::Null)))
}

/// Whether the replies from the place `at` on are those to a change of the settings, where the
/// host holds a document of the current version.
pub open spec fn settled(log: Seq<ReplyView>, at: int) -> bool {
    let n = log.len() - at;
    &&& 0 <= at && 0 <= n <= 7
    &&& n > 0 ==> log[at] == ReplyView::Cancelled(false)
    &&& n > 1 ==> log[at + 1] == ReplyView::Cancelled(false)
    &&& n > 2 ==> log[at + 2] is Sequence
    &&& n > 3 ==> (log[at + 3] matches ReplyView::Host(result) && (result matches Ok(response) && holds(
        response,
        "settings"@,
        JsonView::Integer(1),
    )))
    &&& n > 4 ==> log[at + 4] == ReplyView::Cancelled(false)
    &&& n > 5 ==> log[at + 5] is Sequence
    &&& n > 6 ==> (log[at + 6] matches ReplyView::Host(result) && result is Ok)
}

/// Whether a request changes the settings, from the place `at` on: it looks at the version of the
/// document, then patches it, and answers once the host has confirmed the patch.
pub open spec fn settles(
    step: StepView,
    log: Seq<ReplyView>,
    at: int,
    patch: JsonView,
    answer: JsonView,
) -> bool {
    let n = log.len() - at;
    &&& n == 0 || n == 1 || n == 4 ==> step == StepView::Ask(ActionView::CheckCancelled)
    &&& n == 2 || n == 5 ==> step == StepView::Ask(ActionView::NextSequence)
    &&& n == 3 ==> step == StepView::Ask(
        ActionView::HostCall {
            id: "github-settings-version"@ + "-"@ + decimal(log[at + 2]->Sequence_0 as nat),
            method: "host.settings.get"@,
            params: single(
                "path"@,
                JsonView::Array(seq![JsonView::Text("github"@), JsonView::Text("version"@)]),
            ),
            allow_cancelled: false,
        },
    )
    &&& n == 6 ==> step == StepView::Ask(
        ActionView::HostCall {
            id: "github-settings-patch"@ + "-"@ + decimal(log[at + 5]->Sequence_0 as nat),
            method: "host.settings.patch"@,
            params: patch_call(patch),
            allow_cancelled: false,
        },
    )
    &&& n == 7 ==> step == StepView::Finished(
        if holds(log[at + 6]->Host_0->Ok_0, "updated"@, JsonView::Bool(true)) {
            Ok::<JsonView, ErrorView>(answer)
        } else {
            Err(ErrorView::Message("host settings patch response did not confirm the update"@))
        },
    )
}

/// Whether the replies from the place `at` on are those to a change of the settings, where the
/// host holds no document yet.
pub open spec fn settled_anew(log: Seq<ReplyView>, at: int) -> bool {
    let n = log.len() - at;
    &&& 0 <= at && 4 <= n <= 10
    &&& log[at] == ReplyView::Cancelled(false) && log[at + 1] == ReplyView::Cancelled(false)
    &&& log[at + 2] is Sequence
    &&& log[at + 3] matches ReplyView::Host(result) && (result matches Ok(response) && holds(
        response,
        "settings"@,
        JsonView::Null,
    ))
    &&& n > 4 ==> log[at + 4] == ReplyView::Cancelled(false)
    &&& n > 5 ==> log[at + 5] is Sequence
    &&& n > 6 ==> (log[at + 6] matches ReplyView::Host(result) && result is Ok)
    &&& n > 7 ==> log[at + 7] == ReplyView::Cancelled(false)
    &&& n > 8 ==> log[at + 8] is Sequence
    &&& n > 9 ==> (log[at + 9] matches ReplyView::Host(result) && result is Ok)
}

/// Whether a request that finds no document starts a new one, and only then patches it.
pub open spec fn settles_anew(
    step: StepView,
    log: Seq<ReplyView>,
    at: int,
    patch: JsonView,
    answer: JsonView,
) -> bool {
    let n = log.len() - at;
    &&& n == 4 || n == 7 ==> step == StepView::Ask(ActionView::CheckCancelled)
    &&& n == 5 || n == 8 ==> step == StepView::Ask(ActionView::NextSequence)
    &&& n == 6 ==> step == StepView::Ask(
        ActionView::HostCall {
            id: "github-settings-initialize"@ + "-"@ + decimal(log[at + 5]->Sequence_0 as nat),
            method: "host.settings.patch"@,
            params: patch_call(new_document()),
            allow_cancelled: false,
        },
    )
    &&& n == 9 ==> step == StepView::Ask(
        ActionView::HostCall {
            id: "github-settings-patch"@ + "-"@ + decimal(log[at + 8]->Sequence_0 as nat),
            method: "host.settings.patch"@,
            params: patch_call(patch),
            allow_cancelled: false,
        },
    )
    &&& n == 10 ==> step == StepView::Finished(
        if holds(log[at + 9]->Host_0->Ok_0, "updated"@, JsonView::Bool(true)) {
            Ok::<JsonView, ErrorView>(answer)
        } else {
            Err(ErrorView::Message("host settings patch response did not confirm the update"@))
        },
    )
}

/// What a request does next whose last part is to change the settings.
pub open spec fn ending(outcome: Result<(), HaltView>, answer: JsonView) -> StepView {
    match outcome {
        Ok(_) => StepView::Finished(Ok(answer)),
        Err(HaltView::Fail(error)) => StepView::Finished(Err(error)),
        Err(HaltView::Ask(action)) => StepView::Ask(action),
        Err(HaltView::Stray) => StepView::Stray,
    }
}

pub(crate) proof fn lemma_settles(patch: JsonView, log: Seq<ReplyView>, at: int, answer: JsonView)
    requires
        settled(log, at),
    ensures
        settles(ending(patch_run(patch, false, log, at).outcome, answer), log, at, patch, answer),
{
    reveal(patch_run);
    reveal(ensure_run);
    assert(patch_request(patch) =~= patch_call(patch));
}

proof fn lemma_settles_anew(patch: JsonView, log: Seq<ReplyView>, at: int, answer: JsonView)
    requires
        settled_anew(log, at),
    ensures
        settles_anew(ending(patch_run(patch, false, log, at).outcome, answer), log, at, patch, answer),
{
    reveal(patch_run);
    reveal(ensure_run);
    assert(patch_request(patch) =~= patch_call(patch));
    assert(empty_state() =~= new_document());
}

/// A mapping says what it was made of.
proof fn lemma_mapped(
    session_id: Seq<char>,
    url: Seq<char>,
    state: Seq<char>,
    remote: Option<Seq<char>>,
    branch: Option<Seq<char>>,
    updated_at: u64,
)
    ensures
        mapped(
            mapping(session_id, url, state, remote, branch, updated_at),
            session_id,
            url,
            state,
            remote,
            branch,
            updated_at,
        ),
{
    lemma_mapping_names();
}

/// A change of the settings asks for no patch but its own, and for a new document where there is
/// none.
pub(crate) proof fn lemma_patch_calls(
    patch: JsonView,
    log: Seq<ReplyView>,
    at: int,
    id: Seq<char>,
    call: JsonView,
    allow: bool,
)
    requires
        0 <= at <= log.len(),
        patch_run(patch, false, log, at).outcome == Err::<(), HaltView>(
            HaltView::Ask(
                ActionView::HostCall {
                    id,
                    method: "host.settings.patch"@,
                    params: call,
                    allow_cancelled: allow,
                },
            ),
        ),
    ensures
        !allow,
        call == patch_call(patch) || call == patch_call(new_document()) && at + 4 <= log.len() && (
        log[at + 3] matches ReplyView::Host(result) && (result matches Ok(response) && holds(
            response,
            "settings"@,
            JsonView::Null,
        ))),
{
    reveal(patch_run);
    reveal(ensure_run);
    lemma_host_methods();
    assert(empty_state() =~= new_document());
}

/// Recording a mapping asks for no other patch.
pub(crate) proof fn lemma_persist_calls(
    session_id: Seq<char>,
    url: Seq<char>,
    state: Seq<char>,
    remote: Option<Seq<char>>,
    branch: Option<Seq<char>>,
    log: Seq<ReplyView>,
    at: int,
    id: Seq<char>,
    call: JsonView,
    allow: bool,
) -> (recorded: JsonView)
    requires
        0 <= at <= log.len(),
        persist_run(session_id, url, state, remote, branch, log, at).outcome == Err::<(), HaltView>(
            HaltView::Ask(
                ActionView::HostCall {
                    id,
                    method: "host.settings.patch"@,
                    params: call,
                    allow_cancelled: allow,
                },
            ),
        ),
    ensures
        !allow,
        at < log.len() && log[at] is Clock,
        gives_mapping(log, at + 1, call, session_id, recorded),
        mapped(recorded, session_id, url, state, remote, branch, log[at]->Clock_0),
{
    let now = log[at]->Clock_0;
    let recorded = mapping(session_id, url, state, remote, branch, now);
    lemma_mapped(session_id, url, state, remote, branch, now);
    lemma_patch_calls(mapping_patch(session_id, recorded), log, at + 1, id, call, allow);
    recorded
}

/// Recording a mapping reads the clock and then changes the settings.
pub(crate) proof fn lemma_persist_settles(
    session_id: Seq<char>,
    url: Seq<char>,
    state: Seq<char>,
    remote: Option<Seq<char>>,
    branch: Option<Seq<char>>,
    log: Seq<ReplyView>,
    at: int,
    answer: JsonView,
) -> (recorded: JsonView)
    requires
        0 <= at <= log.len(),
        at < log.len() ==> log[at] is Clock && settled(log, at + 1),
    ensures
        ({
            let step = ending(
                persist_run(session_id, url, state, remote, branch, log, at).outcome,
                answer,
            );
            if at == log.len() {
                step == StepView::Ask(ActionView::ReadClock)
            } else {
                &&& mapped(recorded, session_id, url, state, remote, branch, log[at]->Clock_0)
                &&& settles(step, log, at + 1, mapping_change(session_id, recorded), answer)
            }
        }),
{
    let now = log[at]->Clock_0;
    let recorded = mapping(session_id, url, state, remote, branch, now);
    if at < log.len() {
        lemma_mapped(session_id, url, state, remote, branch, now);
        lemma_settles(mapping_patch(session_id, recorded), log, at + 1, answer);
    }
    recorded
}

/// Recording a mapping runs no program.
pub(crate) proof fn lemma_patch_runs_nothing(patch: JsonView, allow: bool, log: Seq<ReplyView>, at: int)
    ensures
        patch_run(patch, allow, log, at).outcome matches Err(HaltView::Ask(action)) ==> !(action is Run),
{
    reveal(patch_run);
    reveal(ensure_run);
}

/// Recording a mapping runs no program.
pub(crate) proof fn lemma_persist_runs_nothing(
    session_id: Seq<char>,
    url: Seq<char>,
    state: Seq<char>,
    remote: Option<Seq<char>>,
    branch: Option<Seq<char>>,
    log: Seq<ReplyView>,
    at: int,
)
    ensures
        persist_run(session_id, url, state, remote, branch, log, at).outcome matches Err(
            HaltView::Ask(action),
        ) ==> !(action is Run),
{
    let clock = clock_run(log, at);
    let now = clock.outcome->Ok_0;
    let recorded = mapping(session_id, url, state, remote, branch, now);
    lemma_patch_runs_nothing(mapping_patch(session_id, recorded), false, log, clock.at);
}

/// `github.create` pushes the branch of the session, then creates the pull request that the
/// parameters describe, as a draft exactly where they say `true` for it, then asks `git` for the
/// remote. It runs nothing else.
pub proof fn law_creations_run_three_programs(
    params: JsonView,
    log: Seq<ReplyView>,
    program: Program,
    cwd: Seq<char>,
    args: Seq<Seq<char>>,
)
    requires
        asks_to_run(next_step("github.create"@, params, log), program, cwd, args),
    ensures
        ({
            let context = context_of(log);
            &&& opened(log, context) && smooth(log, 10)
            &&& tells(context, "working_tree_path"@, cwd)
            &&& told(context, "branch"@) matches Some(branch) && (told(params, "title"@) matches Some(title)
                && (told(params, "base_branch"@) matches Some(base) && {
                let body = if told(params, "body"@) is Some {
                    told(params, "body"@)->Some_0
                } else {
                    Seq::empty()
                };
                ||| log.len() == 5 && program is Git && args == seq!["push"@, "-u"@, "origin"@, branch]
                ||| log.len() == 7 && program is Gh && holds(params, "draft"@, JsonView::Bool(true)) && args
                    == seq![
                    "pr"@,
                    "create"@,
                    "--title"@,
                    title,
                    "--body"@,
                    body,
                    "--base"@,
                    base,
                    "--draft"@,
                ]
                ||| log.len() == 7 && program is Gh && !holds(params, "draft"@, JsonView::Bool(true)) && args
                    == seq!["pr"@, "create"@, "--title"@, title, "--body"@, body, "--base"@, base]
                ||| log.len() == 9 && program is Git && args == seq!["remote"@, "get-url"@, "origin"@]
            }))
        }),
{
    law_each_method_has_its_handler(params, log, 1);
    reveal_strlit("");
    let place = checkout_run(params, log, 1).outcome->Ok_0;
    let draft = drafted(params)->Ok_0;
    let state = if draft.draft {
        "draft"@
    } else {
        "open"@
    };
    lemma_persist_runs_nothing(
        required(params, "session_id"@)->Ok_0,
        trimmed(output_at(log, 6)),
        state,
        Some(trimmed(output_at(log, 8))),
        Some(place.branch),
        log,
        10,
    );
    assert(""@ =~= Seq::empty());
    assert(create_args(draft.title, draft.body, draft.base, true) =~= seq![
        "pr"@,
        "create"@,
        "--title"@,
        draft.title,
        "--body"@,
        draft.body,
        "--base"@,
        draft.base,
        "--draft"@,
    ]);
}

/// The state that a pull request is created in: a draft exactly where the parameters say `true`
/// for it.
pub open spec fn created_as(params: JsonView) -> Seq<char> {
    if holds(params, "draft"@, JsonView::Bool(true)) {
        "draft"@
    } else {
        "open"@
    }
}

/// `github.create` changes the settings only once all its programs have succeeded, and then only to
/// map the URL that `gh` printed to the session, as a draft or as open, just as it was created.
pub proof fn law_creations_record_what_was_created(
    params: JsonView,
    log: Seq<ReplyView>,
    id: Seq<char>,
    call: JsonView,
    allow: bool,
)
    requires
        next_step("github.create"@, params, log) == StepView::Ask(
            ActionView::HostCall {
                id,
                method: "host.settings.patch"@,
                params: call,
                allow_cancelled: allow,
            },
        ),
    ensures
        opened(log, context_of(log)) && smooth(log, 10) && log.len() > 10 && log[10] is Clock,
        !allow,
        exists|session_id: Seq<char>, branch: Seq<char>, recorded: JsonView|
            {
                &&& tells(params, "session_id"@, session_id)
                &&& tells(context_of(log), "branch"@, branch)
                &&& #[trigger] gives_mapping(log, 11, call, session_id, recorded)
                &&& #[trigger] mapped(
                    recorded,
                    session_id,
                    trimmed(output_at(log, 6)),
                    created_as(params),
                    Some(trimmed(output_at(log, 8))),
                    Some(branch),
                    log[10]->Clock_0,
                )
            },
{
    law_each_method_has_its_handler(params, log, 1);
    lemma_host_methods();
    let place = checkout_run(params, log, 1).outcome->Ok_0;
    let session_id = required(params, "session_id"@)->Ok_0;
    let recorded = lemma_persist_calls(
        session_id,
        trimmed(output_at(log, 6)),
        created_as(params),
        Some(trimmed(output_at(log, 8))),
        Some(place.branch),
        log,
        10,
        id,
        call,
        allow,
    );
}

/// `github.create` goes through all its steps where nothing fails: it pushes, creates, asks for the
/// remote, records the pull request, and answers with the URL that `gh` printed.
pub proof fn law_creations_go_through(
    params: JsonView,
    log: Seq<ReplyView>,
    session_id: Seq<char>,
    title: Seq<char>,
    base: Seq<char>,
    cwd: Seq<char>,
    branch: Seq<char>,
) -> (recorded: JsonView)
    requires
        tells(params, "session_id"@, session_id),
        tells(params, "title"@, title),
        tells(params, "base_branch"@, base),
        opened(log, context_of(log)),
        tells(context_of(log), "working_tree_path"@, cwd),
        tells(context_of(log), "branch"@, branch),
        smooth(log, 10),
        log.len() > 10 ==> log[10] is Clock && settled(log, 11),
    ensures
        ({
            let step = next_step("github.create"@, params, log);
            let url = trimmed(output_at(log, 6));
            &&& log.len() == 4 || log.len() == 6 || log.len() == 8 ==> step == StepView::Ask(
                ActionView::CheckCancelled,
            )
            &&& log.len() == 5 || log.len() == 7 || log.len() == 9 ==> (step matches StepView::Ask(action)
                && action is Run)
            &&& log.len() == 10 ==> step == StepView::Ask(ActionView::ReadClock)
            &&& log.len() > 10 ==> mapped(
                recorded,
                session_id,
                url,
                created_as(params),
                Some(trimmed(output_at(log, 8))),
                Some(branch),
                log[10]->Clock_0,
            ) && settles(
                step,
                log,
                11,
                mapping_change(session_id, recorded),
                single("url"@, JsonView::Text(url)),
            )
        }),
{
    law_each_method_has_its_handler(params, log, 1);
    if log.len() >= 10 {
        let url = trimmed(output_at(log, 6));
        lemma_persist_settles(
            session_id,
            url,
            created_as(params),
            Some(trimmed(output_at(log, 8))),
            Some(branch),
            log,
            10,
            single("url"@, JsonView::Text(url)),
        )
    } else {
        JsonView::Null
    }
}

/// `github.create` starts a new document where the host holds none, before it records the pull
/// request in it. A document of another version is left alone, and the request fails.
pub proof fn law_creations_start_a_missing_document(
    params: JsonView,
    log: Seq<ReplyView>,
    session_id: Seq<char>,
    title: Seq<char>,
    base: Seq<char>,
    cwd: Seq<char>,
    branch: Seq<char>,
    version: JsonView,
) -> (recorded: JsonView)
    requires
        tells(params, "session_id"@, session_id),
        tells(params, "title"@, title),
        tells(params, "base_branch"@, base),
        opened(log, context_of(log)),
        tells(context_of(log), "working_tree_path"@, cwd),
        tells(context_of(log), "branch"@, branch),
        smooth(log, 10),
        log.len() > 14 && log[10] is Clock,
        log[11] == ReplyView::Cancelled(false) && log[12] == ReplyView::Cancelled(false),
        log[13] is Sequence,
        log[14] matches ReplyView::Host(result) && (result matches Ok(response) && holds(
            response,
            "settings"@,
            version,
        )),
    ensures
        ({
            let step = next_step("github.create"@, params, log);
            let url = trimmed(output_at(log, 6));
            &&& mapped(
                recorded,
                session_id,
                url,
                created_as(params),
                Some(trimmed(output_at(log, 8))),
                Some(branch),
                log[10]->Clock_0,
            )
            &&& version is Null && settled_anew(log, 11) ==> settles_anew(
                step,
                log,
                11,
                mapping_change(session_id, recorded),
                single("url"@, JsonView::Text(url)),
            )
            &&& !(version is Null) && version != JsonView::Integer(1) ==> step == StepView::Finished(
                Err::<JsonView, ErrorView>(
                    ErrorView::Message("unsupported GitHub durable state version"@),
                ),
            )
        }),
{
    law_each_method_has_its_handler(params, log, 1);
    let url = trimmed(output_at(log, 6));
    let now = log[10]->Clock_0;
    let remote = Some(trimmed(output_at(log, 8)));
    let recorded = mapping(session_id, url, created_as(params), remote, Some(branch), now);
    lemma_mapped(session_id, url, created_as(params), remote, Some(branch), now);
    let patch = mapping_patch(session_id, recorded);
    if settled_anew(log, 11) {
        lemma_settles_anew(patch, log, 11, single("url"@, JsonView::Text(url)));
    }
    lemma_unsupported(patch, log, 11, version);
    recorded
}

/// A document of another version is not patched.
proof fn lemma_unsupported(patch: JsonView, log: Seq<ReplyView>, at: int, version: JsonView)
    requires
        0 <= at && at + 4 <= log.len(),
        log[at] == ReplyView::Cancelled(false) && log[at + 1] == ReplyView::Cancelled(false),
        log[at + 2] is Sequence,
        log[at + 3] matches ReplyView::Host(result) && (result matches Ok(response) && holds(
            response,
            "settings"@,
            version,
        )),
    ensures
        !(version is Null) && version != JsonView::Integer(1) ==> patch_run(patch, false, log, at).outcome
            == Err::<(), HaltView>(
            HaltView::Fail(ErrorView::Message("unsupported GitHub durable state version"@)),
        ),
{
    reveal(patch_run);
    reveal(ensure_run);
}

/// Whether a flag of `gh pr merge` stands for the strategy that the parameters ask for.
pub open spec fn strategy_of(params: JsonView, flag: Seq<char>) -> bool {
    ||| told(params, "strategy"@) is None && flag == "--squash"@
    ||| told(params, "strategy"@) == Some("squash"@) && flag == "--squash"@
    ||| told(params, "strategy"@) == Some("merge"@) && flag == "--merge"@
    ||| told(params, "strategy"@) == Some("rebase"@) && flag == "--rebase"@
}

/// `github.merge` asks `gh` for the URL of the pull request of the branch, then `git` for the
/// remote, then merges with the strategy that was asked for and deletes the branch. It runs
/// nothing else.
pub proof fn law_merges_run_three_programs(
    params: JsonView,
    log: Seq<ReplyView>,
    program: Program,
    cwd: Seq<char>,
    args: Seq<Seq<char>>,
)
    requires
        asks_to_run(next_step("github.merge"@, params, log), program, cwd, args),
    ensures
        ({
            let context = context_of(log);
            &&& opened(log, context) && smooth(log, 10)
            &&& tells(context, "working_tree_path"@, cwd)
            &&& told(context, "branch"@) matches Some(branch) && {
                ||| log.len() == 5 && program is Gh && args == seq![
                    "pr"@,
                    "view"@,
                    branch,
                    "--json"@,
                    "url"@,
                ]
                ||| log.len() == 7 && program is Git && args == seq!["remote"@, "get-url"@, "origin"@]
                ||| log.len() == 9 && program is Gh && exists|flag: Seq<char>| #[trigger]
                    strategy_of(params, flag) && args == seq![
                        "pr"@,
                        "merge"@,
                        branch,
                        flag,
                        "--delete-branch"@,
                    ]
            }
        }),
{
    law_each_method_has_its_handler(params, log, 1);
    let place = checkout_run(params, log, 1).outcome->Ok_0;
    let pr = parsed_text(output_at(log, 4))->Ok_0;
    lemma_persist_runs_nothing(
        required(params, "session_id"@)->Ok_0,
        told(pr, "url"@)->Some_0,
        "merged"@,
        Some(trimmed(output_at(log, 6))),
        Some(place.branch),
        log,
        10,
    );
    let flag = merge_flag(params.text_at("strategy"@))->Ok_0;
    assert(merge_flag(params.text_at("strategy"@)) is Ok ==> strategy_of(params, flag));
}

/// `github.merge` with another strategy than `squash`, `merge` and `rebase` fails before anything
/// is run.
pub proof fn law_unknown_strategies_are_refused(
    params: JsonView,
    log: Seq<ReplyView>,
    session_id: Seq<char>,
    cwd: Seq<char>,
    branch: Seq<char>,
    strategy: Seq<char>,
)
    requires
        tells(params, "session_id"@, session_id),
        opened(log, context_of(log)),
        tells(context_of(log), "working_tree_path"@, cwd),
        tells(context_of(log), "branch"@, branch),
        told(params, "strategy"@) == Some(strategy),
        strategy != "squash"@ && strategy != "merge"@ && strategy != "rebase"@,
    ensures
        next_step("github.merge"@, params, log) == StepView::Finished(
            Err::<JsonView, ErrorView>(
                ErrorView::Message("merge strategy must be squash, merge, or rebase"@),
            ),
        ),
{
    law_each_method_has_its_handler(params, log, 1);
}

/// `github.merge` changes the settings only once all its programs have succeeded, and then only to
/// map the pull request that `gh` showed to the session as merged.
pub proof fn law_merges_record_what_was_merged(
    params: JsonView,
    log: Seq<ReplyView>,
    id: Seq<char>,
    call: JsonView,
    allow: bool,
)
    requires
        next_step("github.merge"@, params, log) == StepView::Ask(
            ActionView::HostCall {
                id,
                method: "host.settings.patch"@,
                params: call,
                allow_cancelled: allow,
            },
        ),
    ensures
        opened(log, context_of(log)) && smooth(log, 10) && log.len() > 10 && log[10] is Clock,
        !allow,
        parsed_text(output_at(log, 4)) is Ok,
        exists|session_id: Seq<char>, branch: Seq<char>, url: Seq<char>, recorded: JsonView|
            {
                &&& tells(params, "session_id"@, session_id)
                &&& tells(context_of(log), "branch"@, branch)
                &&& tells(parsed_text(output_at(log, 4))->Ok_0, "url"@, url)
                &&& #[trigger] gives_mapping(log, 11, call, session_id, recorded)
                &&& #[trigger] mapped(
                    recorded,
                    session_id,
                    url,
                    "merged"@,
                    Some(trimmed(output_at(log, 6))),
                    Some(branch),
                    log[10]->Clock_0,
                )
            },
{
    law_each_method_has_its_handler(params, log, 1);
    lemma_host_methods();
    let place = checkout_run(params, log, 1).outcome->Ok_0;
    let session_id = required(params, "session_id"@)->Ok_0;
    let url = told(parsed_text(output_at(log, 4))->Ok_0, "url"@)->Some_0;
    let recorded = lemma_persist_calls(
        session_id,
        url,
        "merged"@,
        Some(trimmed(output_at(log, 6))),
        Some(place.branch),
        log,
        10,
        id,
        call,
        allow,
    );
    assert(gives_mapping(log, 11, call, session_id, recorded));
}

/// `github.merge` goes through all its steps where nothing fails: it asks for the URL and for the
/// remote, merges, records the pull request as merged, and answers that it is.
pub proof fn law_merges_go_through(
    params: JsonView,
    log: Seq<ReplyView>,
    session_id: Seq<char>,
    flag: Seq<char>,
    cwd: Seq<char>,
    branch: Seq<char>,
    url: Seq<char>,
) -> (recorded: JsonView)
    requires
        tells(params, "session_id"@, session_id),
        strategy_of(params, flag),
        opened(log, context_of(log)),
        tells(context_of(log), "working_tree_path"@, cwd),
        tells(context_of(log), "branch"@, branch),
        smooth(log, 10),
        log.len() > 5 ==> parsed_text(output_at(log, 4)) is Ok && tells(
            parsed_text(output_at(log, 4))->Ok_0,
            "url"@,
            url,
        ),
        log.len() > 10 ==> log[10] is Clock && settled(log, 11),
    ensures
        ({
            let step = next_step("github.merge"@, params, log);
            &&& log.len() == 4 || log.len() == 6 || log.len() == 8 ==> step == StepView::Ask(
                ActionView::CheckCancelled,
            )
            &&& log.len() == 5 || log.len() == 7 || log.len() == 9 ==> (step matches StepView::Ask(action)
                && action is Run)
            &&& log.len() == 10 ==> step == StepView::Ask(ActionView::ReadClock)
            &&& log.len() > 10 ==> mapped(
                recorded,
                session_id,
                url,
                "merged"@,
                Some(trimmed(output_at(log, 6))),
                Some(branch),
                log[10]->Clock_0,
            ) && settles(
                step,
                log,
                11,
                mapping_change(session_id, recorded),
                single("merged"@, JsonView::Bool(true)),
            )
        }),
{
    law_each_method_has_its_handler(params, log, 1);
    if log.len() >= 10 {
        lemma_persist_settles(
            session_id,
            url,
            "merged"@,
            Some(trimmed(output_at(log, 6))),
            Some(branch),
            log,
            10,
            single("merged"@, JsonView::Bool(true)),
        )
    } else {
        JsonView::Null
    }
}

/// `github.markReady` marks the pull request of the branch as ready, and runs nothing else.
pub proof fn law_drafts_are_marked_as_ready(
    params: JsonView,
    log: Seq<ReplyView>,
    program: Program,
    cwd: Seq<char>,
    args: Seq<Seq<char>>,
)
    requires
        asks_to_run(next_step("github.markReady"@, params, log), program, cwd, args),
    ensures
        opened(log, context_of(log)) && log.len() == 5 && log[4] == ReplyView::Cancelled(false),
        tells(context_of(log), "working_tree_path"@, cwd),
        told(context_of(log), "branch"@) matches Some(branch) && program is Gh && args == seq![
            "pr"@,
            "ready"@,
            branch,
        ],
{
    law_each_method_has_its_handler(params, log, 1);
}

/// `github.markReady` goes through where nothing fails, and changes no settings.
pub proof fn law_marking_goes_through(
    params: JsonView,
    log: Seq<ReplyView>,
    session_id: Seq<char>,
    cwd: Seq<char>,
    branch: Seq<char>,
)
    requires
        tells(params, "session_id"@, session_id),
        opened(log, context_of(log)),
        tells(context_of(log), "working_tree_path"@, cwd),
        tells(context_of(log), "branch"@, branch),
        smooth(log, 6),
    ensures
        ({
            let step = next_step("github.markReady"@, params, log);
            &&& log.len() == 4 ==> step == StepView::Ask(ActionView::CheckCancelled)
            &&& log.len() == 5 ==> (step matches StepView::Ask(action) && action is Run)
            &&& log.len() >= 6 ==> step == StepView::Finished(
                Ok::<JsonView, ErrorView>(single("ready"@, JsonView::Bool(true))),
            )
        }),
{
    law_each_method_has_its_handler(params, log, 1);
}

/// Whether `text` is the same as `word`, which is in small letters, but for the size of its
/// letters.
pub open spec fn spells(text: Seq<char>, word: Seq<char>) -> bool {
    text.len() == word.len() && forall|i: int|
        0 <= i < word.len() ==> #[trigger] text[i] == word[i] || text[i] as int + 32 == word[i] as int
}

/// Whether a URL points into a run of GitHub Actions: the id is what stands behind the first
/// `/actions/runs/`, up to the next slash or the end.
pub open spec fn points_into(url: Seq<char>, run: Seq<char>) -> bool {
    let marker = "/actions/runs/"@;
    exists|at: int|
        {
            &&& 0 <= at && at + marker.len() + run.len() <= url.len()
            &&& #[trigger] url.subrange(at, at + marker.len()) == marker
            &&& forall|earlier: int|
                0 <= earlier < at ==> #[trigger] url.subrange(earlier, earlier + marker.len()) != marker
            &&& url.subrange(at + marker.len(), at + marker.len() + run.len()) == run
            &&& !run.contains('/')
            &&& at + marker.len() + run.len() < url.len() ==> url[at + marker.len() + run.len() as int]
                == '/'
        }
}

/// Whether a check has failed in a run of GitHub Actions.
pub open spec fn failed_in(check: JsonView, run: Seq<char>) -> bool {
    told(check, "conclusion"@) matches Some(conclusion) && spells(conclusion, "failure"@) && (told(
        check,
        "detailsUrl"@,
    ) matches Some(url) && points_into(url, run))
}

/// The checks of a pull request.
pub open spec fn checks_of(status: JsonView) -> Seq<JsonView> {
    match status {
        JsonView::Object(members) => if members.contains_key("statusCheckRollup"@) {
            match members["statusCheckRollup"@] {
                JsonView::Array(checks) => checks,
                _ => Seq::empty(),
            }
        } else {
            Seq::empty()
        },
        _ => Seq::empty(),
    }
}

/// Whether `run` is the one that the first check failed in that failed in any.
pub open spec fn first_failure(checks: Seq<JsonView>, k: int, run: Seq<char>) -> bool {
    &&& 0 <= k < checks.len()
    &&& failed_in(checks[k], run)
    &&& forall|j: int, other: Seq<char>| 0 <= j < k ==> !#[trigger] failed_in(checks[j], other)
}

proof fn lemma_spells(text: Seq<char>)
    ensures
        spells(text, "failure"@) <==> small_letters(text) == small_letters("failure"@),
{
    reveal_strlit("failure");
    let word = "failure"@;
    assert(word =~= seq!['f', 'a', 'i', 'l', 'u', 'r', 'e']);
    assert(small_letters(word) =~= word);
    if small_letters(text) == word {
        assert forall|i: int| 0 <= i < word.len() implies #[trigger] text[i] == word[i] || text[i] as int
            + 32 == word[i] as int by {
            assert(small_letters(text)[i] == small_letter(text[i]));
        }
    }
    if spells(text, word) {
        assert(small_letters(text) =~= word) by {
            assert forall|i: int| 0 <= i < word.len() implies small_letter(#[trigger] text[i])
                == word[i] by {}
        }
    }
}

proof fn lemma_points_into(url: Seq<char>, run: Seq<char>)
    ensures
        points_into(url, run) <==> run_id(url) == Some(run),
{
    let marker = "/actions/runs/"@;
    if points_into(url, run) {
        let at = choose|at: int|
            {
                &&& 0 <= at && at + marker.len() + run.len() <= url.len()
                &&& #[trigger] url.subrange(at, at + marker.len()) == marker
                &&& forall|earlier: int|
                    0 <= earlier < at ==> #[trigger] url.subrange(earlier, earlier + marker.len())
                        != marker
                &&& url.subrange(at + marker.len(), at + marker.len() + run.len()) == run
                &&& !run.contains('/')
                &&& at + marker.len() + run.len() < url.len() ==> url[at + marker.len()
                    + run.len() as int] == '/'
            };
        lemma_first_occurrence(url, marker, at);
        let rest = url.skip(at + marker.len());
        assert(rest.take(run.len() as int) =~= run);
        assert forall|i: int| 0 <= i < run.len() implies rest[i] != '/' by {
            assert(rest[i] == run[i]);
        }
        lemma_length_before(rest, '/', run.len() as int);
    }
    if run_id(url) == Some(run) {
        let at = lemma_occurrence(url, marker);
        let rest = url.skip(at + marker.len());
        lemma_length_before_bounds(rest, '/');
        assert(url.subrange(at + marker.len(), at + marker.len() + run.len()) =~= run);
        assert(url.subrange(at, at + marker.len()) == marker);
        assert forall|i: int| 0 <= i < run.len() implies run[i] != '/' by {
            assert(rest[i] == run[i]);
        }
        assert forall|earlier: int| 0 <= earlier < at implies #[trigger] url.subrange(
            earlier,
            earlier + marker.len(),
        ) != marker by {
            assert(!occurs_at(url, marker, earlier));
        }
    }
}

/// The first place at which a pattern stands in a text.
proof fn lemma_occurrence(text: Seq<char>, pattern: Seq<char>) -> (at: int)
    requires
        occurs(text, pattern),
    ensures
        at == first_occurrence(text, pattern),
        occurs_at(text, pattern, at),
        forall|earlier: int| 0 <= earlier < at ==> !occurs_at(text, pattern, earlier),
{
    let some = choose|at: int| occurs_at(text, pattern, at);
    lemma_earliest(text, pattern, some)
}

proof fn lemma_earliest(text: Seq<char>, pattern: Seq<char>, some: int) -> (at: int)
    requires
        occurs_at(text, pattern, some),
    ensures
        at == first_occurrence(text, pattern),
        occurs_at(text, pattern, at),
        forall|earlier: int| 0 <= earlier < at ==> !occurs_at(text, pattern, earlier),
    decreases some,
{
    if exists|earlier: int| 0 <= earlier < some && occurs_at(text, pattern, earlier) {
        let earlier = choose|earlier: int| 0 <= earlier < some && occurs_at(text, pattern, earlier);
        lemma_earliest(text, pattern, earlier)
    } else {
        lemma_first_occurrence(text, pattern, some);
        some
    }
}

/// Which run is the first that a check failed in.
proof fn lemma_first_failed(checks: Seq<JsonView>) -> (k: int)
    ensures
        first_failed(checks) matches Some(run) ==> first_failure(checks, k, run),
        first_failed(checks) is None ==> forall|j: int, run: Seq<char>|
            0 <= j < checks.len() ==> !#[trigger] failed_in(checks[j], run),
    decreases checks.len(),
{
    if checks.len() == 0 {
        0
    } else {
        let check = checks[0];
        assert forall|run: Seq<char>| #[trigger] failed_in(check, run) == (failed_check(check) == Some(
            run,
        )) by {
            if told(check, "conclusion"@) is Some && told(check, "detailsUrl"@) is Some {
                lemma_spells(told(check, "conclusion"@)->Some_0);
                lemma_points_into(told(check, "detailsUrl"@)->Some_0, run);
            }
        }
        if failed_check(check) is Some {
            0
        } else {
            let rest = checks.drop_first();
            let k = lemma_first_failed(rest);
            assert forall|j: int, run: Seq<char>| 0 <= j < checks.len() && (first_failed(
                checks,
            ) is None || j < k + 1) implies !#[trigger] failed_in(checks[j], run) by {
                if j > 0 {
                    assert(checks[j] == rest[j - 1]);
                }
            }
            k + 1
        }
    }
}

/// `github.failureLogs` asks `gh` for the checks of the pull request of the branch, then for the
/// log of the run of GitHub Actions that the first check failed in that failed in any. A check has
/// failed if its conclusion is `failure`, in letters of any size, and no other way.
pub proof fn law_failure_logs_are_of_the_first_failure(
    params: JsonView,
    log: Seq<ReplyView>,
    program: Program,
    cwd: Seq<char>,
    args: Seq<Seq<char>>,
)
    requires
        asks_to_run(next_step("github.failureLogs"@, params, log), program, cwd, args),
    ensures
        ({
            let context = context_of(log);
            let shown = parsed_text(output_at(log, 4));
            &&& opened(log, context) && smooth(log, 8)
            &&& tells(context, "working_tree_path"@, cwd) && program is Gh
            &&& told(context, "branch"@) matches Some(branch) && {
                ||| log.len() == 5 && args == seq![
                    "pr"@,
                    "view"@,
                    branch,
                    "--json"@,
                    "statusCheckRollup"@,
                ]
                ||| log.len() == 7 && shown is Ok && exists|k: int, run: Seq<char>| #[trigger]
                    first_failure(checks_of(shown->Ok_0), k, run) && args == seq![
                        "run"@,
                        "view"@,
                        run,
                        "--log-failed"@,
                    ]
            }
        }),
{
    law_each_method_has_its_handler(params, log, 1);
    let checks = checks_of(parsed_text(output_at(log, 4))->Ok_0);
    let k = lemma_first_failed(checks);
    if log.len() > 5 {
        assert(first_failure(checks, k, first_failed(checks)->Some_0));
    }
}

/// A check that was skipped or cancelled, that is neutral, or that still runs has not failed.
pub proof fn law_other_conclusions_are_no_failures(check: JsonView, run: Seq<char>)
    requires
        told(check, "conclusion"@) == Some("SKIPPED"@) || told(check, "conclusion"@) == Some("NEUTRAL"@)
            || told(check, "conclusion"@) == Some("CANCELLED"@) || told(check, "conclusion"@) == Some(
            "SUCCESS"@,
        ) || told(check, "conclusion"@) == Some(""@) || told(check, "conclusion"@) is None,
    ensures
        !failed_in(check, run),
{
    reveal_strlit("failure");
    reveal_strlit("SKIPPED");
    reveal_strlit("NEUTRAL");
    reveal_strlit("CANCELLED");
    reveal_strlit("SUCCESS");
    reveal_strlit("");
    if told(check, "conclusion"@) is Some && told(check, "conclusion"@)->Some_0.len() == 7 {
        let conclusion = told(check, "conclusion"@)->Some_0;
        assert("failure"@[0] == 'f');
        assert(conclusion[0] == 'S' || conclusion[0] == 'N');
    }
}

/// `github.failureLogs` goes through where nothing fails: it answers with the last 200 lines of the
/// log, or fails where no check has failed in a run of GitHub Actions.
pub proof fn law_failure_logs_go_through(
    params: JsonView,
    log: Seq<ReplyView>,
    session_id: Seq<char>,
    cwd: Seq<char>,
    branch: Seq<char>,
    shown: JsonView,
)
    requires
        tells(params, "session_id"@, session_id),
        opened(log, context_of(log)),
        tells(context_of(log), "working_tree_path"@, cwd),
        tells(context_of(log), "branch"@, branch),
        smooth(log, 8),
        log.len() > 5 ==> parsed_text(output_at(log, 4)) == Ok::<JsonView, Seq<char>>(shown),
    ensures
        ({
            let step = next_step("github.failureLogs"@, params, log);
            let any = exists|k: int, run: Seq<char>| #[trigger]
                first_failure(checks_of(shown), k, run);
            &&& log.len() == 4 || log.len() == 6 && any ==> step == StepView::Ask(
                ActionView::CheckCancelled,
            )
            &&& log.len() == 5 || log.len() == 7 && any ==> (step matches StepView::Ask(action)
                && action is Run)
            &&& log.len() >= 6 && !any ==> step == StepView::Finished(
                Err::<JsonView, ErrorView>(
                    ErrorView::Message("no failed GitHub Actions run found"@),
                ),
            )
            &&& log.len() >= 8 && any ==> step == StepView::Finished(
                Ok::<JsonView, ErrorView>(
                    single(
                        "message"@,
                        JsonView::Text(
                            "CI failed on branch `"@ + branch + "`. Here are the failure logs:\n\n"@
                                + joined(last_lines(lines(output_at(log, 6)), 200)),
                        ),
                    ),
                ),
            )
        }),
{
    law_each_method_has_its_handler(params, log, 1);
    let checks = checks_of(shown);
    let k = lemma_first_failed(checks);
    if first_failed(checks) is Some {
        assert(first_failure(checks, k, first_failed(checks)->Some_0));
    }
}

/// The branch that a pull request is compared with: the one that the host names, or `main`.
pub open spec fn compared_with(context: JsonView) -> Seq<char> {
    match told(context, "base_branch"@) {
        Some(base) => if base.len() > 0 {
            base
        } else {
            "main"@
        },
        None => "main"@,
    }
}

/// `github.defaults` asks `git` to sum up the changes since the base branch, and runs nothing else.
pub proof fn law_defaults_sum_up_the_changes(
    params: JsonView,
    log: Seq<ReplyView>,
    program: Program,
    cwd: Seq<char>,
    args: Seq<Seq<char>>,
)
    requires
        asks_to_run(next_step("github.defaults"@, params, log), program, cwd, args),
    ensures
        opened(log, context_of(log)) && log.len() == 5 && log[4] == ReplyView::Cancelled(false),
        tells(context_of(log), "working_tree_path"@, cwd) && program is Git,
        args == seq!["diff"@, "--stat"@, compared_with(context_of(log)) + "...HEAD"@],
{
    law_each_method_has_its_handler(params, log, 1);
}

/// `github.defaults` suggests the branch as the title, the summary of the changes as the body, and
/// the base branch. Without a summary the body is empty, also where `git` fails or is not run.
pub proof fn law_defaults_suggest_the_changes(
    params: JsonView,
    log: Seq<ReplyView>,
    session_id: Seq<char>,
    cwd: Seq<char>,
    branch: Seq<char>,
)
    requires
        tells(params, "session_id"@, session_id),
        opened(log, context_of(log)),
        tells(context_of(log), "working_tree_path"@, cwd),
        tells(context_of(log), "branch"@, branch),
        log.len() > 4 ==> log[4] is Cancelled,
        log.len() > 5 && log[4] == ReplyView::Cancelled(false) ==> log[5] is Output,
    ensures
        ({
            let step = next_step("github.defaults"@, params, log);
            let skipped = log[4] == ReplyView::Cancelled(true);
            let summary = if skipped || log[5]->Output_0 is Err {
                Seq::empty()
            } else {
                log[5]->Output_0->Ok_0
            };
            let body = if blank(summary) {
                Seq::empty()
            } else {
                "## Changes\n\n```\n"@ + trimmed(summary) + "\n```"@
            };
            &&& log.len() == 4 ==> step == StepView::Ask(ActionView::CheckCancelled)
            &&& log.len() == 5 && !skipped ==> (step matches StepView::Ask(action) && action is Run)
            &&& log.len() >= 6 || log.len() == 5 && skipped ==> step == StepView::Finished(
                Ok::<JsonView, ErrorView>(
                    JsonView::Object(
                        map![
                            "title"@ => JsonView::Text(branch),
                            "body"@ => JsonView::Text(body),
                            "base_branch"@ => JsonView::Text(compared_with(context_of(log))),
                        ],
                    ),
                ),
            )
        }),
{
    law_each_method_has_its_handler(params, log, 1);
    let summary = if log[4] == ReplyView::Cancelled(true) || log[5]->Output_0 is Err {
        Seq::empty()
    } else {
        log[5]->Output_0->Ok_0
    };
    law_blank_texts_trim_to_nothing(summary);
    assert(suggested_body(summary) == if blank(summary) {
        Seq::empty()
    } else {
        "## Changes\n\n```\n"@ + trimmed(summary) + "\n```"@
    });
}

/// The requests that are about one session.
pub open spec fn about_a_session(method: Seq<char>) -> bool {
    ||| method == "github.status"@
    ||| method == "github.defaults"@
    ||| method == "github.create"@
    ||| method == "github.link"@
    ||| method == "github.merge"@
    ||| method == "github.markReady"@
    ||| method == "github.failureLogs"@
}

/// A request about a session asks the host about the repository of the session that its parameters
/// name, before anything else. Without a session it fails.
#[verifier::rlimit(60)]
pub proof fn law_requests_ask_about_their_session(
    method: Seq<char>,
    params: JsonView,
    log: Seq<ReplyView>,
    session_id: Seq<char>,
)
    requires
        about_a_session(method),
        forall|i: int| 0 <= i < log.len() && i < 2 ==> #[trigger] log[i] == ReplyView::Cancelled(false),
        log.len() > 2 ==> log[2] is Sequence,
    ensures
        ({
            let step = next_step(method, params, log);
            let named = tells(params, "session_id"@, session_id);
            &&& log.len() == 0 ==> step == StepView::Ask(ActionView::CheckCancelled)
            &&& log.len() == 1 && named ==> step == StepView::Ask(ActionView::CheckCancelled)
            &&& log.len() == 2 && named ==> step == StepView::Ask(ActionView::NextSequence)
            &&& log.len() == 3 && named ==> step == StepView::Ask(
                ActionView::HostCall {
                    id: "github-context-"@ + session_id + "-"@ + decimal(
                        log[2]->Sequence_0 as nat,
                    ),
                    method: "host.sessions.repositoryContext"@,
                    params: single("session_id"@, JsonView::Text(session_id)),
                    allow_cancelled: false,
                },
            )
            &&& log.len() > 0 && omits(params, "session_id"@) ==> step == StepView::Finished(
                Err::<JsonView, ErrorView>(ErrorView::Message("session_id"@ + " is required"@)),
            )
        }),
{
    law_each_method_has_its_handler(params, log, 1);
    reveal(status_run);
    let context = context_run(params, log, 1);
    if log.len() > 0 && log.len() <= 3 && tells(params, "session_id"@, session_id) {
        assert(context.outcome is Err);
    }
}

/// Whether a call to the host is about settings, or about the repository of the session that the
/// parameters name, as the first thing that a request does.
pub open spec fn stays_with_its_session(params: JsonView, log: Seq<ReplyView>, step: StepView) -> bool {
    step matches StepView::Ask(ActionView::HostCall { id, method, params: call, allow_cancelled }) ==> {
        &&& !allow_cancelled
        &&& {
            ||| method == "host.settings.get"@
            ||| method == "host.settings.patch"@
            ||| method == "host.sessions.repositoryContext"@ && log.len() == 3 && (told(
                params,
                "session_id"@,
            ) matches Some(asked) && !blank(asked) && call == single(
                "session_id"@,
                JsonView::Text(asked),
            ))
        }
    }
}

/// A request about a session asks the host about no other session, and does not list them.
pub proof fn law_requests_stay_with_their_session(
    method: Seq<char>,
    params: JsonView,
    log: Seq<ReplyView>,
)
    requires
        about_a_session(method),
    ensures
        stays_with_its_session(params, log, next_step(method, params, log)),
{
    if method == "github.status"@ {
        lemma_status_stays(params, log);
    } else if method == "github.create"@ {
        lemma_create_stays(params, log);
    } else if method == "github.link"@ {
        lemma_link_stays(params, log);
    } else if method == "github.merge"@ {
        lemma_merge_stays(params, log);
    } else {
        lemma_others_stay(method, params, log);
    }
}

proof fn lemma_status_stays(params: JsonView, log: Seq<ReplyView>)
    ensures
        stays_with_its_session(params, log, next_step("github.status"@, params, log)),
{
    law_each_method_has_its_handler(params, log, 1);
    reveal(status_run);
    lemma_settings_calls(log);
}

proof fn lemma_create_stays(params: JsonView, log: Seq<ReplyView>)
    ensures
        stays_with_its_session(params, log, next_step("github.create"@, params, log)),
{
    law_each_method_has_its_handler(params, log, 1);
    lemma_settings_calls(log);
}

proof fn lemma_link_stays(params: JsonView, log: Seq<ReplyView>)
    ensures
        stays_with_its_session(params, log, next_step("github.link"@, params, log)),
{
    law_each_method_has_its_handler(params, log, 1);
    lemma_settings_calls(log);
}

proof fn lemma_merge_stays(params: JsonView, log: Seq<ReplyView>)
    ensures
        stays_with_its_session(params, log, next_step("github.merge"@, params, log)),
{
    law_each_method_has_its_handler(params, log, 1);
    lemma_settings_calls(log);
}

proof fn lemma_others_stay(method: Seq<char>, params: JsonView, log: Seq<ReplyView>)
    requires
        method == "github.defaults"@ || method == "github.markReady"@ || method == "github.failureLogs"@,
    ensures
        stays_with_its_session(params, log, next_step(method, params, log)),
{
    law_each_method_has_its_handler(params, log, 1);
}

/// Recording a mapping calls no method of the host but those about settings, and none once the
/// request is cancelled.
proof fn lemma_settings_calls(log: Seq<ReplyView>)
    ensures
        forall|patch: JsonView, at: int|
            (#[trigger] patch_run(patch, false, log, at)).outcome matches Err(
                HaltView::Ask(ActionView::HostCall { id, method, params, allow_cancelled }),
            ) ==> !allow_cancelled && (method == "host.settings.get"@ || method
                == "host.settings.patch"@),
{
    reveal(patch_run);
    reveal(ensure_run);
}

/// Whether the host's reply about the repository lacks a member, or it is blank.
pub open spec fn omits(json: JsonView, key: Seq<char>) -> bool {
    told(json, key) is None || blank(told(json, key)->Some_0)
}

/// A request about a session fails where the host does not say in which directory the session
/// works. All but `github.status` and `github.link` fail as well where it does not name the branch.
#[verifier::rlimit(60)]
pub proof fn law_incomplete_repositories_are_refused(
    method: Seq<char>,
    params: JsonView,
    log: Seq<ReplyView>,
    session_id: Seq<char>,
)
    requires
        about_a_session(method),
        tells(params, "session_id"@, session_id),
        opened(log, context_of(log)),
    ensures
        omits(context_of(log), "working_tree_path"@) ==> next_step(method, params, log)
            == StepView::Finished(
            Err::<JsonView, ErrorView>(
                ErrorView::Message("repository context did not include "@ + "working_tree_path"@),
            ),
        ),
        !omits(context_of(log), "working_tree_path"@) && omits(context_of(log), "branch"@) && method
            != "github.status"@ && method != "github.link"@ ==> next_step(method, params, log)
            == StepView::Finished(
            Err::<JsonView, ErrorView>(
                ErrorView::Message("repository context did not include "@ + "branch"@),
            ),
        ),
{
    law_each_method_has_its_handler(params, log, 1);
    reveal(status_run);
}

/// `github.create` needs a title and a base branch, `github.link` the URL of the pull request.
/// Where one is missing or blank, the request fails before anything is run.
pub proof fn law_missing_parameters_are_refused(
    params: JsonView,
    log: Seq<ReplyView>,
    session_id: Seq<char>,
)
    requires
        tells(params, "session_id"@, session_id),
        opened(log, context_of(log)),
        !omits(context_of(log), "working_tree_path"@),
        !omits(context_of(log), "branch"@),
    ensures
        omits(params, "title"@) ==> next_step("github.create"@, params, log) == StepView::Finished(
            Err::<JsonView, ErrorView>(ErrorView::Message("title"@ + " is required"@)),
        ),
        !omits(params, "title"@) && omits(params, "base_branch"@) ==> next_step(
            "github.create"@,
            params,
            log,
        ) == StepView::Finished(
            Err::<JsonView, ErrorView>(ErrorView::Message("base_branch"@ + " is required"@)),
        ),
        omits(params, "url"@) ==> next_step("github.link"@, params, log) == StepView::Finished(
            Err::<JsonView, ErrorView>(ErrorView::Message("url"@ + " is required"@)),
        ),
{
    law_each_method_has_its_handler(params, log, 1);
}

/// Whether a reply says that an action failed.
pub open spec fn failed_with(action: ActionView, reply: ReplyView, error: ErrorView) -> bool {
    ||| action is HostCall && reply == ReplyView::Host(Err(error))
    ||| action is Run && reply == ReplyView::Output(Err(error))
}

/// A change of the settings that calls the host in vain fails with the error of the host.
pub(crate) proof fn lemma_patch_fails(
    patch: JsonView,
    log: Seq<ReplyView>,
    at: int,
    action: ActionView,
    error: ErrorView,
)
    requires
        0 <= at <= log.len(),
        patch_run(patch, false, log, at).outcome == Err::<(), HaltView>(HaltView::Ask(action)),
        action is HostCall,
    ensures
        patch_run(patch, false, log.push(ReplyView::Host(Err(error))), at).outcome == Err::<(), HaltView>(
            HaltView::Fail(error),
        ),
{
    reveal(patch_run);
    reveal(ensure_run);
    let whole = log.push(ReplyView::Host(Err(error)));
    assert(forall|i: int| 0 <= i < log.len() ==> #[trigger] whole[i] == log[i]);
}

/// Recording a mapping that calls the host in vain fails with the error of the host.
pub(crate) proof fn lemma_persist_fails(
    session_id: Seq<char>,
    url: Seq<char>,
    state: Seq<char>,
    remote: Option<Seq<char>>,
    branch: Option<Seq<char>>,
    log: Seq<ReplyView>,
    at: int,
    action: ActionView,
    error: ErrorView,
)
    requires
        0 <= at <= log.len(),
        persist_run(session_id, url, state, remote, branch, log, at).outcome == Err::<(), HaltView>(
            HaltView::Ask(action),
        ),
        action is HostCall,
    ensures
        persist_run(
            session_id,
            url,
            state,
            remote,
            branch,
            log.push(ReplyView::Host(Err(error))),
            at,
        ).outcome == Err::<(), HaltView>(HaltView::Fail(error)),
{
    let whole = log.push(ReplyView::Host(Err(error)));
    assert(forall|i: int| 0 <= i < log.len() ==> #[trigger] whole[i] == log[i]);
    let now = log[at]->Clock_0;
    let recorded = mapping(session_id, url, state, remote, branch, now);
    lemma_patch_fails(mapping_patch(session_id, recorded), log, at + 1, action, error);
}

/// `github.create` ends where a program or a call to the host fails, with that error.
#[verifier::rlimit(60)]
pub proof fn law_creations_end_where_something_fails(
    params: JsonView,
    log: Seq<ReplyView>,
    action: ActionView,
    reply: ReplyView,
    error: ErrorView,
)
    requires
        next_step("github.create"@, params, log) == StepView::Ask(action),
        failed_with(action, reply, error),
    ensures
        next_step("github.create"@, params, log.push(reply)) == StepView::Finished(
            Err::<JsonView, ErrorView>(error),
        ),
{
    let whole = log.push(reply);
    assert(forall|i: int| 0 <= i < log.len() ==> #[trigger] whole[i] == log[i]);
    law_each_method_has_its_handler(params, log, 1);
    law_each_method_has_its_handler(params, whole, 1);
    if let ActionView::Run { program, cwd, args } = action {
        law_creations_run_three_programs(params, log, program, cwd, args);
    } else if log.len() > 10 {
        let place = checkout_run(params, log, 1).outcome->Ok_0;
        lemma_persist_fails(
            told(params, "session_id"@)->Some_0,
            trimmed(output_at(log, 6)),
            created_as(params),
            Some(trimmed(output_at(log, 8))),
            Some(place.branch),
            log,
            10,
            action,
            error,
        );
    }
}

/// `github.merge` ends where a program or a call to the host fails, with that error.
#[verifier::rlimit(60)]
pub proof fn law_merges_end_where_something_fails(
    params: JsonView,
    log: Seq<ReplyView>,
    action: ActionView,
    reply: ReplyView,
    error: ErrorView,
)
    requires
        next_step("github.merge"@, params, log) == StepView::Ask(action),
        failed_with(action, reply, error),
    ensures
        next_step("github.merge"@, params, log.push(reply)) == StepView::Finished(
            Err::<JsonView, ErrorView>(error),
        ),
{
    let whole = log.push(reply);
    assert(forall|i: int| 0 <= i < log.len() ==> #[trigger] whole[i] == log[i]);
    law_each_method_has_its_handler(params, log, 1);
    law_each_method_has_its_handler(params, whole, 1);
    if let ActionView::Run { program, cwd, args } = action {
        law_merges_run_three_programs(params, log, program, cwd, args);
    } else if log.len() > 10 {
        let place = checkout_run(params, log, 1).outcome->Ok_0;
        lemma_persist_fails(
            told(params, "session_id"@)->Some_0,
            told(parsed_text(output_at(log, 4))->Ok_0, "url"@)->Some_0,
            "merged"@,
            Some(trimmed(output_at(log, 6))),
            Some(place.branch),
            log,
            10,
            action,
            error,
        );
    }
}

/// `github.markReady` and `github.failureLogs` end where a program or a call to the host fails,
/// with that error.
#[verifier::rlimit(60)]
pub proof fn law_marking_and_logs_end_where_something_fails(
    method: Seq<char>,
    params: JsonView,
    log: Seq<ReplyView>,
    action: ActionView,
    reply: ReplyView,
    error: ErrorView,
)
    requires
        method == "github.markReady"@ || method == "github.failureLogs"@,
        next_step(method, params, log) == StepView::Ask(action),
        failed_with(action, reply, error),
    ensures
        next_step(method, params, log.push(reply)) == StepView::Finished(
            Err::<JsonView, ErrorView>(error),
        ),
{
    let whole = log.push(reply);
    assert(forall|i: int| 0 <= i < log.len() ==> #[trigger] whole[i] == log[i]);
    law_each_method_has_its_handler(params, log, 1);
    law_each_method_has_its_handler(params, whole, 1);
}

/// `plugin.handshake` tells a host that speaks the same interface what the plugin is, and refuses
/// every other host. `plugin.shutdown` agrees. No other method is known but those of GitHub.
pub proof fn law_plugin_methods_answer_at_once(
    method: Seq<char>,
    params: JsonView,
    log: Seq<ReplyView>,
)
    requires
        log.len() > 0,
        log[0] == ReplyView::Cancelled(false),
    ensures
        next_step("plugin.handshake"@, params, log) == StepView::Finished(
            if told(params, "host_api_version"@) == Some("planeai.plugin-host.v1"@) {
                Ok::<JsonView, ErrorView>(
                    JsonView::Object(
                        map![
                            "plugin_id"@ => JsonView::Text("github"@),
                            "plugin_name"@ => JsonView::Text("GitHub"@),
                            "plugin_version"@ => JsonView::Text("0.1.0"@),
                            "host_api_version"@ => JsonView::Text("planeai.plugin-host.v1"@),
                            "lifecycle_event_subscriptions"@ => JsonView::Array(Seq::empty()),
                        ],
                    ),
                )
            } else {
                Err(ErrorView::Message("unsupported PlaneAI plugin host API"@))
            },
        ),
        next_step("plugin.shutdown"@, params, log) == StepView::Finished(
            Ok::<JsonView, ErrorView>(single("stopping"@, JsonView::Bool(true))),
        ),
        method != "plugin.handshake"@ && method != "plugin.shutdown"@ && method != "github.reconcile"@
            && !about_a_session(method) ==> next_step(method, params, log) == StepView::Finished(
            Err::<JsonView, ErrorView>(ErrorView::Message("method not found"@)),
        ),
{
    law_each_method_has_its_handler(params, log, 1);
}

} // verus!
