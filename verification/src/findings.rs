//! What `github.status` and `github.link` make of what `git` and `gh` say of a pull request.

use vstd::prelude::*;
use crate::codec::parsed_text;
use crate::command::Program;
use crate::dispatch::{StepView, law_each_method_has_its_handler, next_step};
use crate::error::ErrorView;
use crate::exchange::{ActionView, HaltView, ReplyView};
use crate::github::{github_remote, projected_status, pull_request_state};
use crate::handlers::{applicable, status_run};
use crate::json::JsonView;
use crate::laws::lemma_host_methods;
use crate::promises::{
    asks_to_run, context_of, failed_with, gives_mapping, holds, introduced, lemma_patch_calls,
    lemma_patch_fails, lemma_patch_runs_nothing, lemma_persist_calls, lemma_persist_fails,
    lemma_persist_runs_nothing, lemma_persist_settles, lemma_settles, mapped, mapping_change,
    opened, output_at, printed_at, settled, settles, single, tells, told,
};
use crate::settings::{ensure_run, patch_run};
use crate::state::{mapping, mapping_patch};
use crate::text::{blank, occurs, small_letter, small_letters, trimmed};

verus! {

/// The value that an object holds under a key.
pub open spec fn member(json: JsonView, key: Seq<char>) -> Option<JsonView> {
    match json {
        JsonView::Object(members) => if members.contains_key(key) {
            Some(members[key])
        } else {
            None
        },
        _ => None,
    }
}

/// Whether `small` is `text` with the letters from `A` to `Z` as small letters.
pub open spec fn lowered(text: Seq<char>, small: Seq<char>) -> bool {
    small.len() == text.len() && forall|i: int|
        0 <= i < text.len() ==> if 'A' <= #[trigger] text[i] <= 'Z' {
            small[i] as int == text[i] as int + 32
        } else {
            small[i] == text[i]
        }
}

/// Whether a pull request that `gh` shows is in a state: a draft is one, any other is in the state
/// that GitHub names, or open.
pub open spec fn in_state(pr: JsonView, state: Seq<char>) -> bool {
    if holds(pr, "isDraft"@, JsonView::Bool(true)) {
        state == "draft"@
    } else {
        match told(pr, "state"@) {
            Some(name) => lowered(name, state),
            None => state == "open"@,
        }
    }
}

/// Whether an answer shows a pull request as `gh` did: its URL, state, checks and review, that it
/// conflicts exactly where GitHub calls it `CONFLICTING` or `DIRTY`, and that it is blocked exactly
/// where GitHub calls it `BLOCKED`.
pub open spec fn pictures(shown: JsonView, pr: JsonView) -> bool {
    shown matches JsonView::Object(members) && {
        &&& member(shown, "url"@) == Some(
            match member(pr, "url"@) {
                Some(url) => url,
                None => JsonView::Null,
            },
        )
        &&& told(shown, "state"@) matches Some(state) && in_state(pr, state)
        &&& member(shown, "checks"@) == Some(
            match member(pr, "statusCheckRollup"@) {
                Some(checks) => checks,
                None => JsonView::Array(Seq::empty()),
            },
        )
        &&& member(shown, "conflicting"@) == Some(
            JsonView::Bool(
                told(pr, "mergeable"@) == Some("CONFLICTING"@) || told(pr, "mergeStateStatus"@) == Some(
                    "DIRTY"@,
                ),
            ),
        )
        &&& member(shown, "merge_blocked"@) == Some(
            JsonView::Bool(told(pr, "mergeStateStatus"@) == Some("BLOCKED"@)),
        )
        &&& member(shown, "review_decision"@) == Some(
            match member(pr, "reviewDecision"@) {
                Some(decision) => decision,
                None => JsonView::Null,
            },
        )
        &&& forall|key: Seq<char>| #[trigger]
            members.contains_key(key) ==> key == "url"@ || key == "state"@ || key == "checks"@ || key
                == "conflicting"@ || key == "merge_blocked"@ || key == "review_decision"@
    }
}

proof fn lemma_lowered(text: Seq<char>)
    ensures
        lowered(text, small_letters(text)),
        forall|small: Seq<char>| #[trigger] lowered(text, small) ==> small == small_letters(text),
{
    assert forall|small: Seq<char>| #[trigger] lowered(text, small) implies small == small_letters(text) by {
        assert(small =~= small_letters(text)) by {
            assert forall|i: int| 0 <= i < text.len() implies small[i] == small_letters(text)[i] by {
                assert(small_letters(text)[i] == small_letter(text[i]));
            }
        }
    }
}

proof fn lemma_pictures(pr: JsonView)
    ensures
        pictures(projected_status(pr), pr),
        told(projected_status(pr), "state"@) == Some(pull_request_state(pr)),
        forall|state: Seq<char>| #[trigger] in_state(pr, state) <==> state == pull_request_state(pr),
{
    reveal_strlit("url");
    reveal_strlit("state");
    reveal_strlit("checks");
    reveal_strlit("conflicting");
    reveal_strlit("merge_blocked");
    reveal_strlit("review_decision");
    reveal_strlit("open");
    assert("url"@.len() == 3 && "state"@.len() == 5 && "checks"@.len() == 6);
    assert("conflicting"@.len() == 11 && "merge_blocked"@.len() == 13 && "review_decision"@.len() == 15);
    assert("open"@ =~= seq!['o', 'p', 'e', 'n']);
    lemma_lowered("open"@);
    assert(lowered("open"@, "open"@));
    if told(pr, "state"@) is Some {
        lemma_lowered(told(pr, "state"@)->Some_0);
    }
}

/// Whether an error of `gh` says that there is no pull request.
pub open spec fn says_none(error: ErrorView) -> bool {
    error matches ErrorView::Message(message) && (occurs(message, "no pull requests found"@) || occurs(
        message,
        "Could not resolve to a PullRequest"@,
    ))
}

/// What the host told about the repository of a session, with the check before that question in
/// the place `at`.
pub open spec fn context_at(log: Seq<ReplyView>, at: int) -> JsonView {
    log[at + 2]->Host_0->Ok_0
}

/// The programs that a look at the pull request of a session runs, from the place `at` on: `git`
/// for the remote, and, where that is on GitHub, `gh` for the pull request of the branch.
pub open spec fn look_runs(
    log: Seq<ReplyView>,
    at: int,
    program: Program,
    cwd: Seq<char>,
    args: Seq<Seq<char>>,
) -> bool {
    let context = context_at(log, at);
    &&& introduced(log, at, context)
    &&& tells(context, "working_tree_path"@, cwd)
    &&& {
        ||| log.len() == at + 4 && log[at + 3] == ReplyView::Cancelled(false) && program is Git && args
            == seq!["remote"@, "get-url"@, "origin"@]
        ||| log.len() == at + 6 && printed_at(log, at + 3, output_at(log, at + 3)) && github_remote(
            output_at(log, at + 3),
        ) && log[at + 5] == ReplyView::Cancelled(false) && program is Gh && (told(context, "branch"@) matches Some(
            branch,
        ) && !blank(branch) && args == seq![
            "pr"@,
            "view"@,
            branch,
            "--json"@,
            "url,state,isDraft,statusCheckRollup,mergeable,mergeStateStatus,reviewDecision"@,
        ])
    }
}

/// What a look at the pull request of a session writes down, from the place `at` on: the pull
/// request that `gh` showed, or that there is none, where `gh` said so.
pub open spec fn look_writes(
    log: Seq<ReplyView>,
    at: int,
    session_id: Seq<char>,
    call: JsonView,
) -> bool {
    let context = context_at(log, at);
    let remote = output_at(log, at + 3);
    let shown = parsed_text(output_at(log, at + 5));
    &&& introduced(log, at, context)
    &&& printed_at(log, at + 3, remote) && github_remote(remote)
    &&& {
        ||| printed_at(log, at + 5, output_at(log, at + 5)) && at + 7 < log.len() && log[at + 7] is Clock
            && shown is Ok && exists|branch: Seq<char>, url: Seq<char>, state: Seq<char>, recorded: JsonView|
            {
                &&& tells(context, "branch"@, branch)
                &&& tells(shown->Ok_0, "url"@, url)
                &&& in_state(shown->Ok_0, state)
                &&& #[trigger] gives_mapping(log, at + 8, call, session_id, recorded)
                &&& #[trigger] mapped(
                    recorded,
                    session_id,
                    url,
                    state,
                    Some(trimmed(remote)),
                    Some(branch),
                    log[at + 7]->Clock_0,
                )
            }
        ||| at + 6 < log.len() && (log[at + 6] matches ReplyView::Output(result) && (result matches Err(error)
            && says_none(error))) && gives_mapping(log, at + 7, call, session_id, JsonView::Null)
    }
}

/// Whether the host confirms a patch of the settings.
pub open spec fn confirms(reply: ReplyView) -> bool {
    reply matches ReplyView::Host(result) && (result matches Ok(response) && holds(
        response,
        "updated"@,
        JsonView::Bool(true),
    ))
}

/// What a look at the pull request of a session comes to, from the place `at` on, once the host has
/// confirmed that it is written down.
pub open spec fn look_shows(log: Seq<ReplyView>, at: int, answer: JsonView) -> bool {
    let context = context_at(log, at);
    let remote = output_at(log, at + 3);
    let shown = parsed_text(output_at(log, at + 5));
    &&& introduced(log, at, context)
    &&& printed_at(log, at + 3, remote)
    &&& if github_remote(remote) {
        (exists|i: int| at + 13 <= i <= at + 17 && i < log.len() && #[trigger] confirms(log[i]))
            && exists|pr: JsonView|
            {
                &&& answer == #[trigger] found_answer(remote, pr)
                &&& {
                    ||| printed_at(log, at + 5, output_at(log, at + 5)) && shown is Ok && pictures(
                        pr,
                        shown->Ok_0,
                    )
                    ||| pr is Null && at + 6 < log.len() && (log[at + 6] matches ReplyView::Output(result)
                        && (result matches Err(error) && says_none(error)))
                }
            }
    } else {
        answer == elsewhere_answer()
    }
}

/// The answer about a remote that is on GitHub.
pub open spec fn found_answer(remote: Seq<char>, pr: JsonView) -> JsonView {
    JsonView::Object(
        map![
            "applicable"@ => JsonView::Bool(true),
            "remote"@ => JsonView::Text(trimmed(remote)),
            "pr"@ => pr,
        ],
    )
}

/// The answer about a remote that is not on GitHub.
pub open spec fn elsewhere_answer() -> JsonView {
    JsonView::Object(
        map![
            "applicable"@ => JsonView::Bool(false),
            "reason"@ => JsonView::Text("The origin remote is not github.com."@),
        ],
    )
}

/// A look at the pull request of a session asks the host about this session, runs the two programs,
/// and writes and shows what they said.
#[verifier::rlimit(60)]
pub(crate) proof fn lemma_look(params: JsonView, session_id: Seq<char>, log: Seq<ReplyView>, at: int)
    requires
        0 <= at <= log.len(),
        told(params, "session_id"@) == Some(session_id),
    ensures
        ({
            let outcome = status_run(params, log, at).outcome;
            &&& outcome matches Err(HaltView::Ask(ActionView::Run { program, cwd, args }))
                ==> !blank(session_id) && look_runs(log, at, program, cwd, args)
            &&& outcome matches Err(
                HaltView::Ask(ActionView::HostCall { id, method, params: call, allow_cancelled }),
            ) ==> {
                &&& !allow_cancelled && !blank(session_id)
                &&& method == "host.settings.patch"@ ==> look_writes(log, at, session_id, call)
                &&& method == "host.sessions.repositoryContext"@ ==> log.len() == at + 2 && call == single(
                    "session_id"@,
                    JsonView::Text(session_id),
                )
                &&& method != "host.sessions.list"@
            }
            &&& outcome matches Ok(answer) ==> !blank(session_id) && look_shows(log, at, answer)
        }),
{
    reveal(status_run);
    lemma_host_methods();
    let context = context_at(log, at);
    let remote = output_at(log, at + 3);
    let branch = told(context, "branch"@)->Some_0;
    if introduced(log, at, context) && printed_at(log, at + 3, remote) && github_remote(remote) {
        if at + 6 < log.len() {
            let shown = parsed_text(output_at(log, at + 5));
            let pr = shown->Ok_0;
            lemma_pictures(pr);
            let url = told(pr, "url"@)->Some_0;
            let state = pull_request_state(pr);
            lemma_persist_runs_nothing(
                session_id,
                url,
                state,
                Some(trimmed(remote)),
                Some(branch),
                log,
                at + 7,
            );
            lemma_patch_runs_nothing(mapping_patch(session_id, JsonView::Null), false, log, at + 7);
            lemma_patch_methods(mapping_patch(session_id, JsonView::Null), false, log, at + 7);
            lemma_patch_confirms(mapping_patch(session_id, JsonView::Null), log, at + 7);
            if at + 7 < log.len() {
                let now = log[at + 7]->Clock_0;
                let recorded = mapping(session_id, url, state, Some(trimmed(remote)), Some(branch), now);
                lemma_patch_methods(mapping_patch(session_id, recorded), false, log, at + 8);
                lemma_patch_confirms(mapping_patch(session_id, recorded), log, at + 8);
            }
            if let Err(
                HaltView::Ask(ActionView::HostCall { id, method, params: call, allow_cancelled }),
            ) = status_run(params, log, at).outcome {
                if method == "host.settings.patch"@ {
                    if log[at + 6]->Output_0 is Ok {
                        let recorded = lemma_persist_calls(
                            session_id,
                            url,
                            state,
                            Some(trimmed(remote)),
                            Some(branch),
                            log,
                            at + 7,
                            id,
                            call,
                            allow_cancelled,
                        );
                        assert(gives_mapping(log, at + 8, call, session_id, recorded));
                        assert(in_state(pr, state));
                    } else {
                        lemma_patch_calls(
                            mapping_patch(session_id, JsonView::Null),
                            log,
                            at + 7,
                            id,
                            call,
                            allow_cancelled,
                        );
                    }
                }
            }
            assert(applicable(remote, projected_status(pr)) == found_answer(
                remote,
                projected_status(pr),
            ));
            assert(applicable(remote, JsonView::Null) == found_answer(remote, JsonView::Null));
        }
    }
}

/// A change of the settings that has come to an end was confirmed by the host.
proof fn lemma_patch_confirms(patch: JsonView, log: Seq<ReplyView>, at: int)
    requires
        0 <= at,
    ensures
        patch_run(patch, false, log, at).outcome is Ok ==> exists|i: int|
            at + 6 <= i <= at + 9 && i < log.len() && #[trigger] confirms(log[i]),
{
    reveal(patch_run);
    reveal(ensure_run);
    if patch_run(patch, false, log, at).outcome is Ok {
        assert(at + 6 < log.len() && confirms(log[at + 6]) || at + 9 < log.len() && confirms(
            log[at + 9],
        ));
    }
}

/// A change of the settings calls no method of the host but those about settings.
pub(crate) proof fn lemma_patch_methods(patch: JsonView, allow: bool, log: Seq<ReplyView>, at: int)
    ensures
        patch_run(patch, allow, log, at).outcome matches Err(
            HaltView::Ask(ActionView::HostCall { id, method, params, allow_cancelled }),
        ) ==> allow_cancelled == allow && (method == "host.settings.get"@ || method
            == "host.settings.patch"@),
{
    reveal(patch_run);
    reveal(ensure_run);
}

/// `github.status` runs `git` for the remote, and, where that is on GitHub, `gh` for the pull
/// request of the branch. It runs nothing else.
pub proof fn law_status_runs_two_programs(
    params: JsonView,
    log: Seq<ReplyView>,
    program: Program,
    cwd: Seq<char>,
    args: Seq<Seq<char>>,
)
    requires
        asks_to_run(next_step("github.status"@, params, log), program, cwd, args),
    ensures
        log.len() > 1 && log[0] == ReplyView::Cancelled(false),
        look_runs(log, 1, program, cwd, args),
{
    reveal(status_run);
    law_each_method_has_its_handler(params, log, 1);
    lemma_look(params, told(params, "session_id"@)->Some_0, log, 1);
}

/// `github.status` changes the settings only to map the pull request that `gh` showed to the
/// session, or to take its mapping away where `gh` said that there is none.
pub proof fn law_status_writes_what_gh_said(
    params: JsonView,
    log: Seq<ReplyView>,
    id: Seq<char>,
    call: JsonView,
    allow: bool,
)
    requires
        next_step("github.status"@, params, log) == StepView::Ask(
            ActionView::HostCall {
                id,
                method: "host.settings.patch"@,
                params: call,
                allow_cancelled: allow,
            },
        ),
    ensures
        !allow,
        exists|session_id: Seq<char>|
            tells(params, "session_id"@, session_id) && #[trigger] look_writes(log, 1, session_id, call),
{
    reveal(status_run);
    law_each_method_has_its_handler(params, log, 1);
    lemma_look(params, told(params, "session_id"@)->Some_0, log, 1);
    assert(tells(params, "session_id"@, told(params, "session_id"@)->Some_0));
}

/// `github.status` answers with the pull request as `gh` showed it, with no pull request where `gh`
/// said that there is none, or that the remote is not on GitHub.
pub proof fn law_status_answers_what_gh_said(
    params: JsonView,
    log: Seq<ReplyView>,
    answer: JsonView,
)
    requires
        next_step("github.status"@, params, log) == StepView::Finished(
            Ok::<JsonView, ErrorView>(answer),
        ),
    ensures
        look_shows(log, 1, answer),
{
    reveal(status_run);
    law_each_method_has_its_handler(params, log, 1);
    lemma_look(params, told(params, "session_id"@)->Some_0, log, 1);
}

/// `github.status` goes through all its steps where the programs succeed, or `gh` says that there
/// is no pull request: it asks for the remote and for the pull request, records what it found, and
/// answers with it.
#[verifier::rlimit(60)]
pub proof fn law_status_goes_through(
    params: JsonView,
    log: Seq<ReplyView>,
    session_id: Seq<char>,
    cwd: Seq<char>,
) -> (found: (JsonView, JsonView))
    requires
        tells(params, "session_id"@, session_id),
        opened(log, context_of(log)),
        tells(context_of(log), "working_tree_path"@, cwd),
        log.len() > 4 ==> log[4] == ReplyView::Cancelled(false),
        log.len() > 5 ==> (log[5] matches ReplyView::Output(result) && result is Ok),
    ensures
        ({
            let step = next_step("github.status"@, params, log);
            let remote = output_at(log, 4);
            let branch = told(context_of(log), "branch"@)->Some_0;
            let ready = log.len() > 5 && github_remote(remote) && tells(context_of(log), "branch"@, branch);
            let shown = parsed_text(output_at(log, 6));
            &&& log.len() == 4 ==> step == StepView::Ask(ActionView::CheckCancelled)
            &&& log.len() == 5 ==> (step matches StepView::Ask(action) && action is Run)
            &&& log.len() > 5 && !github_remote(remote) ==> step == StepView::Finished(
                Ok::<JsonView, ErrorView>(elsewhere_answer()),
            )
            &&& ready && log.len() == 6 ==> step == StepView::Ask(ActionView::CheckCancelled)
            &&& ready && log.len() == 7 && log[6] == ReplyView::Cancelled(false) ==> (step matches StepView::Ask(
                action,
            ) && action is Run)
            &&& ready && printed_at(log, 6, output_at(log, 6)) && shown is Ok && tells(
                shown->Ok_0,
                "url"@,
                told(shown->Ok_0, "url"@)->Some_0,
            ) && !blank(told(found.0, "state"@)->Some_0) && (log.len() > 8 ==> log[8] is Clock && settled(
                log,
                9,
            )) ==> {
                &&& pictures(found.0, shown->Ok_0)
                &&& log.len() == 8 ==> step == StepView::Ask(ActionView::ReadClock)
                &&& log.len() > 8 ==> mapped(
                    found.1,
                    session_id,
                    told(shown->Ok_0, "url"@)->Some_0,
                    told(found.0, "state"@)->Some_0,
                    Some(trimmed(remote)),
                    Some(branch),
                    log[8]->Clock_0,
                ) && settles(
                    step,
                    log,
                    9,
                    mapping_change(session_id, found.1),
                    found_answer(remote, found.0),
                )
            }
            &&& ready && log.len() > 7 && log[6] == ReplyView::Cancelled(false) && (log[7] matches ReplyView::Output(
                result,
            ) && (result matches Err(error) && says_none(error))) && settled(log, 8) ==> settles(
                step,
                log,
                8,
                mapping_change(session_id, JsonView::Null),
                found_answer(remote, JsonView::Null),
            )
        }),
{
    reveal(status_run);
    law_each_method_has_its_handler(params, log, 1);
    let remote = output_at(log, 4);
    let branch = told(context_of(log), "branch"@)->Some_0;
    let pr = parsed_text(output_at(log, 6))->Ok_0;
    let shown = projected_status(pr);
    lemma_pictures(pr);
    assert(applicable(remote, shown) == found_answer(remote, shown));
    assert(applicable(remote, JsonView::Null) == found_answer(remote, JsonView::Null));
    let recorded = if log.len() == 8 || log.len() > 8 && log[8] is Clock && settled(log, 9) {
        lemma_persist_settles(
            session_id,
            told(pr, "url"@)->Some_0,
            pull_request_state(pr),
            Some(trimmed(remote)),
            Some(branch),
            log,
            8,
            found_answer(remote, shown),
        )
    } else {
        JsonView::Null
    };
    if settled(log, 8) {
        lemma_settles(
            mapping_patch(session_id, JsonView::Null),
            log,
            8,
            found_answer(remote, JsonView::Null),
        );
        assert(mapping_patch(session_id, JsonView::Null) == mapping_change(session_id, JsonView::Null));
    }
    (shown, recorded)
}

/// The remote that `github.link` found out, with the check before `git` in the seventh place; there
/// is none where `git` failed or was not run.
pub open spec fn linked_remote(log: Seq<ReplyView>) -> Option<Seq<char>> {
    if printed_at(log, 6, output_at(log, 6)) {
        Some(trimmed(output_at(log, 6)))
    } else {
        None
    }
}

/// Where `github.link` has read the clock: behind `git`, or in its place where it was not run.
pub open spec fn linked_at(log: Seq<ReplyView>) -> int {
    if log[6] == ReplyView::Cancelled(true) {
        7
    } else {
        8
    }
}

/// The branch that `github.link` records: the one that the host names, where it names one.
pub open spec fn linked_branch(log: Seq<ReplyView>) -> Option<Seq<char>> {
    match told(context_of(log), "branch"@) {
        Some(branch) => if blank(branch) {
            None
        } else {
            Some(branch)
        },
        None => None,
    }
}

/// `github.link` asks `gh` for the pull request with the given URL, then `git` for the remote. It
/// runs nothing else.
pub proof fn law_links_run_two_programs(
    params: JsonView,
    log: Seq<ReplyView>,
    program: Program,
    cwd: Seq<char>,
    args: Seq<Seq<char>>,
)
    requires
        asks_to_run(next_step("github.link"@, params, log), program, cwd, args),
    ensures
        opened(log, context_of(log)),
        tells(context_of(log), "working_tree_path"@, cwd),
        told(params, "url"@) matches Some(url) && !blank(url) && {
            ||| log.len() == 5 && log[4] == ReplyView::Cancelled(false) && program is Gh && args == seq![
                "pr"@,
                "view"@,
                url,
                "--json"@,
                "url,state,isDraft"@,
            ]
            ||| log.len() == 7 && printed_at(log, 4, output_at(log, 4)) && log[6] == ReplyView::Cancelled(
                false,
            ) && program is Git && args == seq!["remote"@, "get-url"@, "origin"@]
        },
{
    law_each_method_has_its_handler(params, log, 1);
    let pr = parsed_text(output_at(log, 4))->Ok_0;
    lemma_pictures(pr);
    let session_id = told(params, "session_id"@)->Some_0;
    let url = told(pr, "url"@)->Some_0;
    let state = pull_request_state(pr);
    lemma_persist_runs_nothing(
        session_id,
        url,
        state,
        linked_remote(log),
        linked_branch(log),
        log,
        linked_at(log),
    );
}

/// `github.link` changes the settings only to map the pull request that `gh` showed to the session,
/// with the remote and the branch where they are known.
pub proof fn law_links_record_what_gh_showed(
    params: JsonView,
    log: Seq<ReplyView>,
    id: Seq<char>,
    call: JsonView,
    allow: bool,
)
    requires
        next_step("github.link"@, params, log) == StepView::Ask(
            ActionView::HostCall {
                id,
                method: "host.settings.patch"@,
                params: call,
                allow_cancelled: allow,
            },
        ),
    ensures
        opened(log, context_of(log)) && printed_at(log, 4, output_at(log, 4)) && !allow,
        log.len() > linked_at(log) && log[linked_at(log)] is Clock,
        parsed_text(output_at(log, 4)) is Ok,
        exists|session_id: Seq<char>, url: Seq<char>, state: Seq<char>, recorded: JsonView|
            {
                &&& tells(params, "session_id"@, session_id)
                &&& tells(parsed_text(output_at(log, 4))->Ok_0, "url"@, url)
                &&& in_state(parsed_text(output_at(log, 4))->Ok_0, state)
                &&& #[trigger] gives_mapping(log, linked_at(log) + 1, call, session_id, recorded)
                &&& #[trigger] mapped(
                    recorded,
                    session_id,
                    url,
                    state,
                    linked_remote(log),
                    linked_branch(log),
                    log[linked_at(log)]->Clock_0,
                )
            },
{
    law_each_method_has_its_handler(params, log, 1);
    lemma_host_methods();
    let pr = parsed_text(output_at(log, 4))->Ok_0;
    lemma_pictures(pr);
    let session_id = told(params, "session_id"@)->Some_0;
    let url = told(pr, "url"@)->Some_0;
    let state = pull_request_state(pr);
    let recorded = lemma_persist_calls(
        session_id,
        url,
        state,
        linked_remote(log),
        linked_branch(log),
        log,
        linked_at(log),
        id,
        call,
        allow,
    );
    assert(gives_mapping(log, linked_at(log) + 1, call, session_id, recorded));
    assert(in_state(pr, state));
}

/// `github.link` goes through all its steps where `gh` shows the pull request: it asks for the
/// remote, records the pull request, and answers with it as `gh` showed it.
#[verifier::rlimit(60)]
pub proof fn law_links_go_through(
    params: JsonView,
    log: Seq<ReplyView>,
    session_id: Seq<char>,
    url: Seq<char>,
    cwd: Seq<char>,
) -> (found: (JsonView, JsonView))
    requires
        tells(params, "session_id"@, session_id),
        tells(params, "url"@, url),
        opened(log, context_of(log)),
        tells(context_of(log), "working_tree_path"@, cwd),
        log.len() > 4 ==> log[4] == ReplyView::Cancelled(false),
        log.len() > 5 ==> (log[5] matches ReplyView::Output(result) && result is Ok) && parsed_text(
            output_at(log, 4),
        ) is Ok && tells(
            parsed_text(output_at(log, 4))->Ok_0,
            "url"@,
            told(parsed_text(output_at(log, 4))->Ok_0, "url"@)->Some_0,
        ),
        log.len() > 6 ==> log[6] is Cancelled,
        log.len() > 7 && log[6] == ReplyView::Cancelled(false) ==> log[7] is Output,
        log.len() > 6 && log.len() > linked_at(log) ==> log[linked_at(log)] is Clock && settled(
            log,
            linked_at(log) + 1,
        ),
    ensures
        ({
            let step = next_step("github.link"@, params, log);
            let pr = parsed_text(output_at(log, 4))->Ok_0;
            let state = told(found.0, "state"@)->Some_0;
            &&& log.len() == 4 ==> step == StepView::Ask(ActionView::CheckCancelled)
            &&& log.len() == 5 ==> (step matches StepView::Ask(action) && action is Run)
            &&& log.len() > 5 ==> pictures(found.0, pr)
            &&& log.len() > 5 && !blank(state) ==> {
                &&& log.len() == 6 ==> step == StepView::Ask(ActionView::CheckCancelled)
                &&& log.len() == 7 && log[6] == ReplyView::Cancelled(false) ==> (step matches StepView::Ask(
                    action,
                ) && action is Run)
                &&& log.len() > 6 && log.len() == linked_at(log) ==> step == StepView::Ask(
                    ActionView::ReadClock,
                )
                &&& log.len() > 6 && log.len() > linked_at(log) ==> mapped(
                    found.1,
                    session_id,
                    told(pr, "url"@)->Some_0,
                    state,
                    linked_remote(log),
                    linked_branch(log),
                    log[linked_at(log)]->Clock_0,
                ) && settles(
                    step,
                    log,
                    linked_at(log) + 1,
                    mapping_change(session_id, found.1),
                    single("pr"@, found.0),
                )
            }
        }),
{
    law_each_method_has_its_handler(params, log, 1);
    let pr = parsed_text(output_at(log, 4))->Ok_0;
    let shown = projected_status(pr);
    lemma_pictures(pr);
    let recorded = if log.len() > 6 && log.len() >= linked_at(log) {
        lemma_persist_settles(
            session_id,
            told(pr, "url"@)->Some_0,
            pull_request_state(pr),
            linked_remote(log),
            linked_branch(log),
            log,
            linked_at(log),
            single("pr"@, shown),
        )
    } else {
        JsonView::Null
    };
    (shown, recorded)
}

/// `github.link` ends where `gh` or a call to the host fails, with that error. Where `git` fails,
/// it goes on without the remote.
#[verifier::rlimit(60)]
pub proof fn law_links_end_where_something_fails(
    params: JsonView,
    log: Seq<ReplyView>,
    action: ActionView,
    reply: ReplyView,
    error: ErrorView,
)
    requires
        next_step("github.link"@, params, log) == StepView::Ask(action),
        failed_with(action, reply, error),
        action matches ActionView::Run { program, cwd, args } ==> program is Gh,
    ensures
        next_step("github.link"@, params, log.push(reply)) == StepView::Finished(
            Err::<JsonView, ErrorView>(error),
        ),
{
    let whole = log.push(reply);
    assert(forall|i: int| 0 <= i < log.len() ==> #[trigger] whole[i] == log[i]);
    law_each_method_has_its_handler(params, log, 1);
    law_each_method_has_its_handler(params, whole, 1);
    if let ActionView::Run { program, cwd, args } = action {
        law_links_run_two_programs(params, log, program, cwd, args);
    } else if log.len() > 6 {
        let pr = parsed_text(output_at(log, 4))->Ok_0;
        lemma_pictures(pr);
        lemma_persist_fails(
            told(params, "session_id"@)->Some_0,
            told(pr, "url"@)->Some_0,
            pull_request_state(pr),
            linked_remote(log),
            linked_branch(log),
            log,
            linked_at(log),
            action,
            error,
        );
    }
}

/// `github.status` ends where a program or a call to the host fails, with that error, but for an
/// error of `gh` that says that there is no pull request.
#[verifier::rlimit(60)]
pub proof fn law_status_ends_where_something_fails(
    params: JsonView,
    log: Seq<ReplyView>,
    action: ActionView,
    reply: ReplyView,
    error: ErrorView,
)
    requires
        next_step("github.status"@, params, log) == StepView::Ask(action),
        failed_with(action, reply, error),
        (action matches ActionView::Run { program, cwd, args } && program is Gh) ==> !says_none(error),
    ensures
        next_step("github.status"@, params, log.push(reply)) == StepView::Finished(
            Err::<JsonView, ErrorView>(error),
        ),
{
    let whole = log.push(reply);
    assert(forall|i: int| 0 <= i < log.len() ==> #[trigger] whole[i] == log[i]);
    law_each_method_has_its_handler(params, log, 1);
    law_each_method_has_its_handler(params, whole, 1);
    lemma_look_fails(params, log, 1, action, reply, error);
}

/// A look at the pull request of a session ends where a program or a call to the host fails, with
/// that error.
#[verifier::rlimit(60)]
pub(crate) proof fn lemma_look_fails(
    params: JsonView,
    log: Seq<ReplyView>,
    at: int,
    action: ActionView,
    reply: ReplyView,
    error: ErrorView,
)
    requires
        0 <= at <= log.len(),
        status_run(params, log, at).outcome == Err::<JsonView, HaltView>(HaltView::Ask(action)),
        failed_with(action, reply, error),
        (action matches ActionView::Run { program, cwd, args } && program is Gh) ==> !says_none(error),
    ensures
        status_run(params, log.push(reply), at).outcome == Err::<JsonView, HaltView>(
            HaltView::Fail(error),
        ),
{
    reveal(status_run);
    let whole = log.push(reply);
    assert(forall|i: int| 0 <= i < log.len() ==> #[trigger] whole[i] == log[i]);
    if action is Run {
        lemma_look(params, told(params, "session_id"@)->Some_0, log, at);
    } else if log.len() > at + 6 {
        let session_id = told(params, "session_id"@)->Some_0;
        let pr = parsed_text(output_at(log, at + 5))->Ok_0;
        lemma_pictures(pr);
        if log[at + 6]->Output_0 is Ok {
            lemma_persist_fails(
                session_id,
                told(pr, "url"@)->Some_0,
                pull_request_state(pr),
                Some(trimmed(output_at(log, at + 3))),
                Some(told(context_at(log, at), "branch"@)->Some_0),
                log,
                at + 7,
                action,
                error,
            );
        } else {
            lemma_patch_fails(mapping_patch(session_id, JsonView::Null), log, at + 7, action, error);
        }
    }
}

/// `github.status` shows a pull request as conflicting exactly if GitHub calls it `CONFLICTING` or
/// its merge state `DIRTY`: never one that is `MERGEABLE` and `CLEAN`, always one that is
/// `CONFLICTING`.
pub proof fn law_status_shows_conflicts(
    params: JsonView,
    log: Seq<ReplyView>,
    answer: JsonView,
    pr: JsonView,
)
    requires
        next_step("github.status"@, params, log) == StepView::Finished(
            Ok::<JsonView, ErrorView>(answer),
        ),
        printed_at(log, 6, output_at(log, 6)),
        parsed_text(output_at(log, 6)) == Ok::<JsonView, Seq<char>>(pr),
        github_remote(output_at(log, 4)),
    ensures
        member(answer, "pr"@) matches Some(shown) && {
            &&& holds(shown, "conflicting"@, JsonView::Bool(true)) <==> told(pr, "mergeable"@) == Some(
                "CONFLICTING"@,
            ) || told(pr, "mergeStateStatus"@) == Some("DIRTY"@)
            &&& told(pr, "mergeable"@) == Some("MERGEABLE"@) && told(pr, "mergeStateStatus"@) == Some(
                "CLEAN"@,
            ) ==> holds(shown, "conflicting"@, JsonView::Bool(false))
            &&& told(pr, "mergeable"@) == Some("CONFLICTING"@) ==> holds(
                shown,
                "conflicting"@,
                JsonView::Bool(true),
            )
        },
{
    law_status_answers_what_gh_said(params, log, answer);
    reveal_strlit("CONFLICTING");
    reveal_strlit("MERGEABLE");
    reveal_strlit("DIRTY");
    reveal_strlit("CLEAN");
    assert("CONFLICTING"@.len() == 11 && "MERGEABLE"@.len() == 9);
    assert("DIRTY"@[0] == 'D' && "CLEAN"@[0] == 'C');
    reveal_strlit("applicable");
    reveal_strlit("remote");
    reveal_strlit("pr");
    assert("applicable"@.len() == 10 && "remote"@.len() == 6 && "pr"@.len() == 2);
}

} // verus!
