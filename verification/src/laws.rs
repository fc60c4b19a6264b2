//! What holds of requests as a whole.

use vstd::prelude::*;
use crate::arguments::{create_args, merge_args, push_args, remote_args, view_args};
use crate::codec::parsed_text;
use crate::command::Program;
use crate::dispatch::{StepView, law_each_method_has_its_handler, method_run, next_step};
use crate::error::ErrorView;
use crate::exchange::{
    ActionView, HaltView, ReplyView, check_run, check_unless_run, clock_run, done, host_run,
    program_run, sequence_run,
};
use crate::github::{github_remote, merge_flag, no_pull_request, projected_status};
use crate::handlers::{
    applicable, checkout_run, context_directory, context_run, context_text, create_run, drafted,
    known_remote, link_request_run, merge_run, not_applicable, required, status_fields, status_run,
};
use crate::json::JsonView;
use crate::reconcile::attempt_name;
use crate::replay::{
    change_in_bounds, in_bounds, law_requests_stay_in_bounds, mapping_in_bounds, patch_in_bounds,
    records, tame_check, tame_check_unless, tame_checkout, tame_clock, tame_context, tame_ensure,
    tame_program, url_is_blank, writes,
};
use crate::settings::{ensure_run, ledger_patch, ledger_run, patch_run, persist_run, read_request};
use crate::state::{
    STATE_NAMESPACE, STATE_VERSION, begin_patch, bounded, document, empty_state, finish_patch,
    keeps_credentials, ledger_fault, lemma_mapping_says, mapping, mapping_fault, mapping_patch,
    patch_request, settings_value, state_fault, strict_text,
};
use crate::state_laws::{
    law_attempts_have_names_of_their_own, law_begun_attempts_keep_the_ledger,
    law_clearing_keeps_the_document, law_ended_attempts_keep_the_ledger,
    law_recording_keeps_the_document, patched,
};
use crate::text::{blank, trimmed};

verus! {

/// Whether a request asked for an action with the first `i` replies on record, and `reply` came
/// next.
pub open spec fn performed(
    method: Seq<char>,
    params: JsonView,
    log: Seq<ReplyView>,
    i: int,
    action: ActionView,
    reply: ReplyView,
) -> bool {
    &&& 0 <= i < log.len()
    &&& next_step(method, params, log.take(i)) == StepView::Ask(action)
    &&& log[i] == reply
}

/// The methods of the host have different names.
pub(crate) proof fn lemma_host_methods()
    ensures
        "host.settings.get"@ != "host.settings.patch"@,
        "host.settings.get"@ != "host.sessions.list"@,
        "host.settings.get"@ != "host.sessions.repositoryContext"@,
        "host.settings.patch"@ != "host.sessions.list"@,
        "host.settings.patch"@ != "host.sessions.repositoryContext"@,
        "host.sessions.list"@ != "host.sessions.repositoryContext"@,
{
    reveal_strlit("host.settings.get");
    reveal_strlit("host.settings.patch");
    reveal_strlit("host.sessions.list");
    reveal_strlit("host.sessions.repositoryContext");
    assert("host.settings.get"@.len() == 17);
    assert("host.settings.patch"@.len() == 19);
    assert("host.sessions.list"@.len() == 18);
    assert("host.sessions.repositoryContext"@.len() == 31);
}

proof fn lemma_patch_request(a: JsonView, b: JsonView)
    ensures
        patch_request(a) == patch_request(b) ==> a == b,
{
    let outer_a = patch_request(a)->Object_0;
    let outer_b = patch_request(b)->Object_0;
    let inner_a = outer_a["patch"@]->Object_0;
    let inner_b = outer_b["patch"@]->Object_0;
    assert(inner_a[STATE_NAMESPACE@] == a);
    assert(inner_b[STATE_NAMESPACE@] == b);
}

proof fn lemma_mapping_patch(session_id: Seq<char>, a: JsonView, other: Seq<char>, b: JsonView)
    ensures
        mapping_patch(session_id, a) != empty_state(),
        mapping_patch(session_id, a) == mapping_patch(other, b) ==> session_id == other && a == b,
{
    reveal_strlit("version");
    reveal_strlit("pull_requests");
    reveal_strlit("reconciliation");
    assert("version"@.len() == 7 && "pull_requests"@.len() == 13 && "reconciliation"@.len() == 14);
    let members = mapping_patch(session_id, a)->Object_0;
    assert(!members.contains_key("version"@));
    assert(empty_state()->Object_0.contains_key("version"@));
    if mapping_patch(session_id, a) == mapping_patch(other, b) {
        let others = mapping_patch(other, b)->Object_0;
        assert(members["pull_requests"@] == others["pull_requests"@]);
        let inner = members["pull_requests"@]->Object_0;
        let inner_other = others["pull_requests"@]->Object_0;
        assert(inner.contains_key(session_id));
        assert(inner_other.contains_key(session_id));
        assert(inner[session_id] == inner_other[session_id]);
    }
}

proof fn lemma_ledger_patch(change: JsonView, other: JsonView)
    ensures
        ledger_patch(change) != empty_state(),
        ledger_patch(change) == ledger_patch(other) ==> change == other,
{
    reveal_strlit("version");
    reveal_strlit("reconciliation");
    assert("version"@.len() == 7 && "reconciliation"@.len() == 14);
    assert(!ledger_patch(change)->Object_0.contains_key("version"@));
    assert(empty_state()->Object_0.contains_key("version"@));
    assert(ledger_patch(change)->Object_0["reconciliation"@] == change);
    assert(ledger_patch(other)->Object_0["reconciliation"@] == other);
}

/// A patch does not record a mapping and change the ledger at once.
proof fn lemma_patches_differ(session_id: Seq<char>, recorded: JsonView, change: JsonView)
    ensures
        mapping_patch(session_id, recorded) != ledger_patch(change),
{
    reveal_strlit("pull_requests");
    reveal_strlit("reconciliation");
    assert("pull_requests"@.len() == 13 && "reconciliation"@.len() == 14);
    assert(ledger_patch(change)->Object_0.contains_key("reconciliation"@));
    assert(!mapping_patch(session_id, recorded)->Object_0.contains_key("reconciliation"@));
}

/// A change of the ledger that is in bounds leaves it usable.
proof fn lemma_change_keeps_the_ledger(change: Map<Seq<char>, JsonView>, ledger: Map<Seq<char>, JsonView>)
    requires
        change_in_bounds(JsonView::Object(change)),
        ledger_fault(JsonView::Object(ledger)) is None,
        JsonView::Object(change).text_at("error"@) matches Some(error) ==> !blank(error),
    ensures
        ledger_fault(JsonView::Object(patched(ledger, change))) is None,
{
    if exists|seen: JsonView, started_at: u64, number: u64|
        change == #[trigger] begin_patch(seen, attempt_name(started_at, number), started_at)
            && ledger_fault(seen) is None {
        let (seen, started_at, number) = choose|seen: JsonView, started_at: u64, number: u64|
            change == #[trigger] begin_patch(seen, attempt_name(started_at, number), started_at)
                && ledger_fault(seen) is None;
        law_attempts_have_names_of_their_own(started_at, number, started_at, number);
        law_begun_attempts_keep_the_ledger(
            ledger,
            seen->Object_0,
            attempt_name(started_at, number),
            started_at,
        );
    } else if exists|checked: u64, finished_at: u64|
        change == #[trigger] finish_patch("idle"@, checked, finished_at, None) {
        let (checked, finished_at) = choose|checked: u64, finished_at: u64|
            change == #[trigger] finish_patch("idle"@, checked, finished_at, None);
        law_ended_attempts_keep_the_ledger(ledger, "idle"@, checked, finished_at, None, Seq::empty());
    } else {
        let (checked, finished_at, message) = choose|
            checked: u64,
            finished_at: u64,
            message: Seq<char>,
        | change == #[trigger] finish_patch("failed"@, checked, finished_at, Some(message));
        assert(change["error"@] == JsonView::Text(bounded(message)));
        law_ended_attempts_keep_the_ledger(
            ledger,
            "failed"@,
            checked,
            finished_at,
            Some(message),
            Seq::empty(),
        );
    }
}

/// A mapping that a request records is in bounds, but for the blank URL of a creation.
proof fn lemma_recorded(
    method: Seq<char>,
    params: JsonView,
    log: Seq<ReplyView>,
    action: ActionView,
    session_id: Seq<char>,
    recorded: JsonView,
)
    requires
        next_step(method, params, log) == StepView::Ask(action),
        records(action, session_id, recorded),
    ensures
        mapping_in_bounds(session_id, recorded) || (method == "github.create"@ && url_is_blank(recorded)
            && !keeps_credentials(recorded)),
{
    lemma_host_methods();
    law_requests_stay_in_bounds(method, params, log);
    let whole = mapping_patch(session_id, recorded);
    if in_bounds(action) {
        let patch = choose|patch: JsonView|
            patch_request(whole) == #[trigger] patch_request(patch) && patch_in_bounds(patch);
        lemma_patch_request(whole, patch);
        lemma_mapping_patch(session_id, recorded, session_id, recorded);
        if exists|change: JsonView| whole == #[trigger] ledger_patch(change) && change_in_bounds(change) {
            let change = choose|change: JsonView|
                whole == #[trigger] ledger_patch(change) && change_in_bounds(change);
            lemma_patches_differ(session_id, recorded, change);
        }
        let (other, kept) = choose|other: Seq<char>, kept: JsonView|
            whole == #[trigger] mapping_patch(other, kept) && mapping_in_bounds(other, kept);
        lemma_mapping_patch(session_id, recorded, other, kept);
    } else {
        let (other, kept) = choose|other: Seq<char>, kept: JsonView| #[trigger]
            records(action, other, kept) && url_is_blank(kept) && !keeps_credentials(kept);
        lemma_patch_request(whole, mapping_patch(other, kept));
        lemma_mapping_patch(session_id, recorded, other, kept);
    }
}

/// No request records the credentials in a remote with a mapping, whatever `git` and the host
/// say.
pub proof fn law_credentials_are_never_recorded(
    method: Seq<char>,
    params: JsonView,
    log: Seq<ReplyView>,
    action: ActionView,
    session_id: Seq<char>,
    recorded: JsonView,
)
    requires
        next_step(method, params, log) == StepView::Ask(action),
        records(action, session_id, recorded),
    ensures
        !keeps_credentials(recorded),
{
    lemma_recorded(method, params, log, action, session_id, recorded);
}

/// A mapping that a request records can be used. This leaves out a creation for which `gh` printed
/// a blank URL.
pub proof fn law_recorded_mappings_can_be_used(
    method: Seq<char>,
    params: JsonView,
    log: Seq<ReplyView>,
    action: ActionView,
    session_id: Seq<char>,
    recorded: JsonView,
)
    requires
        next_step(method, params, log) == StepView::Ask(action),
        records(action, session_id, recorded),
        !(method == "github.create"@ && url_is_blank(recorded)),
    ensures
        recorded is Null || mapping_fault(session_id, recorded) is None,
{
    lemma_recorded(method, params, log, action, session_id, recorded);
}

/// A request that records a mapping or takes one away leaves every document usable that can be
/// used. This leaves out a creation for which `gh` printed a blank URL.
pub proof fn law_requests_keep_the_document(
    method: Seq<char>,
    params: JsonView,
    log: Seq<ReplyView>,
    action: ActionView,
    session_id: Seq<char>,
    recorded: JsonView,
    mappings: Map<Seq<char>, JsonView>,
    ledger: JsonView,
)
    requires
        next_step(method, params, log) == StepView::Ask(action),
        records(action, session_id, recorded),
        !(method == "github.create"@ && url_is_blank(recorded)),
        mappings.dom().finite(),
        state_fault(document(JsonView::Object(mappings), ledger)) is None,
    ensures
        ({
            let after = if recorded is Null {
                mappings.remove(session_id)
            } else {
                patched(mappings, map![session_id => recorded])
            };
            state_fault(document(JsonView::Object(after), ledger)) is None
        }),
{
    law_recorded_mappings_can_be_used(method, params, log, action, session_id, recorded);
    if recorded is Null {
        law_clearing_keeps_the_document(mappings, ledger, session_id);
    } else {
        law_recording_keeps_the_document(mappings, ledger, session_id, recorded);
    }
}

/// A change of the ledger that a request asks for starts an attempt of its own or ends one, and
/// nothing else.
pub proof fn law_requests_start_and_end_attempts(
    method: Seq<char>,
    params: JsonView,
    log: Seq<ReplyView>,
    action: ActionView,
    change: JsonView,
)
    requires
        next_step(method, params, log) == StepView::Ask(action),
        writes(action, ledger_patch(change)),
    ensures
        change_in_bounds(change),
{
    lemma_host_methods();
    law_requests_stay_in_bounds(method, params, log);
    let whole = ledger_patch(change);
    if in_bounds(action) {
        let patch = choose|patch: JsonView|
            patch_request(whole) == #[trigger] patch_request(patch) && patch_in_bounds(patch);
        lemma_patch_request(whole, patch);
        lemma_ledger_patch(change, change);
        if exists|session_id: Seq<char>, recorded: JsonView|
            whole == #[trigger] mapping_patch(session_id, recorded) && mapping_in_bounds(
                session_id,
                recorded,
            ) {
            let (session_id, recorded) = choose|session_id: Seq<char>, recorded: JsonView|
                whole == #[trigger] mapping_patch(session_id, recorded) && mapping_in_bounds(
                    session_id,
                    recorded,
                );
            lemma_patches_differ(session_id, recorded, change);
        }
        let other = choose|other: JsonView|
            whole == #[trigger] ledger_patch(other) && change_in_bounds(other);
        lemma_ledger_patch(change, other);
    } else {
        let (session_id, recorded) = choose|session_id: Seq<char>, recorded: JsonView| #[trigger]
            records(action, session_id, recorded) && url_is_blank(recorded) && !keeps_credentials(recorded);
        lemma_patch_request(whole, mapping_patch(session_id, recorded));
        lemma_patches_differ(session_id, recorded, change);
    }
}

/// A change of the ledger that a request asks for leaves every ledger usable that can be used. This
/// leaves out an attempt that failed with an error of which nothing but white space is kept.
pub proof fn law_requests_keep_the_ledger(
    method: Seq<char>,
    params: JsonView,
    log: Seq<ReplyView>,
    action: ActionView,
    change: Map<Seq<char>, JsonView>,
    ledger: Map<Seq<char>, JsonView>,
)
    requires
        next_step(method, params, log) == StepView::Ask(action),
        writes(action, ledger_patch(JsonView::Object(change))),
        ledger_fault(JsonView::Object(ledger)) is None,
        JsonView::Object(change).text_at("error"@) matches Some(error) ==> !blank(error),
    ensures
        ledger_fault(JsonView::Object(patched(ledger, change))) is None,
{
    law_requests_start_and_end_attempts(method, params, log, action, JsonView::Object(change));
    lemma_change_keeps_the_ledger(change, ledger);
}

/// A part that patches the document asks for no other mapping than the one in its patch.
proof fn lemma_patch_asks(
    patch: JsonView,
    allow: bool,
    log: Seq<ReplyView>,
    at: int,
    action: ActionView,
    session_id: Seq<char>,
    recorded: JsonView,
)
    requires
        patch_run(patch, allow, log, at).outcome == Err::<(), HaltView>(HaltView::Ask(action)),
        records(action, session_id, recorded),
    ensures
        patch == mapping_patch(session_id, recorded),
{
    reveal(patch_run);
    reveal(ensure_run);
    lemma_host_methods();
    lemma_mapping_patch(session_id, recorded, session_id, recorded);
    let checked = check_unless_run(allow, log, at);
    if checked.outcome is Ok {
        let ensured = ensure_run(allow, log, checked.at);
        if ensured.outcome is Ok {
            lemma_patch_request(patch, mapping_patch(session_id, recorded));
        } else {
            lemma_patch_request(empty_state(), mapping_patch(session_id, recorded));
        }
    }
}

/// A part that records a mapping records the one that it was given.
proof fn lemma_persist_asks(
    session_id: Seq<char>,
    url: Seq<char>,
    state: Seq<char>,
    remote: Option<Seq<char>>,
    branch: Option<Seq<char>>,
    log: Seq<ReplyView>,
    at: int,
    action: ActionView,
    other: Seq<char>,
    recorded: JsonView,
) -> (now: u64)
    requires
        persist_run(session_id, url, state, remote, branch, log, at).outcome == Err::<(), HaltView>(
            HaltView::Ask(action),
        ),
        records(action, other, recorded),
    ensures
        other == session_id,
        recorded == mapping(session_id, url, state, remote, branch, now),
{
    let clock = clock_run(log, at);
    let now = clock.outcome->Ok_0;
    let whole = mapping(session_id, url, state, remote, branch, now);
    lemma_patch_asks(
        mapping_patch(session_id, whole),
        false,
        log,
        clock.at,
        action,
        other,
        recorded,
    );
    lemma_mapping_patch(session_id, whole, other, recorded);
    now
}

/// A program that came to something was asked for, and its reply is on record.
proof fn lemma_program_reply(
    program: Program,
    cwd: Seq<char>,
    args: Seq<Seq<char>>,
    log: Seq<ReplyView>,
    at: int,
) -> (i: int)
    requires
        0 <= at <= log.len(),
        program_run(program, cwd, args, log, at).outcome matches Err(halt) ==> halt matches HaltView::Fail(
            error,
        ) && error is Message,
    ensures
        at <= i < log.len(),
        i + 1 == program_run(program, cwd, args, log, at).at,
        log[i] == ReplyView::Output(
            match program_run(program, cwd, args, log, at).outcome {
                Ok(output) => Ok(output),
                Err(halt) => Err(halt->Fail_0),
            },
        ),
        program_run(program, cwd, args, log.take(i), at).outcome == Err::<Seq<char>, HaltView>(
            HaltView::Ask(ActionView::Run { program, cwd, args }),
        ),
{
    let checked = check_run(log, at);
    tame_check(log, at, log.len() as int);
    let i = checked.at;
    tame_check(log, at, i);
    i
}

/// `github.merge` records a pull request as merged only once `gh pr merge` has succeeded.
pub proof fn law_merges_are_recorded_once_merged(
    params: JsonView,
    log: Seq<ReplyView>,
    action: ActionView,
    session_id: Seq<char>,
    recorded: JsonView,
)
    requires
        next_step("github.merge"@, params, log) == StepView::Ask(action),
        records(action, session_id, recorded),
    ensures
        required(params, "session_id"@) == Ok::<Seq<char>, ErrorView>(session_id),
        recorded.text_at("state"@) == Some("merged"@),
        exists|i: int, cwd: Seq<char>, branch: Seq<char>, flag: Seq<char>, output: Seq<char>|
            #[trigger] performed(
                "github.merge"@,
                params,
                log,
                i,
                ActionView::Run { program: Program::Gh, cwd, args: merge_args(branch, flag) },
                ReplyView::Output(Ok(output)),
            ),
{
    lemma_host_methods();
    lemma_handlers(params);
    let end = log.len() as int;
    let checked = check_run(log, 0);
    tame_check(log, 0, end);
    let place = checkout_run(params, log, checked.at);
    tame_checkout(params, log, checked.at, end);
    assert(place.outcome is Ok);
    let found = place.outcome->Ok_0;
    let flag = merge_flag(params.text_at("strategy"@))->Ok_0;
    let seen = view_args(found.branch, "url"@);
    let view = program_run(Program::Gh, found.cwd, seen, log, place.at);
    tame_program(Program::Gh, found.cwd, seen, log, place.at, end);
    let pr = parsed_text(view.outcome->Ok_0)->Ok_0;
    let url = strict_text(pr.field("url"@))->Some_0;
    let shown = program_run(Program::Git, found.cwd, remote_args(), log, view.at);
    tame_program(Program::Git, found.cwd, remote_args(), log, view.at, end);
    let args = merge_args(found.branch, flag);
    let merge = program_run(Program::Gh, found.cwd, args, log, shown.at);
    assert(merge.outcome is Ok);
    let i = lemma_program_reply(Program::Gh, found.cwd, args, log, shown.at);
    tame_check(log, 0, i);
    tame_checkout(params, log, checked.at, i);
    tame_program(Program::Gh, found.cwd, seen, log, place.at, i);
    tame_program(Program::Git, found.cwd, remote_args(), log, view.at, i);
    assert(performed(
        "github.merge"@,
        params,
        log,
        i,
        ActionView::Run { program: Program::Gh, cwd: found.cwd, args },
        ReplyView::Output(Ok(merge.outcome->Ok_0)),
    ));
    let session = required(params, "session_id"@)->Ok_0;
    let remote = Some(trimmed(shown.outcome->Ok_0));
    let now = lemma_persist_asks(
        session,
        url,
        "merged"@,
        remote,
        Some(found.branch),
        log,
        merge.at,
        action,
        session_id,
        recorded,
    );
    lemma_mapping_says(session, url, "merged"@, remote, Some(found.branch), now);
}

/// Each method is served by a handler of its own, wherever the request stands.
proof fn lemma_handlers(params: JsonView)
    ensures
        forall|log: Seq<ReplyView>, at: int| #[trigger]
            method_run("github.status"@, params, log, at) == status_run(params, log, at),
        forall|log: Seq<ReplyView>, at: int| #[trigger]
            method_run("github.create"@, params, log, at) == create_run(params, log, at),
        forall|log: Seq<ReplyView>, at: int| #[trigger]
            method_run("github.link"@, params, log, at) == link_request_run(params, log, at),
        forall|log: Seq<ReplyView>, at: int| #[trigger]
            method_run("github.merge"@, params, log, at) == merge_run(params, log, at),
{
    assert forall|log: Seq<ReplyView>, at: int| #[trigger]
        method_run("github.status"@, params, log, at) == status_run(params, log, at) by {
        law_each_method_has_its_handler(params, log, at);
    }
    assert forall|log: Seq<ReplyView>, at: int| #[trigger]
        method_run("github.create"@, params, log, at) == create_run(params, log, at) by {
        law_each_method_has_its_handler(params, log, at);
    }
    assert forall|log: Seq<ReplyView>, at: int| #[trigger]
        method_run("github.link"@, params, log, at) == link_request_run(params, log, at) by {
        law_each_method_has_its_handler(params, log, at);
    }
    assert forall|log: Seq<ReplyView>, at: int| #[trigger]
        method_run("github.merge"@, params, log, at) == merge_run(params, log, at) by {
        law_each_method_has_its_handler(params, log, at);
    }
}

/// `github.create` records a pull request only once `gh pr create` has succeeded, with the URL
/// that it printed.
pub proof fn law_creations_are_recorded_once_created(
    params: JsonView,
    log: Seq<ReplyView>,
    action: ActionView,
    session_id: Seq<char>,
    recorded: JsonView,
)
    requires
        next_step("github.create"@, params, log) == StepView::Ask(action),
        records(action, session_id, recorded),
    ensures
        required(params, "session_id"@) == Ok::<Seq<char>, ErrorView>(session_id),
        exists|i: int, cwd: Seq<char>, args: Seq<Seq<char>>, printed_url: Seq<char>|
            {
                &&& #[trigger] performed(
                    "github.create"@,
                    params,
                    log,
                    i,
                    ActionView::Run { program: Program::Gh, cwd, args },
                    ReplyView::Output(Ok(printed_url)),
                )
                &&& creates(params, args)
                &&& recorded.text_at("url"@) == Some(trimmed(printed_url))
            },
{
    lemma_host_methods();
    lemma_handlers(params);
    let end = log.len() as int;
    let checked = check_run(log, 0);
    tame_check(log, 0, end);
    let place = checkout_run(params, log, checked.at);
    tame_checkout(params, log, checked.at, end);
    let found = place.outcome->Ok_0;
    let draft = drafted(params)->Ok_0;
    let push = program_run(Program::Git, found.cwd, push_args(found.branch), log, place.at);
    tame_program(Program::Git, found.cwd, push_args(found.branch), log, place.at, end);
    let args = create_args(draft.title, draft.body, draft.base, draft.draft);
    let create = program_run(Program::Gh, found.cwd, args, log, push.at);
    assert(create.outcome is Ok);
    tame_program(Program::Gh, found.cwd, args, log, push.at, end);
    let i = lemma_program_reply(Program::Gh, found.cwd, args, log, push.at);
    tame_check(log, 0, i);
    tame_checkout(params, log, checked.at, i);
    tame_program(Program::Git, found.cwd, push_args(found.branch), log, place.at, i);
    let printed_url = create.outcome->Ok_0;
    assert(performed(
        "github.create"@,
        params,
        log,
        i,
        ActionView::Run { program: Program::Gh, cwd: found.cwd, args },
        ReplyView::Output(Ok(printed_url)),
    ));
    let shown = program_run(Program::Git, found.cwd, remote_args(), log, create.at);
    let session = required(params, "session_id"@)->Ok_0;
    let remote = Some(trimmed(shown.outcome->Ok_0));
    let state = if draft.draft {
        "draft"@
    } else {
        "open"@
    };
    let now = lemma_persist_asks(
        session,
        trimmed(printed_url),
        state,
        remote,
        Some(found.branch),
        log,
        shown.at,
        action,
        session_id,
        recorded,
    );
    lemma_mapping_says(session, trimmed(printed_url), state, remote, Some(found.branch), now);
}

/// Whether arguments create the pull request that the parameters describe.
pub open spec fn creates(params: JsonView, args: Seq<Seq<char>>) -> bool {
    drafted(params) matches Ok(draft) && args == create_args(
        draft.title,
        draft.body,
        draft.base,
        draft.draft,
    )
}

/// `github.link` records a pull request only once `gh` has shown the one with the given URL, under
/// the URL that `gh` knows it by.
pub proof fn law_links_are_recorded_once_found(
    params: JsonView,
    log: Seq<ReplyView>,
    action: ActionView,
    session_id: Seq<char>,
    recorded: JsonView,
)
    requires
        next_step("github.link"@, params, log) == StepView::Ask(action),
        records(action, session_id, recorded),
    ensures
        required(params, "session_id"@) == Ok::<Seq<char>, ErrorView>(session_id),
        exists|i: int, cwd: Seq<char>, url: Seq<char>, raw: Seq<char>|
            {
                &&& #[trigger] performed(
                    "github.link"@,
                    params,
                    log,
                    i,
                    ActionView::Run {
                        program: Program::Gh,
                        cwd,
                        args: view_args(url, "url,state,isDraft"@),
                    },
                    ReplyView::Output(Ok(raw)),
                )
                &&& required(params, "url"@) == Ok::<Seq<char>, ErrorView>(url)
                &&& shows(raw, recorded)
            },
{
    lemma_host_methods();
    lemma_handlers(params);
    let end = log.len() as int;
    let checked = check_run(log, 0);
    tame_check(log, 0, end);
    let context = context_run(params, log, checked.at);
    tame_context(params, log, checked.at, end);
    let repository = context.outcome->Ok_0;
    let cwd = context_directory(repository)->Ok_0;
    let url = required(params, "url"@)->Ok_0;
    let args = view_args(url, "url,state,isDraft"@);
    let view = program_run(Program::Gh, cwd, args, log, context.at);
    assert(view.outcome is Ok);
    tame_program(Program::Gh, cwd, args, log, context.at, end);
    let i = lemma_program_reply(Program::Gh, cwd, args, log, context.at);
    tame_check(log, 0, i);
    tame_context(params, log, checked.at, i);
    let raw = view.outcome->Ok_0;
    assert(performed(
        "github.link"@,
        params,
        log,
        i,
        ActionView::Run { program: Program::Gh, cwd, args },
        ReplyView::Output(Ok(raw)),
    ));
    let pr = parsed_text(raw)->Ok_0;
    let pr_url = strict_text(projected_status(pr).field("url"@))->Some_0;
    let state = strict_text(projected_status(pr).field("state"@))->Some_0;
    let shown = program_run(Program::Git, cwd, remote_args(), log, view.at);
    let remote = match shown.outcome {
        Ok(remote) => known_remote(Ok(remote)),
        Err(halt) => known_remote(Err(halt->Fail_0)),
    };
    let branch = strict_text(repository.field("branch"@));
    let session = required(params, "session_id"@)->Ok_0;
    let now = lemma_persist_asks(
        session,
        pr_url,
        state,
        remote,
        branch,
        log,
        shown.at,
        action,
        session_id,
        recorded,
    );
    lemma_mapping_says(session, pr_url, state, remote, branch, now);
}

/// Whether a mapping has the URL and the state of the pull request that `gh` showed.
pub open spec fn shows(raw: Seq<char>, recorded: JsonView) -> bool {
    &&& parsed_text(raw) matches Ok(pr)
    &&& recorded.text_at("url"@) == strict_text(projected_status(pr).field("url"@))
    &&& recorded.text_at("state"@) == strict_text(projected_status(pr).field("state"@))
    &&& recorded.text_at("url"@) is Some
    &&& recorded.text_at("state"@) is Some
}

/// `github.status` records the pull request of the branch only once `gh` has shown it, and takes
/// the mapping of the session away only once `gh` has said that there is none.
pub proof fn law_status_records_what_was_found(
    params: JsonView,
    log: Seq<ReplyView>,
    action: ActionView,
    session_id: Seq<char>,
    recorded: JsonView,
)
    requires
        next_step("github.status"@, params, log) == StepView::Ask(action),
        records(action, session_id, recorded),
    ensures
        required(params, "session_id"@) == Ok::<Seq<char>, ErrorView>(session_id),
        exists|i: int, cwd: Seq<char>, branch: Seq<char>, reply: Result<Seq<char>, ErrorView>|
            {
                &&& #[trigger] performed(
                    "github.status"@,
                    params,
                    log,
                    i,
                    ActionView::Run {
                        program: Program::Gh,
                        cwd,
                        args: view_args(branch, status_fields()),
                    },
                    ReplyView::Output(reply),
                )
                &&& match reply {
                    Ok(raw) => shows(raw, recorded),
                    Err(error) => recorded is Null && (error matches ErrorView::Message(message)
                        && no_pull_request(message)),
                }
            },
{
    reveal(status_run);
    lemma_host_methods();
    lemma_handlers(params);
    let end = log.len() as int;
    let checked = check_run(log, 0);
    tame_check(log, 0, end);
    let context = context_run(params, log, checked.at);
    tame_context(params, log, checked.at, end);
    let repository = context.outcome->Ok_0;
    let cwd = context_directory(repository)->Ok_0;
    let shown = program_run(Program::Git, cwd, remote_args(), log, context.at);
    tame_program(Program::Git, cwd, remote_args(), log, context.at, end);
    let remote = shown.outcome->Ok_0;
    let branch = context_text(repository, "branch"@)->Ok_0;
    let args = view_args(branch, status_fields());
    let view = program_run(Program::Gh, cwd, args, log, shown.at);
    tame_program(Program::Gh, cwd, args, log, shown.at, end);
    let i = lemma_program_reply(Program::Gh, cwd, args, log, shown.at);
    tame_check(log, 0, i);
    tame_context(params, log, checked.at, i);
    tame_program(Program::Git, cwd, remote_args(), log, context.at, i);
    let session = required(params, "session_id"@)->Ok_0;
    match view.outcome {
        Ok(raw) => {
            assert(performed(
                "github.status"@,
                params,
                log,
                i,
                ActionView::Run { program: Program::Gh, cwd, args },
                ReplyView::Output(Ok(raw)),
            ));
            let pr = parsed_text(raw)->Ok_0;
            let url = strict_text(projected_status(pr).field("url"@))->Some_0;
            let state = strict_text(projected_status(pr).field("state"@))->Some_0;
            let now = lemma_persist_asks(
                session,
                url,
                state,
                Some(trimmed(remote)),
                Some(branch),
                log,
                view.at,
                action,
                session_id,
                recorded,
            );
            lemma_mapping_says(session, url, state, Some(trimmed(remote)), Some(branch), now);
        },
        Err(halt) => {
            assert(performed(
                "github.status"@,
                params,
                log,
                i,
                ActionView::Run { program: Program::Gh, cwd, args },
                ReplyView::Output(Err(halt->Fail_0)),
            ));
            lemma_patch_asks(
                mapping_patch(session, JsonView::Null),
                false,
                log,
                view.at,
                action,
                session_id,
                recorded,
            );
            lemma_mapping_patch(session, JsonView::Null, session_id, recorded);
        },
    }
}

/// `github.status` answers at once where the remote of the session is not on GitHub: it runs no
/// `gh` and changes no settings.
pub proof fn law_status_ends_where_github_does_not_apply(
    params: JsonView,
    log: Seq<ReplyView>,
    i: int,
    cwd: Seq<char>,
    remote: Seq<char>,
)
    requires
        performed(
            "github.status"@,
            params,
            log,
            i,
            ActionView::Run { program: Program::Git, cwd, args: remote_args() },
            ReplyView::Output(Ok(remote)),
        ),
        !github_remote(remote),
    ensures
        next_step("github.status"@, params, log) == StepView::Finished(
            Ok::<JsonView, ErrorView>(not_applicable()),
        ),
{
    reveal(status_run);
    lemma_handlers(params);
    let early = log.take(i);
    let checked = check_run(early, 0);
    tame_check(log, 0, i);
    let context = context_run(params, early, checked.at);
    tame_context(params, log, checked.at, i);
    let repository = context.outcome->Ok_0;
    let directory = context_directory(repository)->Ok_0;
    let shown = program_run(Program::Git, directory, remote_args(), early, context.at);
    tame_program(Program::Git, directory, remote_args(), log, context.at, i);
    tame_check(log, context.at, i);
    lemma_patches_run_nothing(early);
    assert(shown.outcome is Err);
}

/// Patching the document runs no program.
proof fn lemma_patches_run_nothing(log: Seq<ReplyView>)
    ensures
        forall|patch: JsonView, allow: bool, at: int|
            (#[trigger] patch_run(patch, allow, log, at)).outcome matches Err(HaltView::Ask(action)) ==> !(
            action is Run),
{
    reveal(patch_run);
    reveal(ensure_run);
}

/// Whether the host confirmed that it changed the settings.
pub open spec fn confirmed(reply: ReplyView) -> bool {
    reply matches ReplyView::Host(result) && (result matches Ok(response) && response.bool_at("updated"@)
        == Some(true))
}

/// Whether a request asked for a patch of the document, and the host confirmed it.
pub open spec fn written(
    method: Seq<char>,
    params: JsonView,
    log: Seq<ReplyView>,
    i: int,
    patch: JsonView,
) -> bool {
    &&& 0 <= i < log.len()
    &&& next_step(method, params, log.take(i)) matches StepView::Ask(action) && writes(action, patch)
    &&& confirmed(log[i])
}

/// A part that has patched the document has the host's word for it.
pub(crate) proof fn lemma_patch_confirmed(
    patch: JsonView,
    allow: bool,
    log: Seq<ReplyView>,
    at: int,
) -> (i: int)
    requires
        0 <= at <= log.len(),
        patch_run(patch, allow, log, at).outcome is Ok,
    ensures
        at <= i < log.len(),
        i + 1 == patch_run(patch, allow, log, at).at,
        confirmed(log[i]),
        patch_run(patch, allow, log.take(i), at).outcome matches Err(HaltView::Ask(action)) && writes(
            action,
            patch,
        ),
{
    reveal(patch_run);
    let end = log.len() as int;
    let checked = check_unless_run(allow, log, at);
    tame_check_unless(allow, log, at, end);
    let ensured = ensure_run(allow, log, checked.at);
    tame_ensure(allow, log, checked.at, end);
    let again = check_unless_run(allow, log, ensured.at);
    tame_check_unless(allow, log, ensured.at, end);
    let number = sequence_run(log, again.at);
    let i = number.at;
    tame_check_unless(allow, log, at, i);
    tame_ensure(allow, log, checked.at, i);
    tame_check_unless(allow, log, ensured.at, i);
    i
}

/// A part that has recorded a mapping has the host's word for it.
proof fn lemma_persist_confirmed(
    session_id: Seq<char>,
    url: Seq<char>,
    state: Seq<char>,
    remote: Option<Seq<char>>,
    branch: Option<Seq<char>>,
    log: Seq<ReplyView>,
    at: int,
) -> (found: (int, u64))
    requires
        0 <= at <= log.len(),
        persist_run(session_id, url, state, remote, branch, log, at).outcome is Ok,
    ensures
        at <= found.0 < log.len(),
        confirmed(log[found.0]),
        persist_run(session_id, url, state, remote, branch, log.take(found.0), at).outcome matches Err(
            HaltView::Ask(action),
        ) && writes(
            action,
            mapping_patch(session_id, mapping(session_id, url, state, remote, branch, found.1)),
        ),
{
    let clock = clock_run(log, at);
    tame_clock(log, at, log.len() as int);
    let now = clock.outcome->Ok_0;
    let patch = mapping_patch(session_id, mapping(session_id, url, state, remote, branch, now));
    let i = lemma_patch_confirmed(patch, false, log, clock.at);
    tame_clock(log, at, i);
    (i, now)
}

/// `github.status` shows a pull request only once the host has confirmed that it is recorded for
/// the session, and shows that there is none only once the host has confirmed that the session has
/// lost its mapping.
pub proof fn law_status_shows_what_is_recorded(
    params: JsonView,
    log: Seq<ReplyView>,
    shown: JsonView,
)
    requires
        next_step("github.status"@, params, log) == StepView::Finished(Ok::<JsonView, ErrorView>(shown)),
        shown != not_applicable(),
    ensures
        exists|i: int, session_id: Seq<char>, recorded: JsonView|
            {
                &&& required(params, "session_id"@) == Ok::<Seq<char>, ErrorView>(session_id)
                &&& #[trigger] written(
                    "github.status"@,
                    params,
                    log,
                    i,
                    mapping_patch(session_id, recorded),
                )
                &&& if shown.field("pr"@) == Some(JsonView::Null) {
                    recorded is Null
                } else {
                    shown_as(shown.field_or_null("pr"@), recorded)
                }
            },
{
    reveal(status_run);
    lemma_handlers(params);
    let end = log.len() as int;
    let checked = check_run(log, 0);
    tame_check(log, 0, end);
    let context = context_run(params, log, checked.at);
    tame_context(params, log, checked.at, end);
    let repository = context.outcome->Ok_0;
    let cwd = context_directory(repository)->Ok_0;
    let git = program_run(Program::Git, cwd, remote_args(), log, context.at);
    tame_program(Program::Git, cwd, remote_args(), log, context.at, end);
    let remote = git.outcome->Ok_0;
    let branch = context_text(repository, "branch"@)->Ok_0;
    let args = view_args(branch, status_fields());
    let view = program_run(Program::Gh, cwd, args, log, git.at);
    tame_program(Program::Gh, cwd, args, log, git.at, end);
    let session_id = required(params, "session_id"@)->Ok_0;
    match view.outcome {
        Ok(raw) => {
            let pr = parsed_text(raw)->Ok_0;
            let url = strict_text(projected_status(pr).field("url"@))->Some_0;
            let state = strict_text(projected_status(pr).field("state"@))->Some_0;
            let at = Some(trimmed(remote));
            let (i, now) = lemma_persist_confirmed(session_id, url, state, at, Some(branch), log, view.at);
            tame_check(log, 0, i);
            tame_context(params, log, checked.at, i);
            tame_program(Program::Git, cwd, remote_args(), log, context.at, i);
            tame_program(Program::Gh, cwd, args, log, git.at, i);
            let recorded = mapping(session_id, url, state, at, Some(branch), now);
            lemma_mapping_says(session_id, url, state, at, Some(branch), now);
            lemma_answer(remote, projected_status(pr));
            assert(written("github.status"@, params, log, i, mapping_patch(session_id, recorded)));
        },
        Err(_) => {
            let patch = mapping_patch(session_id, JsonView::Null);
            let i = lemma_patch_confirmed(patch, false, log, view.at);
            tame_check(log, 0, i);
            tame_context(params, log, checked.at, i);
            tame_program(Program::Git, cwd, remote_args(), log, context.at, i);
            tame_program(Program::Gh, cwd, args, log, git.at, i);
            lemma_answer(remote, JsonView::Null);
            assert(written("github.status"@, params, log, i, patch));
        },
    }
}

/// Whether a mapping has the URL and the state of a pull request that is shown.
pub open spec fn shown_as(pr: JsonView, recorded: JsonView) -> bool {
    &&& recorded.text_at("url"@) is Some
    &&& recorded.text_at("url"@) == pr.text_at("url"@)
    &&& recorded.text_at("state"@) is Some
    &&& recorded.text_at("state"@) == pr.text_at("state"@)
}

proof fn lemma_answer(remote: Seq<char>, pr: JsonView)
    ensures
        applicable(remote, pr).field("pr"@) == Some(pr),
{
    reveal_strlit("applicable");
    reveal_strlit("remote");
    reveal_strlit("pr");
    assert("applicable"@.len() == 10 && "remote"@.len() == 6 && "pr"@.len() == 2);
}

/// `github.create` succeeds only once the host has confirmed that the pull request is recorded
/// for the session, under the URL that is answered.
pub proof fn law_creations_are_recorded(params: JsonView, log: Seq<ReplyView>, shown: JsonView)
    requires
        next_step("github.create"@, params, log) == StepView::Finished(Ok::<JsonView, ErrorView>(shown)),
    ensures
        exists|i: int, session_id: Seq<char>, recorded: JsonView|
            {
                &&& required(params, "session_id"@) == Ok::<Seq<char>, ErrorView>(session_id)
                &&& #[trigger] written(
                    "github.create"@,
                    params,
                    log,
                    i,
                    mapping_patch(session_id, recorded),
                )
                &&& recorded.text_at("url"@) == shown.text_at("url"@)
            },
{
    lemma_handlers(params);
    let end = log.len() as int;
    let checked = check_run(log, 0);
    tame_check(log, 0, end);
    let place = checkout_run(params, log, checked.at);
    tame_checkout(params, log, checked.at, end);
    let found = place.outcome->Ok_0;
    let draft = drafted(params)->Ok_0;
    let pushed = push_args(found.branch);
    let push = program_run(Program::Git, found.cwd, pushed, log, place.at);
    tame_program(Program::Git, found.cwd, pushed, log, place.at, end);
    let args = create_args(draft.title, draft.body, draft.base, draft.draft);
    let create = program_run(Program::Gh, found.cwd, args, log, push.at);
    tame_program(Program::Gh, found.cwd, args, log, push.at, end);
    let git = program_run(Program::Git, found.cwd, remote_args(), log, create.at);
    tame_program(Program::Git, found.cwd, remote_args(), log, create.at, end);
    let session_id = required(params, "session_id"@)->Ok_0;
    let url = trimmed(create.outcome->Ok_0);
    let state = if draft.draft {
        "draft"@
    } else {
        "open"@
    };
    let remote = Some(trimmed(git.outcome->Ok_0));
    let branch = Some(found.branch);
    let (i, now) = lemma_persist_confirmed(session_id, url, state, remote, branch, log, git.at);
    tame_check(log, 0, i);
    tame_checkout(params, log, checked.at, i);
    tame_program(Program::Git, found.cwd, pushed, log, place.at, i);
    tame_program(Program::Gh, found.cwd, args, log, push.at, i);
    tame_program(Program::Git, found.cwd, remote_args(), log, create.at, i);
    lemma_mapping_says(session_id, url, state, remote, branch, now);
    let recorded = mapping(session_id, url, state, remote, branch, now);
    assert(written("github.create"@, params, log, i, mapping_patch(session_id, recorded)));
}

/// `github.link` succeeds only once the host has confirmed that the pull request that is shown is
/// recorded for the session.
pub proof fn law_links_are_recorded(params: JsonView, log: Seq<ReplyView>, shown: JsonView)
    requires
        next_step("github.link"@, params, log) == StepView::Finished(Ok::<JsonView, ErrorView>(shown)),
    ensures
        exists|i: int, session_id: Seq<char>, recorded: JsonView|
            {
                &&& required(params, "session_id"@) == Ok::<Seq<char>, ErrorView>(session_id)
                &&& #[trigger] written(
                    "github.link"@,
                    params,
                    log,
                    i,
                    mapping_patch(session_id, recorded),
                )
                &&& shown_as(shown.field_or_null("pr"@), recorded)
            },
{
    lemma_handlers(params);
    let end = log.len() as int;
    let checked = check_run(log, 0);
    tame_check(log, 0, end);
    let context = context_run(params, log, checked.at);
    tame_context(params, log, checked.at, end);
    let repository = context.outcome->Ok_0;
    let cwd = context_directory(repository)->Ok_0;
    let args = view_args(required(params, "url"@)->Ok_0, "url,state,isDraft"@);
    let view = program_run(Program::Gh, cwd, args, log, context.at);
    tame_program(Program::Gh, cwd, args, log, context.at, end);
    let pr = parsed_text(view.outcome->Ok_0)->Ok_0;
    let url = strict_text(projected_status(pr).field("url"@))->Some_0;
    let state = strict_text(projected_status(pr).field("state"@))->Some_0;
    let git = program_run(Program::Git, cwd, remote_args(), log, view.at);
    tame_program(Program::Git, cwd, remote_args(), log, view.at, end);
    let remote = match git.outcome {
        Ok(remote) => known_remote(Ok(remote)),
        Err(halt) => known_remote(Err(halt->Fail_0)),
    };
    let branch = strict_text(repository.field("branch"@));
    let session_id = required(params, "session_id"@)->Ok_0;
    let (i, now) = lemma_persist_confirmed(session_id, url, state, remote, branch, log, git.at);
    tame_check(log, 0, i);
    tame_context(params, log, checked.at, i);
    tame_program(Program::Gh, cwd, args, log, context.at, i);
    tame_program(Program::Git, cwd, remote_args(), log, view.at, i);
    lemma_mapping_says(session_id, url, state, remote, branch, now);
    let recorded = mapping(session_id, url, state, remote, branch, now);
    assert(written("github.link"@, params, log, i, mapping_patch(session_id, recorded)));
}

/// `github.merge` succeeds only once the host has confirmed that the pull request is recorded for
/// the session as merged.
pub proof fn law_merges_are_recorded(params: JsonView, log: Seq<ReplyView>, shown: JsonView)
    requires
        next_step("github.merge"@, params, log) == StepView::Finished(Ok::<JsonView, ErrorView>(shown)),
    ensures
        exists|i: int, session_id: Seq<char>, recorded: JsonView|
            {
                &&& required(params, "session_id"@) == Ok::<Seq<char>, ErrorView>(session_id)
                &&& #[trigger] written(
                    "github.merge"@,
                    params,
                    log,
                    i,
                    mapping_patch(session_id, recorded),
                )
                &&& recorded.text_at("state"@) == Some("merged"@)
            },
{
    lemma_handlers(params);
    let end = log.len() as int;
    let checked = check_run(log, 0);
    tame_check(log, 0, end);
    let place = checkout_run(params, log, checked.at);
    tame_checkout(params, log, checked.at, end);
    let found = place.outcome->Ok_0;
    let flag = merge_flag(params.text_at("strategy"@))->Ok_0;
    let seen = view_args(found.branch, "url"@);
    let view = program_run(Program::Gh, found.cwd, seen, log, place.at);
    tame_program(Program::Gh, found.cwd, seen, log, place.at, end);
    let url = strict_text((parsed_text(view.outcome->Ok_0)->Ok_0).field("url"@))->Some_0;
    let git = program_run(Program::Git, found.cwd, remote_args(), log, view.at);
    tame_program(Program::Git, found.cwd, remote_args(), log, view.at, end);
    let args = merge_args(found.branch, flag);
    let merge = program_run(Program::Gh, found.cwd, args, log, git.at);
    tame_program(Program::Gh, found.cwd, args, log, git.at, end);
    let session_id = required(params, "session_id"@)->Ok_0;
    let remote = Some(trimmed(git.outcome->Ok_0));
    let branch = Some(found.branch);
    let (i, now) = lemma_persist_confirmed(session_id, url, "merged"@, remote, branch, log, merge.at);
    tame_check(log, 0, i);
    tame_checkout(params, log, checked.at, i);
    tame_program(Program::Gh, found.cwd, seen, log, place.at, i);
    tame_program(Program::Git, found.cwd, remote_args(), log, view.at, i);
    tame_program(Program::Gh, found.cwd, args, log, git.at, i);
    lemma_mapping_says(session_id, url, "merged"@, remote, branch, now);
    let recorded = mapping(session_id, url, "merged"@, remote, branch, now);
    assert(written("github.merge"@, params, log, i, mapping_patch(session_id, recorded)));
}

/// A document of another version is neither patched nor replaced nor read: whatever would do so
/// fails, once the host has told the version.
pub proof fn law_unsupported_state_is_refused(
    version: JsonView,
    patch: JsonView,
    allow_cancelled: bool,
    log: Seq<ReplyView>,
    start: int,
    at: int,
)
    requires
        host_run(
            "github-settings-version"@,
            "host.settings.get"@,
            read_request("version"@),
            allow_cancelled,
            log,
            at,
        ).outcome matches Ok(response) && settings_value(response) == Ok::<JsonView, ErrorView>(version),
        !(version is Null),
        version.natural() != Some(STATE_VERSION),
    ensures
        ledger_run(allow_cancelled, log, at).outcome == Err::<JsonView, HaltView>(unsupported()),
        check_unless_run(allow_cancelled, log, start) == done((), at) ==> patch_run(
            patch,
            allow_cancelled,
            log,
            start,
        ).outcome == Err::<(), HaltView>(unsupported()),
{
    reveal(patch_run);
    reveal(ledger_run);
    reveal(ensure_run);
}

/// The failure over a document of another version.
pub open spec fn unsupported() -> HaltView {
    HaltView::Fail(ErrorView::Message("unsupported GitHub durable state version"@))
}

} // verus!
