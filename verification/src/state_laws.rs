//! What holds of the durable state, whatever is done to it.

use vstd::prelude::*;
use crate::command::{CommandFault, command_outcome, fault_text};
use crate::controller::callback_value;
use crate::error::ErrorView;
use crate::exchange::callback_id;
use crate::github::law_public_remotes_hold_no_credentials;
use crate::json::JsonView;
use crate::reconcile::attempt_name;
use crate::state::{
    MAX_RECONCILIATION_ERROR_CHARS, STATE_NAMESPACE, begin_patch, bounded, document, empty_ledger,
    empty_state, ended, faulty, finish_patch, first_faulty, keeps_credentials, ledger_fault,
    ledger_keys, lemma_document_fault, lemma_first_faulty, lemma_mapping_names, mapping,
    mapping_fault, mappings_fault, patch_request, runs, settings_fault, settings_state, state_fault,
    strict_text,
};
use crate::text::{
    blank, decimal, digit, lemma_text_before_irreflexive, lemma_text_before_transitive,
    lemma_trimmed_first, text_before, trimmed, white_space,
};

verus! {

/// The members of an object behind a patch of it.
pub open spec fn patched(members: Map<Seq<char>, JsonView>, patch: Map<Seq<char>, JsonView>) -> Map<
    Seq<char>,
    JsonView,
> {
    members.union_prefer_right(patch)
}

pub(crate) proof fn lemma_ledger_names()
    ensures
        "status"@.len() == 6,
        "attempt_id"@.len() == 10,
        "attempt_id"@[0] == 'a',
        "started_at"@.len() == 10,
        "started_at"@[0] == 's',
        "finished_at"@.len() == 11,
        "checked"@.len() == 7,
        "recovered_attempt_id"@.len() == 20,
        "recovered_at"@.len() == 12,
        "error"@.len() == 5,
        "idle"@.len() == 4,
        "running"@.len() == 7,
        "failed"@.len() == 6,
{
    reveal_strlit("status");
    reveal_strlit("attempt_id");
    reveal_strlit("started_at");
    reveal_strlit("finished_at");
    reveal_strlit("checked");
    reveal_strlit("recovered_attempt_id");
    reveal_strlit("recovered_at");
    reveal_strlit("error");
    reveal_strlit("idle");
    reveal_strlit("running");
    reveal_strlit("failed");
}

/// The members of a ledger are found among its keys.
pub(crate) proof fn lemma_ledger_keys()
    ensures
        ledger_keys().contains("status"@),
        ledger_keys().contains("attempt_id"@),
        ledger_keys().contains("started_at"@),
        ledger_keys().contains("finished_at"@),
        ledger_keys().contains("checked"@),
        ledger_keys().contains("recovered_attempt_id"@),
        ledger_keys().contains("recovered_at"@),
        ledger_keys().contains("error"@),
{
    let keys = ledger_keys();
    assert(keys[0] == "status"@ && keys[1] == "attempt_id"@ && keys[2] == "started_at"@);
    assert(keys[3] == "finished_at"@ && keys[4] == "checked"@ && keys[5] == "recovered_attempt_id"@);
    assert(keys[6] == "recovered_at"@ && keys[7] == "error"@);
}

/// A ledger that can be used has all of its members, and no others.
proof fn lemma_ledger_members(ledger: Map<Seq<char>, JsonView>)
    requires
        ledger_fault(JsonView::Object(ledger)) is None,
    ensures
        forall|key: Seq<char>| #[trigger] ledger.contains_key(key) <==> ledger_keys().contains(key),
{
    assert forall|key: Seq<char>| ledger_keys().contains(key) implies ledger.contains_key(key) by {
        let i = choose|i: int| 0 <= i < ledger_keys().len() && ledger_keys()[i] == key;
        assert(ledger.contains_key(ledger_keys()[i]));
    }
}

/// A document that holds nothing yet can be used.
pub proof fn law_empty_state_is_valid()
    ensures
        state_fault(empty_state()) is None,
{
    lemma_ledger_names();
    lemma_ledger_keys();
    lemma_document_fault(Map::empty(), JsonView::Object(empty_ledger()));
    let ledger = empty_ledger();
    assert(JsonView::Object(ledger).text_at("status"@) == Some("idle"@));
    assert(ledger_fault(JsonView::Object(ledger)) is None);
    assert(forall|session_id: Seq<char>| !faulty(Map::empty(), session_id));
}

/// Settings without the plugin's namespace start from the empty document.
pub proof fn law_missing_state_starts_empty(settings: Map<Seq<char>, JsonView>)
    requires
        !settings.contains_key(STATE_NAMESPACE@),
    ensures
        settings_fault(JsonView::Object(settings)) is None,
        settings_state(JsonView::Object(settings)) == empty_state(),
{
    law_empty_state_is_valid();
}

/// An attempt that starts leaves the ledger usable and is the one that runs, also where the ledger
/// has changed since it was read. Where another one was seen to be marked as running, that one is
/// recorded as recovered; else the record of recoveries stays as it was.
pub proof fn law_begun_attempts_keep_the_ledger(
    ledger: Map<Seq<char>, JsonView>,
    seen: Map<Seq<char>, JsonView>,
    attempt_id: Seq<char>,
    started_at: u64,
)
    requires
        ledger_fault(JsonView::Object(ledger)) is None,
        ledger_fault(JsonView::Object(seen)) is None,
        !blank(attempt_id),
    ensures
        ({
            let after = patched(ledger, begin_patch(JsonView::Object(seen), attempt_id, started_at));
            &&& ledger_fault(JsonView::Object(after)) is None
            &&& runs(JsonView::Object(after), attempt_id)
            &&& if JsonView::Object(seen).text_at("status"@) == Some("running"@) {
                &&& after["recovered_attempt_id"@] == seen["attempt_id"@]
                &&& after["recovered_at"@] == JsonView::Integer(started_at as int)
            } else {
                &&& after["recovered_attempt_id"@] == ledger["recovered_attempt_id"@]
                &&& after["recovered_at"@] == ledger["recovered_at"@]
            }
        }),
{
    lemma_ledger_names();
    lemma_ledger_keys();
    let patch = begin_patch(JsonView::Object(seen), attempt_id, started_at);
    let after = patched(ledger, patch);
    lemma_ledger_members(ledger);
    lemma_ledger_members(seen);
    assert(JsonView::Object(after).text_at("status"@) == Some("running"@));
    assert(JsonView::Object(after).field("attempt_id"@) == Some(JsonView::Text(attempt_id)));
}

/// Once an attempt has started, it and no other attempt can be ended.
pub proof fn law_attempts_are_fenced(
    ledger: Map<Seq<char>, JsonView>,
    attempt_id: Seq<char>,
    started_at: u64,
    other: Seq<char>,
    status: Seq<char>,
    checked: u64,
    finished_at: u64,
    error: Option<Seq<char>>,
)
    ensures
        ended(
            JsonView::Object(
                patched(ledger, begin_patch(JsonView::Object(ledger), attempt_id, started_at)),
            ),
            other,
            status,
            checked,
            finished_at,
            error,
        ) is Ok <==> other == attempt_id,
{
    lemma_ledger_names();
    let after = patched(ledger, begin_patch(JsonView::Object(ledger), attempt_id, started_at));
    assert(JsonView::Object(after).text_at("status"@) == Some("running"@));
    assert(JsonView::Object(after).text_at("attempt_id"@) == Some(attempt_id));
}

/// An attempt that ends leaves the ledger usable, with the status that it ended with, and changes
/// neither its name nor when it started nor the record of recoveries. No attempt can be ended
/// then. What is kept of an error is bounded. This leaves out an error of which nothing but white
/// space would be kept; the errors of commands and of calls to the host are not such, as the laws
/// below say.
pub proof fn law_ended_attempts_keep_the_ledger(
    ledger: Map<Seq<char>, JsonView>,
    status: Seq<char>,
    checked: u64,
    finished_at: u64,
    error: Option<Seq<char>>,
    attempt_id: Seq<char>,
)
    requires
        ledger_fault(JsonView::Object(ledger)) is None,
        status == "idle"@ || status == "failed"@,
        error matches Some(message) ==> !blank(bounded(message)),
    ensures
        ({
            let after = patched(ledger, finish_patch(status, checked, finished_at, error));
            &&& ledger_fault(JsonView::Object(after)) is None
            &&& after["status"@] == JsonView::Text(status)
            &&& after["checked"@] == JsonView::Integer(checked as int)
            &&& after["finished_at"@] == JsonView::Integer(finished_at as int)
            &&& after["attempt_id"@] == ledger["attempt_id"@]
            &&& after["started_at"@] == ledger["started_at"@]
            &&& after["recovered_attempt_id"@] == ledger["recovered_attempt_id"@]
            &&& after["recovered_at"@] == ledger["recovered_at"@]
            &&& after["error"@] matches JsonView::Text(kept) ==> kept.len() <= MAX_RECONCILIATION_ERROR_CHARS
            &&& !runs(JsonView::Object(after), attempt_id)
        }),
{
    lemma_ledger_names();
    lemma_ledger_keys();
    let patch = finish_patch(status, checked, finished_at, error);
    let after = patched(ledger, patch);
    lemma_ledger_members(ledger);
    assert(JsonView::Object(after).text_at("status"@) == Some(status));
}

/// A text with a character that is no white space among the first ones is not blank, also where
/// only the first ones are kept.
proof fn lemma_kept(text: Seq<char>, i: int)
    requires
        0 <= i < text.len(),
        i < MAX_RECONCILIATION_ERROR_CHARS,
        !white_space(text[i]),
    ensures
        !blank(bounded(text)),
{
    assert(bounded(text)[i] == text[i]);
}

/// What is kept of the error of a command that has exited is not blank. This leaves out a program
/// whose name starts with so much white space that nothing else of the error is kept.
pub proof fn law_errors_of_commands_are_not_blank(
    program: Seq<char>,
    success: bool,
    status: Seq<char>,
    stdout: Seq<char>,
    stdout_truncated: bool,
    stderr: Seq<char>,
    stderr_truncated: bool,
)
    requires
        program.len() + 2 <= MAX_RECONCILIATION_ERROR_CHARS || !blank(bounded(program)),
    ensures
        command_outcome(
            program,
            success,
            status,
            stdout,
            stdout_truncated,
            stderr,
            stderr_truncated,
        ) matches Err(ErrorView::Message(message)) ==> !blank(bounded(message)),
{
    reveal_strlit(" stdout exceeded ");
    reveal_strlit(" exited with ");
    reveal_strlit("\n[stderr truncated]");
    let outcome = command_outcome(
        program,
        success,
        status,
        stdout,
        stdout_truncated,
        stderr,
        stderr_truncated,
    );
    if let Err(ErrorView::Message(message)) = outcome {
        lemma_trimmed_first(stderr);
        let named = message.len() >= program.len() + 2 && message.take(program.len() as int) == program
            && !white_space(message[program.len() + 1int]);
        if stdout_truncated {
            assert(" stdout exceeded "@[1] == 's');
            assert(message.take(program.len() as int) =~= program);
            assert(message[program.len() + 1int] == 's');
        } else if trimmed(stderr).len() > 0 {
            assert(message[0] == trimmed(stderr)[0]);
            lemma_kept(message, 0);
        } else if stderr_truncated {
            assert(message =~= "\n[stderr truncated]"@);
            assert(message[1] == '[');
            lemma_kept(message, 1);
        } else {
            assert(" exited with "@[1] == 'e');
            assert(message.take(program.len() as int) =~= program);
            assert(message[program.len() + 1int] == 'e');
        }
        if named {
            if program.len() + 2 <= MAX_RECONCILIATION_ERROR_CHARS {
                lemma_kept(message, program.len() + 1int);
            } else {
                let i = choose|i: int| 0 <= i < bounded(program).len() && !white_space(bounded(program)[i]);
                assert(message.take(program.len() as int)[i] == message[i]);
                lemma_kept(message, i);
            }
        }
    }
}

/// What is kept of a fault around a command, and of a failed call to the host, is not blank.
pub proof fn law_errors_from_outside_are_not_blank(
    program: Seq<char>,
    fault: CommandFault,
    reason: Seq<char>,
    frame: JsonView,
    error: Option<Seq<char>>,
)
    ensures
        !blank(bounded(fault_text(program, fault))),
        !blank(bounded("failed waiting for "@ + program + ": "@ + reason)),
        callback_value(frame, error) matches Err(ErrorView::Message(message)) ==> !blank(bounded(message)),
{
    reveal_strlit("failed to run ");
    reveal_strlit("failed collecting ");
    reveal_strlit("failed waiting for ");
    reveal_strlit("failed reading ");
    reveal_strlit("host callback failed: ");
    reveal_strlit("host callback response did not contain a result");
    let text = fault_text(program, fault);
    assert(text[0] == 'f');
    lemma_kept(text, 0);
    let waited = "failed waiting for "@ + program + ": "@ + reason;
    assert(waited[0] == 'f');
    lemma_kept(waited, 0);
    if let Err(ErrorView::Message(message)) = callback_value(frame, error) {
        assert(message[0] == 'h');
        lemma_kept(message, 0);
    }
}

/// The mapping that is recorded for a session can be used, where the session, the URL and the
/// state are not blank.
pub proof fn law_recorded_mappings_are_valid(
    session_id: Seq<char>,
    url: Seq<char>,
    state: Seq<char>,
    remote: Option<Seq<char>>,
    branch: Option<Seq<char>>,
    updated_at: u64,
)
    requires
        !blank(session_id),
        !blank(url),
        !blank(state),
    ensures
        mapping_fault(session_id, mapping(session_id, url, state, remote, branch, updated_at)) is None,
{
    lemma_mapping_names();
    let recorded = mapping(session_id, url, state, remote, branch, updated_at);
    if let Some(remote) = remote {
        law_public_remotes_hold_no_credentials(remote);
    }
    assert(strict_text(recorded.field("session_id"@)) == Some(session_id));
    assert(strict_text(recorded.field("url"@)) == Some(url));
    assert(strict_text(recorded.field("state"@)) == Some(state));
}

/// The mapping that is recorded for a session holds no credentials, whatever the remote: no
/// password in any URL, and no user either in one of the web.
pub proof fn law_mappings_hold_no_credentials(
    session_id: Seq<char>,
    url: Seq<char>,
    state: Seq<char>,
    remote: Option<Seq<char>>,
    branch: Option<Seq<char>>,
    updated_at: u64,
)
    ensures
        !keeps_credentials(mapping(session_id, url, state, remote, branch, updated_at)),
{
    lemma_mapping_names();
    if let Some(remote) = remote {
        law_public_remotes_hold_no_credentials(remote);
    }
}

/// A finite set of texts that is not empty has a first one.
proof fn lemma_first(texts: Set<Seq<char>>) -> (first: Seq<char>)
    requires
        texts.finite(),
        texts.len() > 0,
    ensures
        texts.contains(first),
        forall|text: Seq<char>| #[trigger] texts.contains(text) ==> !text_before(text, first),
    decreases texts.len(),
{
    let some = texts.choose();
    let rest = texts.remove(some);
    lemma_text_before_irreflexive(some);
    if rest.len() == 0 {
        assert forall|text: Seq<char>| #[trigger] texts.contains(text) implies !text_before(text, some) by {
            if text != some {
                assert(rest.contains(text));
            }
        }
        some
    } else {
        let first = lemma_first(rest);
        if text_before(some, first) {
            assert forall|text: Seq<char>| #[trigger] texts.contains(text) implies !text_before(text, some) by {
                if text != some && text_before(text, some) {
                    assert(rest.contains(text));
                    lemma_text_before_transitive(text, some, first);
                }
            }
            some
        } else {
            assert forall|text: Seq<char>| #[trigger] texts.contains(text) implies !text_before(text, first) by {
                if text != some {
                    assert(rest.contains(text));
                }
            }
            first
        }
    }
}

/// Mappings can be used exactly if none of them is at fault.
pub(crate) proof fn lemma_no_faults(mappings: Map<Seq<char>, JsonView>)
    requires
        mappings.dom().finite(),
    ensures
        mappings_fault(mappings) is None <==> forall|session_id: Seq<char>| !#[trigger] faulty(
            mappings,
            session_id,
        ),
{
    if exists|session_id: Seq<char>| faulty(mappings, session_id) {
        let some = choose|session_id: Seq<char>| faulty(mappings, session_id);
        let faults = mappings.dom().filter(|session_id: Seq<char>| faulty(mappings, session_id));
        mappings.dom().lemma_len_filter(|session_id: Seq<char>| faulty(mappings, session_id));
        assert(faults.contains(some));
        let first = lemma_first(faults);
        assert forall|earlier: Seq<char>| #[trigger] faulty(mappings, earlier) implies !text_before(
            earlier,
            first,
        ) by {
            assert(faults.contains(earlier));
        }
        assert(first_faulty(mappings, first));
        lemma_first_faulty(mappings, first);
    }
}

/// Recording a mapping that can be used leaves the document usable, and the mappings of all other
/// sessions and the ledger as they were.
pub proof fn law_recording_keeps_the_document(
    mappings: Map<Seq<char>, JsonView>,
    ledger: JsonView,
    session_id: Seq<char>,
    recorded: JsonView,
)
    requires
        mappings.dom().finite(),
        state_fault(document(JsonView::Object(mappings), ledger)) is None,
        mapping_fault(session_id, recorded) is None,
    ensures
        ({
            let after = patched(mappings, map![session_id => recorded]);
            &&& state_fault(document(JsonView::Object(after), ledger)) is None
            &&& after.contains_key(session_id) && after[session_id] == recorded
            &&& forall|other: Seq<char>|
                other != session_id ==> after.contains_key(other) == #[trigger] mappings.contains_key(other)
                    && (mappings.contains_key(other) ==> after[other] == mappings[other])
        }),
{
    let after = patched(mappings, map![session_id => recorded]);
    lemma_document_fault(mappings, ledger);
    lemma_document_fault(after, ledger);
    lemma_no_faults(mappings);
    assert(after =~= mappings.insert(session_id, recorded));
    lemma_no_faults(after);
    assert forall|other: Seq<char>| !#[trigger] faulty(after, other) by {
        if other != session_id {
            assert(!faulty(mappings, other));
        }
    }
}

/// Taking a mapping away leaves the document usable, and the mappings of all other sessions and
/// the ledger as they were.
pub proof fn law_clearing_keeps_the_document(
    mappings: Map<Seq<char>, JsonView>,
    ledger: JsonView,
    session_id: Seq<char>,
)
    requires
        mappings.dom().finite(),
        state_fault(document(JsonView::Object(mappings), ledger)) is None,
    ensures
        state_fault(document(JsonView::Object(mappings.remove(session_id)), ledger)) is None,
{
    let after = mappings.remove(session_id);
    lemma_document_fault(mappings, ledger);
    lemma_document_fault(after, ledger);
    lemma_no_faults(mappings);
    lemma_no_faults(after);
    assert forall|other: Seq<char>| !#[trigger] faulty(after, other) by {
        assert(!faulty(mappings, other));
    }
}

/// A patch names the plugin's own namespace and no other part of the settings.
pub proof fn law_patches_leave_other_settings_alone(patch: JsonView, namespace: Seq<char>)
    ensures
        patch_request(patch).field_or_null("patch"@).field(namespace) == (if namespace == STATE_NAMESPACE@ {
            Some(patch)
        } else {
            None
        }),
{
}

proof fn lemma_decimal(number: nat)
    ensures
        decimal(number).len() > 0,
        forall|i: int| 0 <= i < decimal(number).len() ==> '0' <= #[trigger] decimal(number)[i] <= '9',
    decreases number,
{
    if number >= 10 {
        lemma_decimal(number / 10);
    }
}

/// Different numbers have different digits.
proof fn lemma_decimal_differs(a: nat, b: nat)
    requires
        decimal(a) == decimal(b),
    ensures
        a == b,
    decreases a,
{
    lemma_decimal(a / 10);
    lemma_decimal(b / 10);
    let digits = decimal(a);
    if a < 10 && b < 10 {
        assert(digits[0] == digit(a) && digits[0] == digit(b));
    } else if a >= 10 && b >= 10 {
        assert(decimal(a).drop_last() =~= decimal(a / 10));
        assert(decimal(b).drop_last() =~= decimal(b / 10));
        assert(digits.last() == digit(a % 10) && digits.last() == digit(b % 10));
        lemma_decimal_differs(a / 10, b / 10);
    }
}

/// Two texts that end in a dash and a number, and are the same, end in the same number.
proof fn lemma_numbered(a: Seq<char>, i: nat, b: Seq<char>, j: nat)
    requires
        a + "-"@ + decimal(i) == b + "-"@ + decimal(j),
    ensures
        a == b,
        i == j,
{
    reveal_strlit("-");
    lemma_decimal(i);
    lemma_decimal(j);
    let whole = a + "-"@ + decimal(i);
    let other = b + "-"@ + decimal(j);
    assert("-"@.len() == 1);
    assert(whole.len() == a.len() + 1 + decimal(i).len());
    assert(other.len() == b.len() + 1 + decimal(j).len());
    assert(whole[a.len() as int] == '-');
    assert(other[b.len() as int] == '-');
    if a.len() < b.len() {
        assert(whole[b.len() as int] == decimal(i)[b.len() - a.len() - 1]);
    } else if b.len() < a.len() {
        assert(other[a.len() as int] == decimal(j)[a.len() - b.len() - 1]);
    }
    assert(decimal(i) =~= whole.skip(a.len() + 1int));
    assert(decimal(j) =~= other.skip(b.len() + 1int));
    assert(a =~= whole.take(a.len() as int));
    assert(b =~= other.take(b.len() as int));
    lemma_decimal_differs(i, j);
}

/// Two attempts with different numbers, or that started at different times, have different names,
/// and no name is blank.
pub proof fn law_attempts_have_names_of_their_own(
    started_at: u64,
    number: u64,
    other_start: u64,
    other_number: u64,
)
    ensures
        attempt_name(started_at, number) == attempt_name(other_start, other_number) ==> started_at
            == other_start && number == other_number,
        !blank(attempt_name(started_at, number)),
{
    let front = "reconcile-"@ + decimal(started_at as nat);
    let other_front = "reconcile-"@ + decimal(other_start as nat);
    if attempt_name(started_at, number) == attempt_name(other_start, other_number) {
        lemma_numbered(front, number as nat, other_front, other_number as nat);
        assert(front.skip("reconcile-"@.len() as int) =~= decimal(started_at as nat));
        assert(other_front.skip("reconcile-"@.len() as int) =~= decimal(other_start as nat));
        lemma_decimal_differs(started_at as nat, other_start as nat);
    }
    reveal_strlit("reconcile-");
    assert(attempt_name(started_at, number)[0] == 'r');
}

/// Two calls to the host with different numbers have different ids, whatever they are about.
pub proof fn law_calls_have_ids_of_their_own(
    prefix: Seq<char>,
    number: u64,
    other: Seq<char>,
    other_number: u64,
)
    ensures
        callback_id(prefix, number) == callback_id(other, other_number) ==> prefix == other && number
            == other_number,
{
    if callback_id(prefix, number) == callback_id(other, other_number) {
        lemma_numbered(prefix, number as nat, other, other_number as nat);
    }
}

} // verus!
