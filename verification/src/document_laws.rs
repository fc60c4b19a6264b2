//! Which documents can be used, told by their members.

use vstd::prelude::*;
use crate::error::ErrorView;
use crate::findings::member;
use crate::json::JsonView;
use crate::promises::{holds, new_document, tells, told};
use crate::state::{
    document_keys, ended, faulty, has_unknown, lacks_some, ledger_fault, ledger_keys,
    lemma_mapping_names, mapping_fault, mapping_keys, settings_fault, settings_state,
    settings_value, state_fault,
};
use crate::state_laws::{lemma_ledger_keys, lemma_ledger_names, lemma_no_faults};
use crate::text::blank;

verus! {

/// Whether an object holds a natural number under a key, of at most 64 bits.
pub open spec fn counts(json: JsonView, key: Seq<char>) -> bool {
    member(json, key) matches Some(JsonView::Integer(number)) && 0 <= number <= u64::MAX
}

/// Whether an object holds a text under a key that is more than white space.
pub open spec fn says(json: JsonView, key: Seq<char>) -> bool {
    told(json, key) matches Some(text) && !blank(text)
}

/// Whether the mapping of a session can be used: it names its session, a URL, a state and a time; a
/// remote and a branch only where they are not blank; and nothing else.
pub open spec fn usable_mapping(session_id: Seq<char>, mapping: JsonView) -> bool {
    mapping matches JsonView::Object(members) && {
        &&& tells(mapping, "session_id"@, session_id)
        &&& says(mapping, "url"@)
        &&& says(mapping, "state"@)
        &&& counts(mapping, "updated_at"@)
        &&& members.contains_key("remote"@) ==> says(mapping, "remote"@)
        &&& members.contains_key("branch"@) ==> says(mapping, "branch"@)
        &&& forall|key: Seq<char>| #[trigger]
            members.contains_key(key) ==> key == "session_id"@ || key == "url"@ || key == "state"@ || key
                == "remote"@ || key == "branch"@ || key == "updated_at"@
    }
}

/// Whether an object holds `null` or a text that is more than white space under a key.
pub open spec fn may_say(json: JsonView, key: Seq<char>) -> bool {
    holds(json, key, JsonView::Null) || says(json, key)
}

/// Whether an object holds `null` or a natural number under a key.
pub open spec fn may_count(json: JsonView, key: Seq<char>) -> bool {
    holds(json, key, JsonView::Null) || counts(json, key)
}

/// Whether a ledger can be used: it has its eight members, of the right kinds, and nothing else.
pub open spec fn usable_ledger(ledger: JsonView) -> bool {
    ledger matches JsonView::Object(members) && {
        &&& told(ledger, "status"@) == Some("idle"@) || told(ledger, "status"@) == Some("running"@) || told(
            ledger,
            "status"@,
        ) == Some("failed"@)
        &&& counts(ledger, "checked"@)
        &&& may_say(ledger, "attempt_id"@)
        &&& may_say(ledger, "recovered_attempt_id"@)
        &&& may_say(ledger, "error"@)
        &&& may_count(ledger, "started_at"@)
        &&& may_count(ledger, "finished_at"@)
        &&& may_count(ledger, "recovered_at"@)
        &&& forall|key: Seq<char>| #[trigger]
            members.contains_key(key) ==> key == "status"@ || key == "attempt_id"@ || key == "started_at"@
                || key == "finished_at"@ || key == "checked"@ || key == "recovered_attempt_id"@ || key
                == "recovered_at"@ || key == "error"@
    }
}

/// Whether a document can be used: it has the version 1, mappings that can be used, a ledger that
/// can be used, and nothing else.
pub open spec fn usable_document(document: JsonView) -> bool {
    document matches JsonView::Object(members) && {
        &&& holds(document, "version"@, JsonView::Integer(1))
        &&& member(document, "pull_requests"@) matches Some(JsonView::Object(mappings)) && forall|
            session_id: Seq<char>,
        | #[trigger]
            mappings.contains_key(session_id) ==> usable_mapping(session_id, mappings[session_id])
        &&& member(document, "reconciliation"@) matches Some(ledger) && usable_ledger(ledger)
        &&& forall|key: Seq<char>| #[trigger]
            members.contains_key(key) ==> key == "version"@ || key == "pull_requests"@ || key
                == "reconciliation"@
    }
}

/// A mapping is accepted exactly if it can be used.
pub proof fn law_usable_mappings_are_accepted(session_id: Seq<char>, mapping: JsonView)
    ensures
        mapping_fault(session_id, mapping) is None <==> usable_mapping(session_id, mapping),
{
    lemma_mapping_names();
    if let JsonView::Object(members) = mapping {
        let keys = mapping_keys();
        assert forall|key: Seq<char>| #[trigger] keys.contains(key) <==> (key == "session_id"@ || key
            == "url"@ || key == "state"@ || key == "remote"@ || key == "branch"@ || key == "updated_at"@) by {
            if keys.contains(key) {
                let i = choose|i: int| 0 <= i < keys.len() && keys[i] == key;
            }
        }
        if usable_mapping(session_id, mapping) {
            assert(!has_unknown(members, keys));
        }
    }
}

/// A ledger is accepted exactly if it can be used.
pub proof fn law_usable_ledgers_are_accepted(ledger: JsonView)
    ensures
        ledger_fault(ledger) is None <==> usable_ledger(ledger),
{
    lemma_ledger_names();
    lemma_ledger_keys();
    if let JsonView::Object(members) = ledger {
        let keys = ledger_keys();
        assert(keys[0] == "status"@ && keys[1] == "attempt_id"@ && keys[2] == "started_at"@ && keys[3]
            == "finished_at"@);
        assert(keys[4] == "checked"@ && keys[5] == "recovered_attempt_id"@ && keys[6] == "recovered_at"@
            && keys[7] == "error"@);
        assert forall|key: Seq<char>| #[trigger] keys.contains(key) <==> (key == "status"@ || key
            == "attempt_id"@ || key == "started_at"@ || key == "finished_at"@ || key == "checked"@ || key
            == "recovered_attempt_id"@ || key == "recovered_at"@ || key == "error"@) by {
            if keys.contains(key) {
                let i = choose|i: int| 0 <= i < keys.len() && keys[i] == key;
            }
        }
        if usable_ledger(ledger) {
            assert(!has_unknown(members, keys));
            assert(!lacks_some(members, keys));
        }
    }
}

/// A document is accepted exactly if it can be used.
pub proof fn law_usable_documents_are_accepted(document: JsonView)
    requires
        member(document, "pull_requests"@) matches Some(JsonView::Object(mappings)) ==> mappings.dom().finite(),
    ensures
        state_fault(document) is None <==> usable_document(document),
{
    if let JsonView::Object(members) = document {
        let keys = document_keys();
        assert(keys[0] == "version"@ && keys[1] == "pull_requests"@ && keys[2] == "reconciliation"@);
        assert forall|key: Seq<char>| #[trigger] keys.contains(key) <==> (key == "version"@ || key
            == "pull_requests"@ || key == "reconciliation"@) by {
            if keys.contains(key) {
                let i = choose|i: int| 0 <= i < keys.len() && keys[i] == key;
            }
        }
        if let Some(ledger) = member(document, "reconciliation"@) {
            law_usable_ledgers_are_accepted(ledger);
        }
        if let Some(JsonView::Object(mappings)) = member(document, "pull_requests"@) {
            lemma_no_faults(mappings);
            assert forall|session_id: Seq<char>| #[trigger] mappings.contains_key(session_id) implies (faulty(
                mappings,
                session_id,
            ) <==> !usable_mapping(session_id, mappings[session_id])) by {
                law_usable_mappings_are_accepted(session_id, mappings[session_id]);
            }
            if usable_document(document) {
                assert forall|session_id: Seq<char>| !#[trigger] faulty(mappings, session_id) by {
                    if mappings.contains_key(session_id) {
                        assert(usable_mapping(session_id, mappings[session_id]));
                    }
                }
            }
        }
        if usable_document(document) {
            assert(!has_unknown(members, keys));
            assert(!lacks_some(members, keys));
        }
    }
}

/// The document in the settings is the one under `github`. Where there is none, a new one is used;
/// settings that are no object are refused.
pub proof fn law_settings_hold_the_document_under_github(settings: JsonView)
    ensures
        settings_state(settings) == (match member(settings, "github"@) {
            Some(document) => document,
            None => new_document(),
        }),
        settings_fault(settings) is None <==> settings is Object && state_fault(
            settings_state(settings),
        ) is None,
        settings_value(settings) == (match member(settings, "settings"@) {
            Some(value) => Ok::<JsonView, ErrorView>(value),
            None => Err(ErrorView::Message("host settings response did not contain settings"@)),
        }),
{
    assert(crate::state::empty_state() =~= new_document());
}

/// An attempt can be ended exactly if the ledger says that this attempt runs.
pub proof fn law_running_attempts_can_be_ended(
    ledger: JsonView,
    attempt_id: Seq<char>,
    status: Seq<char>,
    checked: u64,
    finished_at: u64,
    error: Option<Seq<char>>,
)
    ensures
        ended(ledger, attempt_id, status, checked, finished_at, error) is Ok <==> told(ledger, "status"@)
            == Some("running"@) && told(ledger, "attempt_id"@) == Some(attempt_id),
{
}

} // verus!
