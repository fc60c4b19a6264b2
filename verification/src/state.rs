//! The durable state: the document under the plugin's own namespace in the host's settings.

use vstd::prelude::*;
use crate::error::{ErrorView, RequestError, result_view, verdict};
use crate::github::{holds_credentials, public_remote, without_credentials};
use crate::json::{Json, JsonView, Object, has_text, option_view, text_view};
use crate::text::{
    blank, concat, is_blank, lemma_text_before_irreflexive, lemma_text_before_total,
    lemma_text_before_transitive, parts_view, same_text, take_chars, text_before,
};

verus! {

/// The namespace of the settings that the plugin owns.
pub const STATE_NAMESPACE: &'static str = "github";

/// The version of the document.
pub const STATE_VERSION: u64 = 1;

/// How much of an error message the document keeps.
pub const MAX_RECONCILIATION_ERROR_CHARS: usize = 500;

/// A reconciliation ledger that has seen no attempt.
pub open spec fn empty_ledger() -> Map<Seq<char>, JsonView> {
    map![
        "status"@ => JsonView::Text("idle"@),
        "attempt_id"@ => JsonView::Null,
        "started_at"@ => JsonView::Null,
        "finished_at"@ => JsonView::Null,
        "checked"@ => JsonView::Integer(0),
        "recovered_attempt_id"@ => JsonView::Null,
        "recovered_at"@ => JsonView::Null,
        "error"@ => JsonView::Null,
    ]
}

/// The document that holds a set of mappings and a ledger.
pub open spec fn document(pull_requests: JsonView, reconciliation: JsonView) -> JsonView {
    JsonView::Object(
        map![
            "version"@ => JsonView::Integer(STATE_VERSION as int),
            "pull_requests"@ => pull_requests,
            "reconciliation"@ => reconciliation,
        ],
    )
}

/// The document of a plugin that has done nothing yet.
pub open spec fn empty_state() -> JsonView {
    document(JsonView::Object(Map::empty()), JsonView::Object(empty_ledger()))
}

/// The document that holds a set of mappings and a ledger.
fn make_document(pull_requests: Json, reconciliation: Json) -> (state: Json)
    ensures
        state@ == document(pull_requests@, reconciliation@),
{
    let mut state = Object::new();
    state.insert("version".to_owned(), Json::natural(STATE_VERSION));
    state.insert("pull_requests".to_owned(), pull_requests);
    state.insert("reconciliation".to_owned(), reconciliation);
    Json::Object(state)
}

/// The document of a plugin that has done nothing yet.
pub fn empty_durable_state() -> (state: Json)
    ensures
        state@ == empty_state(),
{
    let mut ledger = Object::new();
    ledger.insert("status".to_owned(), Json::text("idle"));
    ledger.insert("attempt_id".to_owned(), Json::Null);
    ledger.insert("started_at".to_owned(), Json::Null);
    ledger.insert("finished_at".to_owned(), Json::Null);
    ledger.insert("checked".to_owned(), Json::natural(0));
    ledger.insert("recovered_attempt_id".to_owned(), Json::Null);
    ledger.insert("recovered_at".to_owned(), Json::Null);
    ledger.insert("error".to_owned(), Json::Null);
    make_document(Json::Object(Object::new()), Json::Object(ledger))
}

/// Whether an object has a member that is not among `keys`.
pub open spec fn has_unknown(members: Map<Seq<char>, JsonView>, keys: Seq<Seq<char>>) -> bool {
    exists|key: Seq<char>| #[trigger] members.contains_key(key) && !keys.contains(key)
}

/// Whether an object lacks one of `keys`.
pub open spec fn lacks_some(members: Map<Seq<char>, JsonView>, keys: Seq<Seq<char>>) -> bool {
    exists|i: int| 0 <= i < keys.len() && !members.contains_key(#[trigger] keys[i])
}

/// What is wrong with the keys of an object that must have exactly `keys`.
pub open spec fn keys_fault(
    members: Map<Seq<char>, JsonView>,
    keys: Seq<Seq<char>>,
) -> Option<Seq<char>> {
    if has_unknown(members, keys) {
        Some("GitHub durable state contains unknown fields"@)
    } else if lacks_some(members, keys) {
        Some("GitHub durable state is missing required fields"@)
    } else {
        None
    }
}

/// Whether a text is among `keys`.
fn is_among(text: &str, keys: &Vec<&str>) -> (among: bool)
    ensures
        among == parts_view(keys@).contains(text@),
{
    let mut i: usize = 0;
    while i < keys.len()
        invariant
            i <= keys.len(),
            forall|j: int| 0 <= j < i ==> #[trigger] parts_view(keys@)[j] != text@,
        decreases keys.len() - i,
    {
        assert(parts_view(keys@)[i as int] == keys@[i as int]@);
        if same_text(keys[i], text) {
            return true;
        }
        i = i + 1;
    }
    false
}

/// Whether an object has a member that is not among `keys`.
fn any_unknown(object: &Object, keys: &Vec<&str>) -> (unknown: bool)
    ensures
        unknown == has_unknown(object@, parts_view(keys@)),
{
    let count = object.len();
    let mut i: usize = 0;
    while i < count
        invariant
            count == object.keys().len(),
            i <= count,
            forall|j: int| 0 <= j < i ==> parts_view(keys@).contains(#[trigger] object.keys()[j]),
        decreases count - i,
    {
        let (key, _) = object.entry(i);
        if !is_among(key.as_str(), keys) {
            return true;
        }
        i = i + 1;
    }
    proof {
        assert forall|key: Seq<char>| #[trigger] object@.contains_key(key) implies parts_view(keys@).contains(
            key,
        ) by {
            assert(object.keys().contains(key));
        }
    }
    false
}

/// Checks that an object has the members `keys` and no others.
pub fn require_only_keys(object: &Object, keys: &Vec<&str>) -> (outcome: Result<(), RequestError>)
    ensures
        result_view(outcome) == verdict(keys_fault(object@, parts_view(keys@))),
{
    if any_unknown(object, keys) {
        return Err(RequestError::message("GitHub durable state contains unknown fields"));
    }
    let mut i: usize = 0;
    while i < keys.len()
        invariant
            i <= keys.len(),
            forall|j: int| 0 <= j < i ==> object@.contains_key(#[trigger] parts_view(keys@)[j]),
            !has_unknown(object@, parts_view(keys@)),
        decreases keys.len() - i,
    {
        assert(parts_view(keys@)[i as int] == keys@[i as int]@);
        if object.get(keys[i]).is_none() {
            return Err(RequestError::message("GitHub durable state is missing required fields"));
        }
        i = i + 1;
    }
    Ok(())
}

/// The text of a value that must be a string and not blank.
pub open spec fn strict_text(value: Option<JsonView>) -> Option<Seq<char>> {
    match value {
        Some(JsonView::Text(text)) => if blank(text) {
            None
        } else {
            Some(text)
        },
        _ => None,
    }
}

/// What is said of a member that is not as it must be.
pub open spec fn invalid_text(field: Seq<char>) -> Seq<char> {
    "GitHub durable state has invalid "@ + field
}

/// The error for a member that is not as it must be.
fn invalid(field: &str) -> (error: RequestError)
    ensures
        error@ == ErrorView::Message(invalid_text(field@)),
{
    RequestError::Message(concat("GitHub durable state has invalid ", field))
}

/// The text of a value that must be a string and not blank.
pub fn strict_string(value: Option<&Json>, field: &str) -> (text: Result<String, RequestError>)
    ensures
        result_view(text) == (match strict_text(option_view(value)) {
            Some(text) => Ok::<Seq<char>, ErrorView>(text),
            None => Err(ErrorView::Message(invalid_text(field@))),
        }),
{
    match value {
        Some(Json::Text(text)) => if is_blank(text.as_str()) {
            Err(invalid(field))
        } else {
            Ok(text.clone())
        },
        _ => Err(invalid(field)),
    }
}

/// Whether a value is `null` or a string that is not blank.
pub open spec fn null_or_text(value: Option<JsonView>) -> bool {
    value == Some(JsonView::Null) || strict_text(value) is Some
}

/// Whether a value is `null` or a natural number.
pub open spec fn null_or_natural(value: Option<JsonView>) -> bool {
    match value {
        Some(JsonView::Null) => true,
        Some(value) => value.natural() is Some,
        None => false,
    }
}

/// Checks that a value is `null` or a string that is not blank.
pub fn strict_optional_string(
    value: Option<&Json>,
    field: &str,
) -> (outcome: Result<(), RequestError>)
    ensures
        result_view(outcome) == (if null_or_text(option_view(value)) {
            Ok::<(), ErrorView>(())
        } else {
            Err(ErrorView::Message(invalid_text(field@)))
        }),
{
    match value {
        Some(Json::Null) => Ok(()),
        Some(Json::Text(text)) => if is_blank(text.as_str()) {
            Err(invalid(field))
        } else {
            Ok(())
        },
        _ => Err(invalid(field)),
    }
}

/// Checks that a value is `null` or a natural number.
pub fn strict_optional_timestamp(
    value: Option<&Json>,
    field: &str,
) -> (outcome: Result<(), RequestError>)
    ensures
        result_view(outcome) == (if null_or_natural(option_view(value)) {
            Ok::<(), ErrorView>(())
        } else {
            Err(ErrorView::Message(invalid_text(field@)))
        }),
{
    match value {
        Some(Json::Null) => Ok(()),
        Some(value) => if value.as_u64().is_some() {
            Ok(())
        } else {
            Err(invalid(field))
        },
        None => Err(invalid(field)),
    }
}

/// The members that a mapping may have.
pub open spec fn mapping_keys() -> Seq<Seq<char>> {
    seq!["session_id"@, "url"@, "state"@, "remote"@, "branch"@, "updated_at"@]
}

/// What is wrong with the pull request that is mapped to a session.
pub open spec fn mapping_fault(session_id: Seq<char>, mapping: JsonView) -> Option<Seq<char>> {
    if blank(session_id) {
        Some("GitHub durable state has an empty session id"@)
    } else {
        match mapping {
            JsonView::Object(members) => if has_unknown(members, mapping_keys()) {
                Some("GitHub durable state pull request contains unknown fields"@)
            } else if strict_text(mapping.field("session_id"@)) is None {
                Some(invalid_text("pull request session_id"@))
            } else if strict_text(mapping.field("session_id"@)) != Some(session_id) || strict_text(
                mapping.field("url"@),
            ) is None || strict_text(mapping.field("state"@)) is None || mapping.natural_at("updated_at"@) is None {
                Some("GitHub durable state has an invalid pull request mapping"@)
            } else if members.contains_key("remote"@) && strict_text(mapping.field("remote"@)) is None {
                Some("GitHub durable state has invalid pull request remote"@)
            } else if members.contains_key("branch"@) && strict_text(mapping.field("branch"@)) is None {
                Some("GitHub durable state has invalid pull request branch"@)
            } else {
                None
            },
            _ => Some("GitHub durable state pull request must be an object"@),
        }
    }
}

/// Whether the mapping of a session is at fault.
pub open spec fn faulty(mappings: Map<Seq<char>, JsonView>, session_id: Seq<char>) -> bool {
    mappings.contains_key(session_id) && mapping_fault(session_id, mappings[session_id]) is Some
}

/// Whether `session_id` is the first session, in the order of the keys, whose mapping is at fault.
pub open spec fn first_faulty(mappings: Map<Seq<char>, JsonView>, session_id: Seq<char>) -> bool {
    faulty(mappings, session_id) && forall|earlier: Seq<char>| #[trigger]
        faulty(mappings, earlier) ==> !text_before(earlier, session_id)
}

/// What is wrong with the mappings: the fault of the first one that has any.
pub open spec fn mappings_fault(mappings: Map<Seq<char>, JsonView>) -> Option<Seq<char>> {
    if exists|session_id: Seq<char>| faulty(mappings, session_id) {
        let first = choose|session_id: Seq<char>| first_faulty(mappings, session_id);
        mapping_fault(first, mappings[first])
    } else {
        None
    }
}

/// The members of a ledger.
pub open spec fn ledger_keys() -> Seq<Seq<char>> {
    seq![
        "status"@,
        "attempt_id"@,
        "started_at"@,
        "finished_at"@,
        "checked"@,
        "recovered_attempt_id"@,
        "recovered_at"@,
        "error"@,
    ]
}

/// Whether the status of a ledger is one that it may have.
pub open spec fn known_status(status: Option<Seq<char>>) -> bool {
    status == Some("idle"@) || status == Some("running"@) || status == Some("failed"@)
}

/// What is wrong with a ledger.
pub open spec fn ledger_fault(ledger: JsonView) -> Option<Seq<char>> {
    match ledger {
        JsonView::Object(members) => if keys_fault(members, ledger_keys()) is Some {
            keys_fault(members, ledger_keys())
        } else if !known_status(ledger.text_at("status"@)) || ledger.natural_at("checked"@) is None {
            Some("GitHub durable state has invalid reconciliation status"@)
        } else if !null_or_text(ledger.field("attempt_id"@)) {
            Some(invalid_text("attempt_id"@))
        } else if !null_or_text(ledger.field("recovered_attempt_id"@)) {
            Some(invalid_text("recovered_attempt_id"@))
        } else if !null_or_text(ledger.field("error"@)) {
            Some(invalid_text("error"@))
        } else if !null_or_natural(ledger.field("started_at"@)) {
            Some(invalid_text("started_at"@))
        } else if !null_or_natural(ledger.field("finished_at"@)) {
            Some(invalid_text("finished_at"@))
        } else if !null_or_natural(ledger.field("recovered_at"@)) {
            Some(invalid_text("recovered_at"@))
        } else {
            None
        },
        _ => Some("GitHub durable state reconciliation must be an object"@),
    }
}

/// The members of the document.
pub open spec fn document_keys() -> Seq<Seq<char>> {
    seq!["version"@, "pull_requests"@, "reconciliation"@]
}

/// What is wrong with a document; `None` for one that can be used.
pub open spec fn state_fault(state: JsonView) -> Option<Seq<char>> {
    match state {
        JsonView::Object(members) => if keys_fault(members, document_keys()) is Some {
            keys_fault(members, document_keys())
        } else if state.natural_at("version"@) != Some(STATE_VERSION) {
            Some("unsupported GitHub durable state version"@)
        } else {
            match members["pull_requests"@] {
                JsonView::Object(mappings) => if mappings_fault(mappings) is Some {
                    mappings_fault(mappings)
                } else {
                    ledger_fault(members["reconciliation"@])
                },
                _ => Some("GitHub durable state pull_requests must be an object"@),
            }
        },
        _ => Some("GitHub durable state must be a JSON object"@),
    }
}

/// Checks the pull request that is mapped to a session.
fn check_mapping(session_id: &str, mapping: &Json) -> (outcome: Result<(), RequestError>)
    ensures
        result_view(outcome) == verdict(mapping_fault(session_id@, mapping@)),
{
    if is_blank(session_id) {
        return Err(RequestError::message("GitHub durable state has an empty session id"));
    }
    let object = match mapping {
        Json::Object(object) => object,
        _ => {
            return Err(RequestError::message("GitHub durable state pull request must be an object"));
        },
    };
    let keys: Vec<&str> = vec!["session_id", "url", "state", "remote", "branch", "updated_at"];
    assert(parts_view(keys@) =~= mapping_keys());
    if any_unknown(object, &keys) {
        return Err(
            RequestError::message("GitHub durable state pull request contains unknown fields"),
        );
    }
    let named = match strict_string(mapping.get("session_id"), "pull request session_id") {
        Ok(named) => named,
        Err(error) => {
            return Err(error);
        },
    };
    if !same_text(named.as_str(), session_id) || strict_string(mapping.get("url"), "pull request url").is_err()
        || strict_string(mapping.get("state"), "pull request state").is_err() || mapping.natural_at(
        "updated_at",
    ).is_none() {
        return Err(
            RequestError::message("GitHub durable state has an invalid pull request mapping"),
        );
    }
    if object.get("remote").is_some() && strict_string(mapping.get("remote"), "pull request remote").is_err() {
        return Err(RequestError::message("GitHub durable state has invalid pull request remote"));
    }
    if object.get("branch").is_some() && strict_string(mapping.get("branch"), "pull request branch").is_err() {
        return Err(RequestError::message("GitHub durable state has invalid pull request branch"));
    }
    Ok(())
}

pub(crate) proof fn lemma_first_faulty(mappings: Map<Seq<char>, JsonView>, first: Seq<char>)
    requires
        first_faulty(mappings, first),
    ensures
        mappings_fault(mappings) == mapping_fault(first, mappings[first]),
{
    let chosen = choose|session_id: Seq<char>| first_faulty(mappings, session_id);
    assert(first_faulty(mappings, chosen));
    lemma_text_before_total(first, chosen);
}

/// Checks the mappings in the order of their sessions.
fn check_mappings(mappings: &Object) -> (outcome: Result<(), RequestError>)
    ensures
        result_view(outcome) == verdict(mappings_fault(mappings@)),
{
    let count = mappings.len();
    let mut i: usize = 0;
    while i < count
        invariant
            count == mappings.keys().len(),
            i <= count,
            forall|j: int, k: int|
                0 <= j < k < mappings.keys().len() ==> text_before(
                    #[trigger] mappings.keys()[j],
                    #[trigger] mappings.keys()[k],
                ),
            forall|key: Seq<char>|
                mappings@.contains_key(key) <==> #[trigger] mappings.keys().contains(key),
            forall|j: int| 0 <= j < i ==> !faulty(mappings@, #[trigger] mappings.keys()[j]),
        decreases count - i,
    {
        let (session_id, mapping) = mappings.entry(i);
        match check_mapping(session_id.as_str(), mapping) {
            Ok(()) => {},
            Err(error) => {
                proof {
                    let first = mappings.keys()[i as int];
                    assert(faulty(mappings@, first));
                    assert forall|earlier: Seq<char>| #[trigger] faulty(mappings@, earlier) implies !text_before(
                        earlier,
                        first,
                    ) by {
                        assert(mappings.keys().contains(earlier));
                        let j = choose|j: int|
                            0 <= j < mappings.keys().len() && mappings.keys()[j] == earlier;
                        if text_before(earlier, first) {
                            if j == i {
                                lemma_text_before_irreflexive(first);
                            } else if j > i {
                                lemma_text_before_transitive(earlier, first, earlier);
                                lemma_text_before_irreflexive(earlier);
                            }
                        }
                    }
                    lemma_first_faulty(mappings@, first);
                }
                return Err(error);
            },
        }
        i = i + 1;
    }
    proof {
        assert forall|session_id: Seq<char>| !faulty(mappings@, session_id) by {
            if mappings@.contains_key(session_id) {
                assert(mappings.keys().contains(session_id));
            }
        }
    }
    Ok(())
}

/// Checks a ledger.
fn check_ledger(ledger: &Json) -> (outcome: Result<(), RequestError>)
    ensures
        result_view(outcome) == verdict(ledger_fault(ledger@)),
{
    let object = match ledger {
        Json::Object(object) => object,
        _ => {
            return Err(
                RequestError::message("GitHub durable state reconciliation must be an object"),
            );
        },
    };
    let keys: Vec<&str> = vec![
        "status",
        "attempt_id",
        "started_at",
        "finished_at",
        "checked",
        "recovered_attempt_id",
        "recovered_at",
        "error",
    ];
    assert(parts_view(keys@) =~= ledger_keys());
    require_only_keys(object, &keys)?;
    let known = match ledger.text_at("status") {
        Some(status) => same_text(status, "idle") || same_text(status, "running") || same_text(
            status,
            "failed",
        ),
        None => false,
    };
    if !known || ledger.natural_at("checked").is_none() {
        return Err(RequestError::message("GitHub durable state has invalid reconciliation status"));
    }
    strict_optional_string(ledger.get("attempt_id"), "attempt_id")?;
    strict_optional_string(ledger.get("recovered_attempt_id"), "recovered_attempt_id")?;
    strict_optional_string(ledger.get("error"), "error")?;
    strict_optional_timestamp(ledger.get("started_at"), "started_at")?;
    strict_optional_timestamp(ledger.get("finished_at"), "finished_at")?;
    strict_optional_timestamp(ledger.get("recovered_at"), "recovered_at")?;
    Ok(())
}

/// Checks a document.
pub fn validate_durable_state(state: &Json) -> (outcome: Result<(), RequestError>)
    ensures
        result_view(outcome) == verdict(state_fault(state@)),
{
    let object = match state {
        Json::Object(object) => object,
        _ => {
            return Err(RequestError::message("GitHub durable state must be a JSON object"));
        },
    };
    let keys: Vec<&str> = vec!["version", "pull_requests", "reconciliation"];
    assert(parts_view(keys@) =~= document_keys());
    require_only_keys(object, &keys)?;
    assert(document_keys()[1] == "pull_requests"@ && document_keys()[2] == "reconciliation"@);
    if state.natural_at("version") != Some(STATE_VERSION) {
        return Err(RequestError::message("unsupported GitHub durable state version"));
    }
    match object.get("pull_requests") {
        Some(Json::Object(mappings)) => check_mappings(mappings)?,
        _ => {
            return Err(
                RequestError::message("GitHub durable state pull_requests must be an object"),
            );
        },
    }
    match object.get("reconciliation") {
        Some(ledger) => check_ledger(ledger),
        None => Err(RequestError::message("GitHub durable state reconciliation must be an object")),
    }
}

/// The document in the plugin settings, or the empty one where there is none.
pub open spec fn settings_state(settings: JsonView) -> JsonView {
    match settings.field(STATE_NAMESPACE@) {
        Some(state) => state,
        None => empty_state(),
    }
}

/// What is wrong with plugin settings.
pub open spec fn settings_fault(settings: JsonView) -> Option<Seq<char>> {
    if settings is Object {
        state_fault(settings_state(settings))
    } else {
        Some("plugin settings must be a JSON object"@)
    }
}

/// The document in the plugin settings. A missing one starts empty; one that is at fault is
/// refused.
pub fn durable_state_from_settings(settings: &Json) -> (state: Result<Json, RequestError>)
    ensures
        result_view(state) == (match settings_fault(settings@) {
            Some(message) => Err::<JsonView, ErrorView>(ErrorView::Message(message)),
            None => Ok(settings_state(settings@)),
        }),
{
    let state = match settings {
        Json::Object(object) => match object.get(STATE_NAMESPACE) {
            Some(state) => state.copy(),
            None => empty_durable_state(),
        },
        _ => {
            return Err(RequestError::message("plugin settings must be a JSON object"));
        },
    };
    validate_durable_state(&state)?;
    Ok(state)
}

/// The settings in a reply of the host.
pub open spec fn settings_value(response: JsonView) -> Result<JsonView, ErrorView> {
    match response.field("settings"@) {
        Some(settings) => Ok(settings),
        None => Err(ErrorView::Message("host settings response did not contain settings"@)),
    }
}

/// The settings in a reply of the host.
pub fn settings_value_from_host_response(response: &Json) -> (settings: Result<Json, RequestError>)
    ensures
        result_view(settings) == settings_value(response@),
{
    match response.get("settings") {
        Some(settings) => Ok(settings.copy()),
        None => Err(RequestError::message("host settings response did not contain settings")),
    }
}

/// The request to patch the plugin's own namespace and nothing else.
pub open spec fn patch_request(patch: JsonView) -> JsonView {
    JsonView::Object(map!["patch"@ => JsonView::Object(map![STATE_NAMESPACE@ => patch])])
}

/// The request to patch the plugin's own namespace and nothing else.
pub fn durable_state_patch_request(patch: Json) -> (request: Json)
    ensures
        request@ == patch_request(patch@),
{
    Json::member("patch", Json::member(STATE_NAMESPACE, patch))
}

/// The ledger in a settings value; one that is at fault is refused.
pub open spec fn ledger_value(value: JsonView) -> Result<JsonView, ErrorView> {
    match ledger_fault(value) {
        Some(message) => Err(ErrorView::Message(message)),
        None => Ok(value),
    }
}

/// The ledger in a settings value.
pub fn reconciliation_from_settings_value(value: Json) -> (ledger: Result<Json, RequestError>)
    ensures
        result_view(ledger) == ledger_value(value@),
{
    let state = make_document(Json::Object(Object::new()), value);
    proof {
        lemma_document_fault(Map::empty(), value@);
    }
    match validate_durable_state(&state) {
        Ok(()) => Ok(state.copy_at("reconciliation")),
        Err(error) => Err(error),
    }
}

/// A document is at fault exactly where its mappings or its ledger are.
pub proof fn lemma_document_fault(mappings: Map<Seq<char>, JsonView>, ledger: JsonView)
    ensures
        state_fault(document(JsonView::Object(mappings), ledger)) == (if mappings_fault(mappings) is Some {
            mappings_fault(mappings)
        } else {
            ledger_fault(ledger)
        }),
        document(JsonView::Object(mappings), ledger).field("reconciliation"@) == Some(ledger),
        document(JsonView::Object(mappings), ledger).field("pull_requests"@) == Some(JsonView::Object(mappings)),
{
    reveal_strlit("version");
    reveal_strlit("pull_requests");
    reveal_strlit("reconciliation");
    let state = document(JsonView::Object(mappings), ledger);
    let members = state->Object_0;
    assert(document_keys()[0] == "version"@ && document_keys()[1] == "pull_requests"@ && document_keys()[2]
        == "reconciliation"@);
    assert("version"@.len() == 7 && "pull_requests"@.len() == 13 && "reconciliation"@.len() == 14);
}

/// The pull request that is mapped to a session. The remote is recorded without credentials.
pub open spec fn mapping(
    session_id: Seq<char>,
    url: Seq<char>,
    state: Seq<char>,
    remote: Option<Seq<char>>,
    branch: Option<Seq<char>>,
    updated_at: u64,
) -> JsonView {
    let base = map![
        "session_id"@ => JsonView::Text(session_id),
        "url"@ => JsonView::Text(url),
        "state"@ => JsonView::Text(state),
    ];
    let located = match remote {
        Some(remote) => if blank(remote) {
            base
        } else {
            base.insert("remote"@, JsonView::Text(public_remote(remote)))
        },
        None => base,
    };
    let placed = match branch {
        Some(branch) => if blank(branch) {
            located
        } else {
            located.insert("branch"@, JsonView::Text(branch))
        },
        None => located,
    };
    JsonView::Object(placed.insert("updated_at"@, JsonView::Integer(updated_at as int)))
}

/// The members of a mapping have different names.
pub(crate) proof fn lemma_mapping_names()
    ensures
        "session_id"@.len() == 10 && "session_id"@[0] == 's',
        "url"@.len() == 3,
        "state"@.len() == 5,
        "remote"@.len() == 6 && "remote"@[0] == 'r',
        "branch"@.len() == 6 && "branch"@[0] == 'b',
        "updated_at"@.len() == 10 && "updated_at"@[0] == 'u',
        mapping_keys().contains("session_id"@),
        mapping_keys().contains("url"@),
        mapping_keys().contains("state"@),
        mapping_keys().contains("remote"@),
        mapping_keys().contains("branch"@),
        mapping_keys().contains("updated_at"@),
{
    reveal_strlit("session_id");
    reveal_strlit("url");
    reveal_strlit("state");
    reveal_strlit("remote");
    reveal_strlit("branch");
    reveal_strlit("updated_at");
    let keys = mapping_keys();
    assert(keys[0] == "session_id"@ && keys[1] == "url"@ && keys[2] == "state"@);
    assert(keys[3] == "remote"@ && keys[4] == "branch"@ && keys[5] == "updated_at"@);
}

/// What a mapping says of its pull request.
pub(crate) proof fn lemma_mapping_says(
    session_id: Seq<char>,
    url: Seq<char>,
    state: Seq<char>,
    remote: Option<Seq<char>>,
    branch: Option<Seq<char>>,
    updated_at: u64,
)
    ensures
        mapping(session_id, url, state, remote, branch, updated_at).text_at("state"@) == Some(state),
        mapping(session_id, url, state, remote, branch, updated_at).text_at("url"@) == Some(url),
{
    lemma_mapping_names();
}

/// Whether a mapping holds a remote with credentials.
pub open spec fn keeps_credentials(recorded: JsonView) -> bool {
    recorded.text_at("remote"@) matches Some(remote) && holds_credentials(remote)
}

/// The pull request that is mapped to a session. A blank remote or branch is left out, and so are
/// the credentials in a remote.
pub fn pr_mapping(
    session_id: &str,
    url: &str,
    pr_state: &str,
    remote: Option<&str>,
    branch: Option<&str>,
    updated_at: u64,
) -> (json: Json)
    ensures
        json@ == mapping(
            session_id@,
            url@,
            pr_state@,
            text_view(remote),
            text_view(branch),
            updated_at,
        ),
{
    let mut members = Object::new();
    members.insert("session_id".to_owned(), Json::text(session_id));
    members.insert("url".to_owned(), Json::text(url));
    members.insert("state".to_owned(), Json::text(pr_state));
    if let Some(remote) = remote {
        if !is_blank(remote) {
            members.insert("remote".to_owned(), Json::Text(without_credentials(remote)));
        }
    }
    if let Some(branch) = branch {
        if !is_blank(branch) {
            members.insert("branch".to_owned(), Json::text(branch));
        }
    }
    members.insert("updated_at".to_owned(), Json::natural(updated_at));
    Json::Object(members)
}

/// The patch that gives a session a mapping, or takes it away with `null`.
pub open spec fn mapping_patch(session_id: Seq<char>, mapping: JsonView) -> JsonView {
    JsonView::Object(map!["pull_requests"@ => JsonView::Object(map![session_id => mapping])])
}

/// The patch that gives a session a mapping, or takes it away with `null`.
pub fn pull_request_patch(session_id: &str, mapping: Json) -> (patch: Json)
    ensures
        patch@ == mapping_patch(session_id@, mapping@),
{
    Json::member("pull_requests", Json::member(session_id, mapping))
}

/// The first characters of an error message.
pub open spec fn bounded(error: Seq<char>) -> Seq<char> {
    if error.len() <= MAX_RECONCILIATION_ERROR_CHARS {
        error
    } else {
        error.take(MAX_RECONCILIATION_ERROR_CHARS as int)
    }
}

/// The first characters of an error message.
pub fn bounded_error(error: &str) -> (message: String)
    ensures
        message@ == bounded(error@),
        message@.len() <= MAX_RECONCILIATION_ERROR_CHARS,
        message@.is_prefix_of(error@),
{
    take_chars(error, MAX_RECONCILIATION_ERROR_CHARS).to_owned()
}

/// The patch that starts an attempt. An attempt that is still marked as running was interrupted,
/// and is recorded as recovered.
pub open spec fn begin_patch(
    ledger: JsonView,
    attempt_id: Seq<char>,
    started_at: u64,
) -> Map<Seq<char>, JsonView> {
    let recovered = if ledger.text_at("status"@) == Some("running"@) {
        map![
            "recovered_attempt_id"@ => ledger.field_or_null("attempt_id"@),
            "recovered_at"@ => JsonView::Integer(started_at as int),
        ]
    } else {
        Map::empty()
    };
    recovered.insert("status"@, JsonView::Text("running"@)).insert(
        "attempt_id"@,
        JsonView::Text(attempt_id),
    ).insert("started_at"@, JsonView::Integer(started_at as int)).insert(
        "finished_at"@,
        JsonView::Null,
    ).insert("checked"@, JsonView::Integer(0)).insert("error"@, JsonView::Null)
}

/// The patch that starts an attempt, or why there is none.
pub open spec fn begun(
    ledger: JsonView,
    attempt_id: Seq<char>,
    started_at: u64,
) -> Result<JsonView, ErrorView> {
    if ledger is Object {
        Ok(JsonView::Object(begin_patch(ledger, attempt_id, started_at)))
    } else {
        Err(ErrorView::Message("GitHub durable state reconciliation must be an object"@))
    }
}

/// The patch that starts an attempt.
pub fn begin_reconciliation_patch(
    reconciliation: &Json,
    attempt_id: &str,
    started_at: u64,
) -> (patch: Result<Json, RequestError>)
    ensures
        result_view(patch) == begun(reconciliation@, attempt_id@, started_at),
{
    match reconciliation {
        Json::Object(_) => {},
        _ => {
            return Err(
                RequestError::message("GitHub durable state reconciliation must be an object"),
            );
        },
    }
    let mut patch = Object::new();
    if has_text(reconciliation, "status", "running") {
        patch.insert("recovered_attempt_id".to_owned(), reconciliation.copy_at("attempt_id"));
        patch.insert("recovered_at".to_owned(), Json::natural(started_at));
    }
    patch.insert("status".to_owned(), Json::text("running"));
    patch.insert("attempt_id".to_owned(), Json::text(attempt_id));
    patch.insert("started_at".to_owned(), Json::natural(started_at));
    patch.insert("finished_at".to_owned(), Json::Null);
    patch.insert("checked".to_owned(), Json::natural(0));
    patch.insert("error".to_owned(), Json::Null);
    Ok(Json::Object(patch))
}

/// Whether a ledger says that the attempt is the one that runs.
pub open spec fn runs(ledger: JsonView, attempt_id: Seq<char>) -> bool {
    ledger.text_at("status"@) == Some("running"@) && ledger.text_at("attempt_id"@) == Some(attempt_id)
}

/// The patch that ends an attempt.
pub open spec fn finish_patch(
    status: Seq<char>,
    checked: u64,
    finished_at: u64,
    error: Option<Seq<char>>,
) -> Map<Seq<char>, JsonView> {
    map![
        "status"@ => JsonView::Text(status),
        "finished_at"@ => JsonView::Integer(finished_at as int),
        "checked"@ => JsonView::Integer(checked as int),
        "error"@ => match error {
            Some(error) => JsonView::Text(bounded(error)),
            None => JsonView::Null,
        },
    ]
}

/// The patch that ends an attempt, or why there is none: an attempt that no longer runs has been
/// superseded and changes nothing.
pub open spec fn ended(
    ledger: JsonView,
    attempt_id: Seq<char>,
    status: Seq<char>,
    checked: u64,
    finished_at: u64,
    error: Option<Seq<char>>,
) -> Result<JsonView, ErrorView> {
    if !(ledger is Object) {
        Err(ErrorView::Message("GitHub durable state reconciliation must be an object"@))
    } else if !runs(ledger, attempt_id) {
        Err(ErrorView::Message("reconciliation attempt was superseded"@))
    } else {
        Ok(JsonView::Object(finish_patch(status, checked, finished_at, error)))
    }
}

/// The patch that ends an attempt.
pub fn finish_reconciliation_patch(
    reconciliation: &Json,
    attempt_id: &str,
    status: &str,
    checked: u64,
    finished_at: u64,
    error: Option<&str>,
) -> (patch: Result<Json, RequestError>)
    ensures
        result_view(patch) == ended(
            reconciliation@,
            attempt_id@,
            status@,
            checked,
            finished_at,
            text_view(error),
        ),
{
    match reconciliation {
        Json::Object(_) => {},
        _ => {
            return Err(
                RequestError::message("GitHub durable state reconciliation must be an object"),
            );
        },
    }
    if !has_text(reconciliation, "status", "running") || !has_text(
        reconciliation,
        "attempt_id",
        attempt_id,
    ) {
        return Err(RequestError::message("reconciliation attempt was superseded"));
    }
    let error = match error {
        Some(error) => Json::Text(bounded_error(error)),
        None => Json::Null,
    };
    let mut patch = Object::new();
    patch.insert("status".to_owned(), Json::text(status));
    patch.insert("finished_at".to_owned(), Json::natural(finished_at));
    patch.insert("checked".to_owned(), Json::natural(checked));
    patch.insert("error".to_owned(), error);
    Ok(Json::Object(patch))
}

} // verus!
