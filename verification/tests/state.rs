use planeai_plugin_github::codec::{parse_json, render_json};
use planeai_plugin_github::error::RequestError;
use planeai_plugin_github::json::{Json, Object};
use planeai_plugin_github::state::{
    MAX_RECONCILIATION_ERROR_CHARS, begin_reconciliation_patch, bounded_error,
    durable_state_from_settings, durable_state_patch_request, empty_durable_state,
    finish_reconciliation_patch, pr_mapping, pull_request_patch,
    reconciliation_from_settings_value, require_only_keys, settings_value_from_host_response,
    strict_optional_string, strict_optional_timestamp, strict_string, validate_durable_state,
};

fn parsed_state(text: &str) -> Json {
    parse_json(text).unwrap()
}

fn state_error<T>(message: &str) -> Result<T, RequestError> {
    Err(RequestError::Message(message.to_string()))
}

fn state_at<'a>(json: &'a Json, path: &[&str]) -> &'a Json {
    let mut json = json;
    for key in path {
        json = json.get(key).unwrap();
    }
    json
}

/// The members of `target`, with those of `patch` in their place.
fn merge_json_object(target: &Json, patch: &Json) -> Json {
    let mut merged = Object::new();
    for json in [target, patch] {
        match json {
            Json::Object(object) => {
                for at in 0..object.len() {
                    let (key, value) = object.entry(at);
                    merged.insert(key.clone(), value.copy());
                }
            }
            _ => panic!("not an object"),
        }
    }
    Json::Object(merged)
}

#[test]
fn durable_state_accepts_missing_settings_and_rejects_invalid_or_incompatible_documents() {
    assert_eq!(
        durable_state_from_settings(&parsed_state("{}")).unwrap(),
        empty_durable_state()
    );
    let explicit_v1 = Json::member("github", empty_durable_state());
    assert_eq!(
        durable_state_from_settings(&explicit_v1).unwrap(),
        empty_durable_state()
    );
    for settings in [
        r#"{ "github": null }"#,
        r#"{ "github": [] }"#,
        r#"{ "github": { "version": 2, "pull_requests": {}, "reconciliation": {} } }"#,
        r#"{ "github": { "version": 1, "pull_requests": { "s1": { "session_id": "other" } }, "reconciliation": {} } }"#,
    ] {
        assert!(
            durable_state_from_settings(&parsed_state(settings)).is_err(),
            "{settings}"
        );
    }
}

#[test]
fn durable_state_patches_are_small_and_leave_unrelated_settings_host_owned() {
    let mapping = pr_mapping(
        "s1",
        "https://github.com/o/r/pull/1",
        "open",
        Some("https://github.com/o/r.git"),
        Some("topic"),
        20,
    );
    let request =
        durable_state_patch_request(Json::member("pull_requests", Json::member("s1", mapping)));
    assert_eq!(
        state_at(&request, &["patch", "github", "pull_requests", "s1"]).text_at("branch"),
        Some("topic")
    );
    assert!(render_json(&request).len() < 1024);
    assert_eq!(
        render_json(&request),
        r#"{"patch":{"github":{"pull_requests":{"s1":{"branch":"topic","remote":"https://github.com/o/r.git","session_id":"s1","state":"open","updated_at":20,"url":"https://github.com/o/r/pull/1"}}}}}"#
    );
}

#[test]
fn pull_request_mapping_patch_removes_only_the_selected_mapping() {
    let request = durable_state_patch_request(pull_request_patch("s1", Json::Null));
    assert_eq!(
        state_at(&request, &["patch", "github", "pull_requests", "s1"]),
        &Json::Null
    );
    assert_eq!(
        request,
        parsed_state(r#"{"patch": {"github": {"pull_requests": {"s1": null}}}}"#)
    );
}

#[test]
fn reconciliation_patches_recover_interruption_fence_attempts_and_bound_errors() {
    let state = empty_durable_state();
    let ledger = state.get("reconciliation").unwrap();
    let old = begin_reconciliation_patch(ledger, "old-attempt", 100).unwrap();
    let running = merge_json_object(ledger, &old);
    let new = begin_reconciliation_patch(&running, "new-attempt", 200).unwrap();
    assert_eq!(new.text_at("recovered_attempt_id"), Some("old-attempt"));
    assert_eq!(new.natural_at("recovered_at"), Some(200));
    let running = merge_json_object(&running, &new);
    assert!(finish_reconciliation_patch(&running, "old-attempt", "idle", 1, 300, None).is_err());

    let idle = finish_reconciliation_patch(&running, "new-attempt", "idle", 2, 300, None).unwrap();
    assert_eq!(idle.text_at("status"), Some("idle"));
    assert_eq!(idle.natural_at("checked"), Some(2));

    let long_error = "x".repeat(MAX_RECONCILIATION_ERROR_CHARS + 10);
    let failed = finish_reconciliation_patch(
        &running,
        "new-attempt",
        "failed",
        3,
        500,
        Some(&long_error),
    )
    .unwrap();
    assert_eq!(failed.text_at("status"), Some("failed"));
    assert_eq!(
        failed.text_at("error").unwrap().chars().count(),
        MAX_RECONCILIATION_ERROR_CHARS
    );
}

#[test]
fn begin_and_finish_patches_say_all_that_changes() {
    let state = empty_durable_state();
    let ledger = state.get("reconciliation").unwrap();
    let begin = begin_reconciliation_patch(ledger, "a", 7).unwrap();
    assert_eq!(
        begin,
        parsed_state(
            r#"{"status": "running", "attempt_id": "a", "started_at": 7, "finished_at": null,
                "checked": 0, "error": null}"#
        )
    );
    let running = merge_json_object(ledger, &begin);
    assert_eq!(reconciliation_from_settings_value(running.copy()), Ok(running.copy()));
    let finish = finish_reconciliation_patch(&running, "a", "failed", 4, 9, Some("no")).unwrap();
    assert_eq!(
        finish,
        parsed_state(r#"{"status": "failed", "finished_at": 9, "checked": 4, "error": "no"}"#)
    );
    let failed = merge_json_object(&running, &finish);
    assert_eq!(reconciliation_from_settings_value(failed.copy()), Ok(failed.copy()));
    assert_eq!(
        finish_reconciliation_patch(&failed, "a", "idle", 4, 9, None),
        state_error("reconciliation attempt was superseded")
    );
    let must_be_object = "GitHub durable state reconciliation must be an object";
    assert_eq!(begin_reconciliation_patch(&Json::Null, "a", 7), state_error(must_be_object));
    assert_eq!(
        finish_reconciliation_patch(&Json::Null, "a", "idle", 0, 0, None),
        state_error(must_be_object)
    );
}

#[test]
fn an_error_that_starts_with_white_space_only_spoils_the_ledger() {
    let state = empty_durable_state();
    let ledger = state.get("reconciliation").unwrap();
    let running = merge_json_object(ledger, &begin_reconciliation_patch(ledger, "a", 7).unwrap());
    let finish = finish_reconciliation_patch(&running, "a", "failed", 0, 9, Some("")).unwrap();
    assert_eq!(
        reconciliation_from_settings_value(merge_json_object(&running, &finish)),
        state_error("GitHub durable state has invalid error")
    );
}

#[test]
fn errors_are_cut_behind_whole_characters() {
    assert_eq!(bounded_error("short"), "short");
    assert_eq!(bounded_error(&"ä".repeat(501)), "ä".repeat(500));
}

#[test]
fn the_empty_document_is_written_out_in_full() {
    assert_eq!(
        render_json(&empty_durable_state()),
        r#"{"pull_requests":{},"reconciliation":{"attempt_id":null,"checked":0,"error":null,"finished_at":null,"recovered_at":null,"recovered_attempt_id":null,"started_at":null,"status":"idle"},"version":1}"#
    );
    assert_eq!(validate_durable_state(&empty_durable_state()), Ok(()));
}

fn document_with(pull_requests: &str, ledger: &str) -> Json {
    let mut state = Object::new();
    state.insert("version".to_string(), Json::natural(1));
    state.insert("pull_requests".to_string(), parsed_state(pull_requests));
    state.insert(
        "reconciliation".to_string(),
        merge_json_object(
            empty_durable_state().get("reconciliation").unwrap(),
            &parsed_state(ledger),
        ),
    );
    Json::Object(state)
}

#[test]
fn each_fault_of_a_document_has_its_message() {
    let cases = [
        ("3", "GitHub durable state must be a JSON object"),
        (r#"{"more": 1}"#, "GitHub durable state contains unknown fields"),
        ("{}", "GitHub durable state is missing required fields"),
        (
            r#"{"version": 1.0, "pull_requests": {}, "reconciliation": {}}"#,
            "unsupported GitHub durable state version",
        ),
        (
            r#"{"version": 1, "pull_requests": [], "reconciliation": {}}"#,
            "GitHub durable state pull_requests must be an object",
        ),
        (
            r#"{"version": 1, "pull_requests": {}, "reconciliation": 1}"#,
            "GitHub durable state reconciliation must be an object",
        ),
        (
            r#"{"version": 1, "pull_requests": {}, "reconciliation": {}}"#,
            "GitHub durable state is missing required fields",
        ),
    ];
    for (text, message) in cases {
        assert_eq!(validate_durable_state(&parsed_state(text)), state_error(message), "{text}");
    }
}

#[test]
fn each_fault_of_a_mapping_has_its_message() {
    let cases = [
        (r#"{" ": 1}"#, "GitHub durable state has an empty session id"),
        (r#"{"s": 1}"#, "GitHub durable state pull request must be an object"),
        (
            r#"{"s": {"more": 1}}"#,
            "GitHub durable state pull request contains unknown fields",
        ),
        (r#"{"s": {}}"#, "GitHub durable state has invalid pull request session_id"),
        (
            r#"{"s": {"session_id": "t"}}"#,
            "GitHub durable state has an invalid pull request mapping",
        ),
        (
            r#"{"s": {"session_id": "s", "url": "u", "state": "", "updated_at": 1}}"#,
            "GitHub durable state has an invalid pull request mapping",
        ),
        (
            r#"{"s": {"session_id": "s", "url": "u", "state": "open", "updated_at": -1}}"#,
            "GitHub durable state has an invalid pull request mapping",
        ),
        (
            r#"{"s": {"session_id": "s", "url": "u", "state": "open", "updated_at": 1, "remote": " "}}"#,
            "GitHub durable state has invalid pull request remote",
        ),
        (
            r#"{"s": {"session_id": "s", "url": "u", "state": "open", "updated_at": 1, "branch": 2}}"#,
            "GitHub durable state has invalid pull request branch",
        ),
        (
            r#"{"b": 1, "a": {}}"#,
            "GitHub durable state has invalid pull request session_id",
        ),
    ];
    for (text, message) in cases {
        assert_eq!(validate_durable_state(&document_with(text, "{}")), state_error(message), "{text}");
    }
    let good = r#"{"s": {"session_id": "s", "url": "u", "state": "open", "updated_at": 1}}"#;
    assert_eq!(validate_durable_state(&document_with(good, "{}")), Ok(()));
}

#[test]
fn each_fault_of_a_ledger_has_its_message() {
    let cases = [
        (r#"{"more": 1}"#, "GitHub durable state contains unknown fields"),
        (r#"{"status": "busy"}"#, "GitHub durable state has invalid reconciliation status"),
        (r#"{"checked": null}"#, "GitHub durable state has invalid reconciliation status"),
        (r#"{"attempt_id": ""}"#, "GitHub durable state has invalid attempt_id"),
        (r#"{"recovered_attempt_id": 1}"#, "GitHub durable state has invalid recovered_attempt_id"),
        (r#"{"error": " "}"#, "GitHub durable state has invalid error"),
        (r#"{"started_at": "1"}"#, "GitHub durable state has invalid started_at"),
        (r#"{"finished_at": -1}"#, "GitHub durable state has invalid finished_at"),
        (r#"{"recovered_at": 0.5}"#, "GitHub durable state has invalid recovered_at"),
    ];
    for (text, message) in cases {
        assert_eq!(validate_durable_state(&document_with("{}", text)), state_error(message), "{text}");
    }
    for status in ["idle", "running", "failed"] {
        let ledger = render_json(&Json::member("status", Json::text(status)));
        assert_eq!(validate_durable_state(&document_with("{}", &ledger)), Ok(()));
    }
}

#[test]
fn recorded_and_cleared_mappings_leave_a_document_usable() {
    let mapping = pr_mapping("s", "u", "open", Some(" "), None, u64::MAX);
    assert_eq!(
        mapping,
        parsed_state(
            r#"{"session_id": "s", "url": "u", "state": "open", "updated_at": 18446744073709551615}"#
        )
    );
    let text = render_json(&Json::member("s", mapping));
    assert_eq!(validate_durable_state(&document_with(&text, "{}")), Ok(()));
    let other = pr_mapping("t", "v", "merged", None, Some("b"), 2);
    let both = merge_json_object(&parsed_state(&text), &Json::member("t", other.copy()));
    assert_eq!(validate_durable_state(&document_with(&render_json(&both), "{}")), Ok(()));
    assert_eq!(both.get("t"), Some(&other));
    let cleared = render_json(&Json::member("t", other));
    assert_eq!(validate_durable_state(&document_with(&cleared, "{}")), Ok(()));
    assert_eq!(validate_durable_state(&document_with("{}", "{}")), Ok(()));
    let blank = render_json(&Json::member("s", pr_mapping("s", " ", "open", None, None, 1)));
    assert!(validate_durable_state(&document_with(&blank, "{}")).is_err());
}

#[test]
fn settings_must_be_an_object_and_replies_must_hold_settings() {
    assert_eq!(
        durable_state_from_settings(&Json::Null),
        state_error("plugin settings must be a JSON object")
    );
    assert_eq!(
        settings_value_from_host_response(&parsed_state(r#"{"settings": null}"#)),
        Ok(Json::Null)
    );
    assert_eq!(
        settings_value_from_host_response(&parsed_state("{}")),
        state_error("host settings response did not contain settings")
    );
}

#[test]
fn strict_members_are_told_apart() {
    let object = match parsed_state(r#"{"a": 1, "b": null}"#) {
        Json::Object(object) => object,
        _ => panic!("not an object"),
    };
    assert_eq!(require_only_keys(&object, &vec!["a", "b"]), Ok(()));
    assert_eq!(
        require_only_keys(&object, &vec!["a"]),
        state_error("GitHub durable state contains unknown fields")
    );
    assert_eq!(
        require_only_keys(&object, &vec!["a", "b", "c"]),
        state_error("GitHub durable state is missing required fields")
    );
    assert_eq!(strict_string(Some(&Json::text(" x ")), "f"), Ok(" x ".to_string()));
    assert_eq!(
        strict_string(Some(&Json::text("\u{2003}")), "f"),
        state_error("GitHub durable state has invalid f")
    );
    assert_eq!(strict_string(None, "f"), state_error("GitHub durable state has invalid f"));
    assert_eq!(strict_optional_string(Some(&Json::Null), "f"), Ok(()));
    assert_eq!(strict_optional_string(Some(&Json::text("x")), "f"), Ok(()));
    assert_eq!(
        strict_optional_string(None, "f"),
        state_error("GitHub durable state has invalid f")
    );
    assert_eq!(strict_optional_timestamp(Some(&Json::natural(3)), "f"), Ok(()));
    assert_eq!(
        strict_optional_timestamp(Some(&Json::integer(-3)), "f"),
        state_error("GitHub durable state has invalid f")
    );
    assert_eq!(
        strict_optional_timestamp(None, "f"),
        state_error("GitHub durable state has invalid f")
    );
}
