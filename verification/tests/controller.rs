use planeai_plugin_github::codec::parse_json;
use planeai_plugin_github::command::{CommandPoll, Program, Waited, poll_command};
use planeai_plugin_github::controller::{
    CANCELLATION_ERROR_CODE, CallPoll, Controller, ControllerEvent, Handled, InputEvent, Received,
    answer, callback_result, failure, frame_line, line_of, poll_call, read_line, request_key, success,
};
use planeai_plugin_github::dispatch::{Step, advance};
use planeai_plugin_github::error::RequestError;
use planeai_plugin_github::exchange::{Action, Reply};
use planeai_plugin_github::json::Json;

fn frame(text: &str) -> Json {
    parse_json(text).unwrap()
}

fn message(text: &str) -> RequestError {
    RequestError::Message(text.to_string())
}

/// A controller whose requests are cancelled by numbers, and whose calls are answered to numbers.
type Numbered = Controller<u32, u32>;

#[test]
fn cancellation_kills_fake_subprocess_and_returns_json_rpc_cancellation() {
    let mut controller = Numbered::new();
    let started = controller.handle_input(
        read_line(
            r#"{ "jsonrpc": "2.0", "id": "request-1", "method": "github.status", "params": { "session_id": "s1"} }"#,
        ),
        7,
    );
    let (key, id, method, params) = match started {
        Handled::Start { key, id, method, params, shutdown } => {
            assert!(!shutdown);
            (key, id, method, params)
        }
        handled => panic!("unexpected {handled:?}"),
    };
    let mut replies = vec![Reply::Cancelled(false), Reply::Cancelled(false), Reply::Sequence(1)];
    let (call_id, call_method, call_params) = match advance(&method, &params, &replies) {
        Step::Ask(Action::HostCall { id, method, params, .. }) => (id, method, params),
        step => panic!("unexpected {step:?}"),
    };
    let line = controller.handle_controller_event(ControllerEvent::HostCall {
        call_id,
        owner: key.clone(),
        method: call_method,
        params: call_params,
        response: 11,
    });
    let callback = frame(&line);
    let callback_id = callback.text_at("id").unwrap();
    assert_eq!(callback.text_at("method"), Some("host.sessions.repositoryContext"));
    let answered = controller.handle_input(
        read_line(&format!(
            r#"{{ "jsonrpc": "2.0", "id": "{callback_id}", "result": {{ "working_tree_path": "/w", "branch": "topic" }} }}"#
        )),
        8,
    );
    match answered {
        Handled::Callback { response, result } => {
            assert_eq!(response, 11);
            replies.push(Reply::Host(result));
        }
        handled => panic!("unexpected {handled:?}"),
    }
    replies.push(Reply::Cancelled(false));
    replies.push(Reply::Output(Ok("https://github.com/o/r.git\n".to_string())));
    replies.push(Reply::Cancelled(false));
    match advance(&method, &params, &replies) {
        Step::Ask(Action::Run { program, .. }) => assert_eq!(program, Program::Gh),
        step => panic!("unexpected {step:?}"),
    }
    assert_eq!(poll_command("gh", false, Waited::Running), CommandPoll::Sleep);
    let cancel = controller.handle_input(
        read_line(
            r#"{ "jsonrpc": "2.0", "method": "$/cancelRequest", "params": { "id": "request-1" } }"#,
        ),
        9,
    );
    match cancel {
        Handled::Cancel { key } => assert_eq!(controller.flag(&key), Some(&7)),
        handled => panic!("unexpected {handled:?}"),
    }
    match poll_command("gh", true, Waited::Running) {
        CommandPoll::Kill(error) => replies.push(Reply::Output(Err(error))),
        poll => panic!("unexpected {poll:?}"),
    }
    let result = match advance(&method, &params, &replies) {
        Step::Finished(result) => result,
        step => panic!("unexpected {step:?}"),
    };
    let line = controller.handle_controller_event(ControllerEvent::Finished {
        request_key: Some(key),
        id,
        result,
        shutdown: false,
    });
    let response = frame(&line);
    assert_eq!(response.text_at("id"), Some("request-1"));
    assert_eq!(
        response.get("error").unwrap().get("code"),
        Some(&Json::integer(CANCELLATION_ERROR_CODE))
    );
    assert!(controller.is_running());
    assert!(matches!(controller.handle_input(InputEvent::Closed, 10), Handled::CancelAll));
    assert!(!controller.is_running());
}

#[test]
fn frames_are_written_as_lines() {
    assert_eq!(line_of("1"), "1\n");
    assert_eq!(
        frame_line(&success(Json::natural(1), Json::Bool(true))),
        "{\"id\":1,\"jsonrpc\":\"2.0\",\"result\":true}\n"
    );
    assert_eq!(
        frame_line(&failure(Json::Null, -5, "no")),
        "{\"error\":{\"code\":-5,\"message\":\"no\"},\"id\":null,\"jsonrpc\":\"2.0\"}\n"
    );
    assert_eq!(
        frame_line(&answer(Json::text("a"), Err(message("bad")))),
        "{\"error\":{\"code\":-32000,\"message\":\"bad\"},\"id\":\"a\",\"jsonrpc\":\"2.0\"}\n"
    );
    assert_eq!(
        frame_line(&answer(Json::text("a"), Err(RequestError::Cancelled))),
        "{\"error\":{\"code\":-32800,\"message\":\"request cancelled\"},\"id\":\"a\",\"jsonrpc\":\"2.0\"}\n"
    );
    assert_eq!(
        frame_line(&answer(Json::text("a"), Ok(Json::Null))),
        "{\"id\":\"a\",\"jsonrpc\":\"2.0\",\"result\":null}\n"
    );
}

#[test]
fn one_frame_is_one_line_that_is_read_back() {
    let text = "a\nb\r\u{1}\"\\ä";
    let json = answer(Json::text(text), Err(message("two\nlines")));
    let line = frame_line(&json);
    assert!(line.ends_with('\n'));
    assert!(!line.trim_end_matches('\n').contains('\n'));
    assert_eq!(read_line(line.trim_end_matches('\n')), InputEvent::Frame(json));
    let mut nested = Json::integer(i64::MIN);
    for _ in 0..126 {
        nested = Json::Array(vec![nested]);
    }
    let deepest = success(Json::natural(u64::MAX), nested.copy());
    let line = frame_line(&deepest);
    assert_eq!(read_line(line.trim_end_matches('\n')), InputEvent::Frame(deepest));
    let deeper = success(Json::Null, Json::Array(vec![nested]));
    let line = frame_line(&deeper);
    assert!(matches!(read_line(line.trim_end_matches('\n')), InputEvent::Invalid(_)));
}

#[test]
fn keys_tell_numbers_from_texts() {
    assert_eq!(request_key(&Json::natural(1)), "1");
    assert_eq!(request_key(&Json::text("1")), "\"1\"");
}

#[test]
fn lines_that_are_no_json_are_complained_about() {
    let mut controller = Numbered::new();
    match controller.handle_input(read_line("{"), 1) {
        Handled::Complain { message } => assert_eq!(
            message,
            "github ignored malformed JSON-RPC frame: EOF while parsing an object at line 1 column 1"
        ),
        handled => panic!("unexpected {handled:?}"),
    }
    assert_eq!(read_line("1"), InputEvent::Frame(Json::natural(1)));
}

#[test]
fn frames_without_an_id_are_ignored() {
    let mut controller = Numbered::new();
    for text in [
        r#"{"method": "github.status"}"#,
        r#"{"method": "$/cancelRequest"}"#,
        r#"{"method": "$/cancelRequest", "params": {"id": 1}}"#,
        "[]",
        "null",
    ] {
        assert!(matches!(controller.handle_input_frame(&frame(text), 1), Handled::Ignored));
    }
    assert!(controller.active.is_empty());
}

#[test]
fn an_answer_is_handed_on_once_and_then_taken_for_a_request() {
    let mut controller = Numbered::new();
    controller.start("1".to_string(), 5);
    controller.handle_controller_event(ControllerEvent::HostCall {
        call_id: "call-1".to_string(),
        owner: "1".to_string(),
        method: "m".to_string(),
        params: Json::Null,
        response: 3,
    });
    let text = r#"{"id": "call-1", "error": {"code": 1}, "result": 2}"#;
    match controller.handle_input_frame(&frame(text), 6) {
        Handled::Callback { response, result } => {
            assert_eq!(response, 3);
            assert_eq!(result, Err(message("host callback failed: {\"code\":1}")));
        }
        handled => panic!("unexpected {handled:?}"),
    }
    match controller.handle_input_frame(&frame(text), 6) {
        Handled::Start { key, method, params, .. } => {
            assert_eq!(key, "\"call-1\"");
            assert_eq!(method, "");
            assert_eq!(params, Json::Null);
        }
        handled => panic!("unexpected {handled:?}"),
    }
}

#[test]
fn answers_hold_an_error_or_a_result() {
    assert_eq!(
        callback_result(&frame(r#"{"result": null}"#), None),
        Ok(Json::Null)
    );
    assert_eq!(
        callback_result(&frame("{}"), None),
        Err(message("host callback response did not contain a result"))
    );
    assert_eq!(
        callback_result(&frame(r#"{"result": 1}"#), Some("null".to_string())),
        Err(message("host callback failed: null"))
    );
}

#[test]
fn a_request_that_ends_takes_its_calls_with_it() {
    let mut controller = Numbered::new();
    controller.start("1".to_string(), 5);
    controller.start("2".to_string(), 6);
    for (call_id, owner) in [("a", "1"), ("b", "2"), ("c", "1")] {
        controller.handle_controller_event(ControllerEvent::HostCall {
            call_id: call_id.to_string(),
            owner: owner.to_string(),
            method: "m".to_string(),
            params: Json::Null,
            response: 0,
        });
    }
    controller.handle_controller_event(ControllerEvent::Finished {
        request_key: Some("1".to_string()),
        id: Json::natural(1),
        result: Ok(Json::Null),
        shutdown: false,
    });
    assert!(controller.callbacks.get("a").is_none());
    assert!(controller.callbacks.get("b").is_some());
    assert!(controller.callbacks.get("c").is_none());
    assert_eq!(controller.flag("1"), None);
    assert_eq!(controller.flags(), [&6]);
}

#[test]
fn a_shutdown_stops_the_plugin_once_no_request_runs() {
    let mut controller = Numbered::new();
    let started = controller.handle_input_frame(&frame(r#"{"id": 1, "method": "plugin.shutdown"}"#), 1);
    assert!(matches!(started, Handled::Start { shutdown: true, .. }));
    controller.start("2".to_string(), 2);
    let json = controller.controller_frame(ControllerEvent::Finished {
        request_key: Some("1".to_string()),
        id: Json::natural(1),
        result: Ok(Json::Null),
        shutdown: true,
    });
    assert_eq!(json, frame(r#"{"jsonrpc": "2.0", "id": 1, "result": null}"#));
    assert!(!controller.is_stopped());
    controller.controller_frame(ControllerEvent::Finished {
        request_key: Some("2".to_string()),
        id: Json::natural(2),
        result: Ok(Json::Null),
        shutdown: false,
    });
    assert!(controller.is_stopped());
    assert!(controller.is_running());
}

#[test]
fn a_cancelled_request_waits_for_no_answer_unless_it_may_go_on() {
    assert_eq!(
        poll_call(false, true, Received::Answer(Ok(Json::Null))),
        CallPoll::Done(Err(RequestError::Cancelled))
    );
    assert_eq!(
        poll_call(true, true, Received::Answer(Ok(Json::Null))),
        CallPoll::Done(Ok(Json::Null))
    );
    assert_eq!(poll_call(true, true, Received::Nothing), CallPoll::Wait);
    assert_eq!(poll_call(false, false, Received::Nothing), CallPoll::Wait);
    assert_eq!(
        poll_call(false, false, Received::Disconnected),
        CallPoll::Done(Err(message("request controller stopped")))
    );
}
