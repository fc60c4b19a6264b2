//! From the method of a request to what serves it.

use vstd::prelude::*;
use crate::error::{ErrorView, RequestError, result_view};
use crate::exchange::{
    Action, ActionView, Halt, HaltView, Record, Reply, ReplyView, Run, check_run, done, failed,
    followed_by, lifted, log_view, outcome_view,
};
use crate::handlers::{
    create_pull_request, create_run, defaults, defaults_run, failure_logs, link_pull_request,
    link_request_run, logs_run, mark_ready, merge_pull_request, merge_run, ready_run, status,
    status_run,
};
use crate::json::{Json, JsonView, Object, has_text, items_view};
use crate::reconcile::{reconcile, reconcile_run};
use crate::text::same_text;

verus! {

/// The id of the plugin.
pub const PLUGIN_ID: &'static str = "github";

/// The name of the plugin.
pub const PLUGIN_NAME: &'static str = "GitHub";

/// The version of the plugin.
pub const PLUGIN_VERSION: &'static str = "0.1.0";

/// The version of the host's interface that the plugin speaks.
pub const HOST_API_VERSION: &'static str = "planeai.plugin-host.v1";

/// What the plugin says of itself.
pub open spec fn identity() -> JsonView {
    JsonView::Object(
        map![
            "plugin_id"@ => JsonView::Text(PLUGIN_ID@),
            "plugin_name"@ => JsonView::Text(PLUGIN_NAME@),
            "plugin_version"@ => JsonView::Text(PLUGIN_VERSION@),
            "host_api_version"@ => JsonView::Text(HOST_API_VERSION@),
            "lifecycle_event_subscriptions"@ => JsonView::Array(Seq::empty()),
        ],
    )
}

/// The answer to a host that says which interface it speaks.
pub open spec fn greeting(params: JsonView) -> Result<JsonView, Seq<char>> {
    if params.text_at("host_api_version"@) == Some(HOST_API_VERSION@) {
        Ok(identity())
    } else {
        Err("unsupported PlaneAI plugin host API"@)
    }
}

/// `plugin.handshake`: says what the plugin is to a host that speaks the same interface.
pub fn handshake(params: &Json) -> (answer: Result<Json, String>)
    ensures
        (match answer {
            Ok(answer) => Ok::<JsonView, Seq<char>>(answer@),
            Err(message) => Err(message@),
        }) == greeting(params@),
{
    if !has_text(params, "host_api_version", HOST_API_VERSION) {
        return Err("unsupported PlaneAI plugin host API".to_owned());
    }
    let none: Vec<Json> = Vec::new();
    assert(items_view(none@) =~= Seq::empty());
    let mut answer = Object::new();
    answer.insert("plugin_id".to_owned(), Json::text(PLUGIN_ID));
    answer.insert("plugin_name".to_owned(), Json::text(PLUGIN_NAME));
    answer.insert("plugin_version".to_owned(), Json::text(PLUGIN_VERSION));
    answer.insert("host_api_version".to_owned(), Json::text(HOST_API_VERSION));
    answer.insert("lifecycle_event_subscriptions".to_owned(), Json::Array(none));
    Ok(Json::Object(answer))
}

/// The outcome of a handshake.
pub open spec fn greeted(params: JsonView) -> Result<JsonView, ErrorView> {
    match greeting(params) {
        Ok(answer) => Ok(answer),
        Err(message) => Err(ErrorView::Message(message)),
    }
}

/// What serves a method.
pub open spec fn method_run(
    method: Seq<char>,
    params: JsonView,
    log: Seq<ReplyView>,
    at: int,
) -> Run<JsonView> {
    if method == "plugin.handshake"@ {
        lifted(greeted(params), at)
    } else if method == "plugin.shutdown"@ {
        done(JsonView::Object(map!["stopping"@ => JsonView::Bool(true)]), at)
    } else if method == "github.status"@ {
        status_run(params, log, at)
    } else if method == "github.defaults"@ {
        defaults_run(params, log, at)
    } else if method == "github.create"@ {
        create_run(params, log, at)
    } else if method == "github.link"@ {
        link_request_run(params, log, at)
    } else if method == "github.merge"@ {
        merge_run(params, log, at)
    } else if method == "github.markReady"@ {
        ready_run(params, log, at)
    } else if method == "github.failureLogs"@ {
        logs_run(params, log, at)
    } else if method == "github.reconcile"@ {
        reconcile_run(log, at)
    } else {
        failed("method not found"@, at)
    }
}

/// Each method is served by a handler of its own.
pub proof fn law_each_method_has_its_handler(params: JsonView, log: Seq<ReplyView>, at: int)
    ensures
        method_run("plugin.handshake"@, params, log, at) == lifted(greeted(params), at),
        method_run("plugin.shutdown"@, params, log, at) == done(
            JsonView::Object(map!["stopping"@ => JsonView::Bool(true)]),
            at,
        ),
        method_run("github.status"@, params, log, at) == status_run(params, log, at),
        method_run("github.defaults"@, params, log, at) == defaults_run(params, log, at),
        method_run("github.create"@, params, log, at) == create_run(params, log, at),
        method_run("github.link"@, params, log, at) == link_request_run(params, log, at),
        method_run("github.merge"@, params, log, at) == merge_run(params, log, at),
        method_run("github.markReady"@, params, log, at) == ready_run(params, log, at),
        method_run("github.failureLogs"@, params, log, at) == logs_run(params, log, at),
        method_run("github.reconcile"@, params, log, at) == reconcile_run(log, at),
{
    reveal_strlit("plugin.handshake");
    reveal_strlit("plugin.shutdown");
    reveal_strlit("github.status");
    reveal_strlit("github.defaults");
    reveal_strlit("github.create");
    reveal_strlit("github.link");
    reveal_strlit("github.merge");
    reveal_strlit("github.markReady");
    reveal_strlit("github.failureLogs");
    reveal_strlit("github.reconcile");
    assert("plugin.handshake"@[7] == 'h');
    assert("plugin.shutdown"@[7] == 's' && "plugin.shutdown"@[0] == 'p');
    assert("github.status"@[7] == 's' && "github.status"@[0] == 'g');
    assert("github.defaults"@[7] == 'd');
    assert("github.create"@[7] == 'c');
    assert("github.link"@[7] == 'l');
    assert("github.merge"@[7] == 'm' && "github.merge"@[8] == 'e');
    assert("github.markReady"@[7] == 'm' && "github.markReady"@[8] == 'a');
    assert("github.failureLogs"@[7] == 'f');
    assert("github.reconcile"@[7] == 'r');
}

/// A request: one that was cancelled before it starts does nothing.
pub open spec fn request_run(
    method: Seq<char>,
    params: JsonView,
    log: Seq<ReplyView>,
    at: int,
) -> Run<JsonView> {
    followed_by(check_run(log, at), |checked: (), at: int| method_run(method, params, log, at))
}

/// Serves a request.
pub fn dispatch(method: &str, params: &Json, record: &mut Record) -> (outcome: Result<Json, Halt>)
    ensures
        final(record).follows(
            *old(record),
            outcome_view(outcome),
            request_run(method@, params@, old(record).log(), old(record).at as int),
        ),
{
    record.check_cancelled()?;
    if same_text(method, "plugin.handshake") {
        match handshake(params) {
            Ok(answer) => Ok(answer),
            Err(message) => Err(Halt::Fail(RequestError::from(message))),
        }
    } else if same_text(method, "plugin.shutdown") {
        Ok(Json::member("stopping", Json::Bool(true)))
    } else if same_text(method, "github.status") {
        status(params, record)
    } else if same_text(method, "github.defaults") {
        defaults(params, record)
    } else if same_text(method, "github.create") {
        create_pull_request(params, record)
    } else if same_text(method, "github.link") {
        link_pull_request(params, record)
    } else if same_text(method, "github.merge") {
        merge_pull_request(params, record)
    } else if same_text(method, "github.markReady") {
        mark_ready(params, record)
    } else if same_text(method, "github.failureLogs") {
        failure_logs(params, record)
    } else if same_text(method, "github.reconcile") {
        reconcile(record)
    } else {
        Err(Halt::Fail(RequestError::message("method not found")))
    }
}

/// What a request does next.
#[derive(Debug, PartialEq)]
pub enum Step {
    /// It asks for an action.
    Ask(Action),
    /// It has ended.
    Finished(Result<Json, RequestError>),
    /// A reply on record does not answer the action that was asked for.
    Stray,
}

/// What a `Step` says.
pub enum StepView {
    Ask(ActionView),
    Finished(Result<JsonView, ErrorView>),
    Stray,
}

impl View for Step {
    type V = StepView;

    open spec fn view(&self) -> StepView {
        match self {
            Step::Ask(action) => StepView::Ask(action@),
            Step::Finished(result) => StepView::Finished(result_view(*result)),
            Step::Stray => StepView::Stray,
        }
    }
}

/// What a request does next, given the replies to the actions that it has asked for.
pub open spec fn next_step(method: Seq<char>, params: JsonView, log: Seq<ReplyView>) -> StepView {
    match request_run(method, params, log, 0).outcome {
        Ok(answer) => StepView::Finished(Ok(answer)),
        Err(HaltView::Fail(error)) => StepView::Finished(Err(error)),
        Err(HaltView::Ask(action)) => StepView::Ask(action),
        Err(HaltView::Stray) => StepView::Stray,
    }
}

/// What a request does next, given the replies to the actions that it has asked for.
pub fn advance(method: &str, params: &Json, replies: &Vec<Reply>) -> (step: Step)
    ensures
        step@ == next_step(method@, params@, log_view(replies@)),
{
    let mut record = Record { replies, at: 0 };
    match dispatch(method, params, &mut record) {
        Ok(answer) => Step::Finished(Ok(answer)),
        Err(Halt::Fail(error)) => Step::Finished(Err(error)),
        Err(Halt::Ask(action)) => Step::Ask(action),
        Err(Halt::Stray) => Step::Stray,
    }
}

} // verus!
