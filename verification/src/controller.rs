//! The controller: which requests are active, which calls to the host wait for their answers, and
//! what is written to the host.

use vstd::prelude::*;
use crate::codec::{MAX_DEPTH, parse_json, parsed_text, plain, reads_as, render_json, rendered_text};
use crate::dispatch::PLUGIN_ID;
use crate::error::{ErrorView, RequestError, result_view};
use crate::findings::member;
use crate::json::{Json, JsonView, Object};
use crate::promises::told;
use crate::table::Table;
use crate::text::{concat, concat3, same_text};

verus! {

/// The error code of a request that was cancelled.
pub const CANCELLATION_ERROR_CODE: i64 = -32800;

/// The error code of a request that failed otherwise.
pub const FAILURE_ERROR_CODE: i64 = -32000;

/// What comes in from the host.
#[derive(Debug, PartialEq)]
pub enum InputEvent {
    Frame(Json),
    Invalid(String),
    Closed,
}

/// What a line from the host is, from what it was parsed to.
pub fn frame_event(parsed: Result<Json, String>) -> (event: InputEvent)
    ensures
        event == (match parsed {
            Ok(frame) => InputEvent::Frame(frame),
            Err(message) => InputEvent::Invalid(message),
        }),
{
    match parsed {
        Ok(frame) => InputEvent::Frame(frame),
        Err(message) => InputEvent::Invalid(message),
    }
}

/// What a line from the host is.
pub fn read_line(line: &str) -> (event: InputEvent)
    ensures
        match parsed_text(line@) {
            Ok(frame) => event matches InputEvent::Frame(json) && json@ == frame,
            Err(message) => event matches InputEvent::Invalid(text) && text@ == message,
        },
{
    frame_event(parse_json(line))
}

/// The answer to a request that succeeded.
pub open spec fn success_frame(id: JsonView, result: JsonView) -> JsonView {
    JsonView::Object(
        map!["jsonrpc"@ => JsonView::Text("2.0"@), "id"@ => id, "result"@ => result],
    )
}

/// The answer to a request that succeeded.
pub fn success(id: Json, result: Json) -> (frame: Json)
    ensures
        frame@ == success_frame(id@, result@),
{
    let mut frame = Object::new();
    frame.insert("jsonrpc".to_owned(), Json::text("2.0"));
    frame.insert("id".to_owned(), id);
    frame.insert("result".to_owned(), result);
    Json::Object(frame)
}

/// The answer to a request that failed.
pub open spec fn failure_frame(id: JsonView, code: i64, message: Seq<char>) -> JsonView {
    JsonView::Object(
        map![
            "jsonrpc"@ => JsonView::Text("2.0"@),
            "id"@ => id,
            "error"@ => JsonView::Object(
                map![
                    "code"@ => JsonView::Integer(code as int),
                    "message"@ => JsonView::Text(message),
                ],
            ),
        ],
    )
}

/// The answer to a request that failed.
pub fn failure(id: Json, code: i64, message: &str) -> (frame: Json)
    ensures
        frame@ == failure_frame(id@, code, message@),
{
    let mut error = Object::new();
    error.insert("code".to_owned(), Json::integer(code));
    error.insert("message".to_owned(), Json::text(message));
    let mut frame = Object::new();
    frame.insert("jsonrpc".to_owned(), Json::text("2.0"));
    frame.insert("id".to_owned(), id);
    frame.insert("error".to_owned(), Json::Object(error));
    Json::Object(frame)
}

/// The answer to a request.
pub open spec fn answer_frame(id: JsonView, result: Result<JsonView, ErrorView>) -> JsonView {
    match result {
        Ok(result) => success_frame(id, result),
        Err(ErrorView::Cancelled) => failure_frame(
            id,
            CANCELLATION_ERROR_CODE,
            "request cancelled"@,
        ),
        Err(ErrorView::Message(message)) => failure_frame(id, FAILURE_ERROR_CODE, message),
    }
}

/// The answer to a request.
pub fn answer(id: Json, result: Result<Json, RequestError>) -> (frame: Json)
    ensures
        frame@ == answer_frame(id@, result_view(result)),
{
    match result {
        Ok(result) => success(id, result),
        Err(RequestError::Cancelled) => failure(id, CANCELLATION_ERROR_CODE, "request cancelled"),
        Err(RequestError::Message(message)) => failure(id, FAILURE_ERROR_CODE, message.as_str()),
    }
}

/// A call to the host.
pub open spec fn call_frame(id: Seq<char>, method: Seq<char>, params: JsonView) -> JsonView {
    JsonView::Object(
        map![
            "jsonrpc"@ => JsonView::Text("2.0"@),
            "id"@ => JsonView::Text(id),
            "method"@ => JsonView::Text(method),
            "params"@ => params,
        ],
    )
}

/// A call to the host.
fn call(id: &str, method: &str, params: Json) -> (frame: Json)
    ensures
        frame@ == call_frame(id@, method@, params@),
{
    let mut frame = Object::new();
    frame.insert("jsonrpc".to_owned(), Json::text("2.0"));
    frame.insert("id".to_owned(), Json::text(id));
    frame.insert("method".to_owned(), Json::text(method));
    frame.insert("params".to_owned(), params);
    Json::Object(frame)
}

/// The line that a frame is written as.
pub open spec fn frame_text(rendered: Seq<char>) -> Seq<char> {
    rendered + "\n"@
}

/// Whether a line is all of a frame and nothing else: it ends where the line does, and is read back
/// as the same frame where that holds no fractions and is not nested too deep to be read.
pub open spec fn carries(line: Seq<char>, frame: JsonView) -> bool {
    &&& line.len() > 0
    &&& line.last() == '\n'
    &&& !line.drop_last().contains('\n')
    &&& plain(frame, MAX_DEPTH as nat) ==> reads_as(line.drop_last(), frame)
}

/// The line that a frame is written as, from its JSON text.
pub fn line_of(rendered: &str) -> (line: String)
    ensures
        line@ == frame_text(rendered@),
{
    concat(rendered, "\n")
}

/// The line that a frame is written as.
pub fn frame_line(frame: &Json) -> (line: String)
    ensures
        line@ == frame_text(rendered_text(frame@)),
        carries(line@, frame@),
{
    proof {
        reveal_strlit("\n");
    }
    let rendered = render_json(frame);
    let line = line_of(rendered.as_str());
    assert(line@.drop_last() =~= rendered@);
    line
}

/// The key of a request: its id as JSON text.
pub fn request_key(id: &Json) -> (key: String)
    ensures
        key@ == rendered_text(id@),
{
    render_json(id)
}

/// What came back from a call to the host, given the text of the error in the answer.
pub open spec fn callback_value(
    frame: JsonView,
    error: Option<Seq<char>>,
) -> Result<JsonView, ErrorView> {
    match error {
        Some(error) => Err(ErrorView::Message("host callback failed: "@ + error)),
        None => match frame.field("result"@) {
            Some(result) => Ok(result),
            None => Err(ErrorView::Message("host callback response did not contain a result"@)),
        },
    }
}

/// What came back from a call to the host, given the text of the error in the answer.
pub fn callback_result(frame: &Json, error: Option<String>) -> (result: Result<Json, RequestError>)
    ensures
        result_view(result) == callback_value(
            frame@,
            match error {
                Some(error) => Some(error@),
                None => None,
            },
        ),
{
    match error {
        Some(error) => Err(RequestError::Message(concat("host callback failed: ", error.as_str()))),
        None => match frame.get("result") {
            Some(result) => Ok(result.copy()),
            None => Err(RequestError::message("host callback response did not contain a result")),
        },
    }
}

/// The text of the error in an answer of the host.
pub open spec fn callback_error(frame: JsonView) -> Option<Seq<char>> {
    match frame.field("error"@) {
        Some(error) => Some(rendered_text(error)),
        None => None,
    }
}

/// A call to the host that waits for its answer.
#[derive(Debug)]
pub struct Callback<S> {
    /// The key of the request that made it.
    pub owner: String,
    /// Where the answer goes.
    pub response: S,
}

/// The state of the controller. `F` is what cancels a request, `S` is where the answer to a call
/// goes: the controller hands both on and looks into neither.
#[derive(Debug)]
pub struct Controller<F, S> {
    pub active: Table<F>,
    pub callbacks: Table<Callback<S>>,
    pub stopping: bool,
    pub input_open: bool,
}

/// What the controller knows.
pub struct ControllerView<F, S> {
    pub active: Map<Seq<char>, F>,
    pub callbacks: Map<Seq<char>, Callback<S>>,
    pub stopping: bool,
    pub input_open: bool,
}

impl<F, S> View for Controller<F, S> {
    type V = ControllerView<F, S>;

    open spec fn view(&self) -> ControllerView<F, S> {
        ControllerView {
            active: self.active@,
            callbacks: self.callbacks@,
            stopping: self.stopping,
            input_open: self.input_open,
        }
    }
}

/// Where a frame goes.
pub enum Route {
    /// It answers a call to the host.
    Callback(Seq<char>),
    /// It cancels a request.
    Cancel(JsonView),
    /// It is a request.
    Start { id: JsonView, method: Seq<char>, params: JsonView },
    /// It is none of these.
    Ignored,
}

/// The method of a frame; a frame without one has the empty method.
pub open spec fn frame_method(frame: JsonView) -> Seq<char> {
    match frame.text_at("method"@) {
        Some(method) => method,
        None => ""@,
    }
}

/// The id of the request that a frame cancels.
pub open spec fn cancelled_id(frame: JsonView) -> Option<JsonView> {
    match frame.field("params"@) {
        Some(params) => params.field("id"@),
        None => None,
    }
}

/// The call to the host that a frame answers.
pub open spec fn answered_id<S>(
    frame: JsonView,
    callbacks: Map<Seq<char>, Callback<S>>,
) -> Option<Seq<char>> {
    match frame.text_at("id"@) {
        Some(id) => if callbacks.contains_key(id) {
            Some(id)
        } else {
            None
        },
        None => None,
    }
}

/// Where a frame goes.
pub open spec fn route<S>(frame: JsonView, callbacks: Map<Seq<char>, Callback<S>>) -> Route {
    match answered_id(frame, callbacks) {
        Some(id) => Route::Callback(id),
        None => if frame_method(frame) == "$/cancelRequest"@ {
            match cancelled_id(frame) {
                Some(id) => Route::Cancel(id),
                None => Route::Ignored,
            }
        } else {
            match frame.field("id"@) {
                Some(id) => Route::Start {
                    id,
                    method: frame_method(frame),
                    params: frame.field_or_null("params"@),
                },
                None => Route::Ignored,
            }
        },
    }
}

/// The state behind the answer to a call to the host: the call no longer waits.
pub open spec fn answered<F, S>(
    state: ControllerView<F, S>,
    id: Seq<char>,
) -> ControllerView<F, S> {
    ControllerView { callbacks: state.callbacks.remove(id), ..state }
}

/// The state behind the start of a request.
pub open spec fn started<F, S>(
    state: ControllerView<F, S>,
    key: Seq<char>,
    flag: F,
) -> ControllerView<F, S> {
    ControllerView { active: state.active.insert(key, flag), ..state }
}

/// The state behind a call to the host.
pub open spec fn called<F, S>(
    state: ControllerView<F, S>,
    id: Seq<char>,
    callback: Callback<S>,
) -> ControllerView<F, S> {
    ControllerView { callbacks: state.callbacks.insert(id, callback), ..state }
}

/// The calls to the host that `owner` did not make.
pub open spec fn not_owned<S>(
    callbacks: Map<Seq<char>, Callback<S>>,
    owner: Seq<char>,
) -> Map<Seq<char>, Callback<S>> {
    callbacks.restrict(Set::new(|id: Seq<char>| callbacks[id].owner@ != owner))
}

/// The state behind the end of a request: it is no longer active, none of its calls to the host
/// waits, and the end of a shutdown request stops the plugin.
pub open spec fn finished<F, S>(
    state: ControllerView<F, S>,
    key: Option<Seq<char>>,
    shutdown: bool,
) -> ControllerView<F, S> {
    let settled = match key {
        Some(key) => ControllerView {
            active: state.active.remove(key),
            callbacks: not_owned(state.callbacks, key),
            ..state
        },
        None => state,
    };
    ControllerView { stopping: state.stopping || shutdown, ..settled }
}

/// The state behind the end of the input.
pub open spec fn closed_input<F, S>(state: ControllerView<F, S>) -> ControllerView<F, S> {
    ControllerView { input_open: false, ..state }
}

/// Whether `flag` cancels the active request with the given key.
pub open spec fn cancelled_by<F, S>(state: ControllerView<F, S>, key: Seq<char>, flag: F) -> bool {
    state.active.contains_key(key) && state.active[key] == flag
}

/// Whether `flag` cancels an active request.
pub open spec fn cancels_some<F, S>(state: ControllerView<F, S>, flag: F) -> bool {
    exists|key: Seq<char>| cancelled_by(state, key, flag)
}

/// What a frame asks for.
#[derive(Debug)]
pub enum Handled<S> {
    /// To hand an answer on to the request that waits for it.
    Callback { response: S, result: Result<Json, RequestError> },
    /// To cancel the active request with this key.
    Cancel { key: String },
    /// To cancel all active requests.
    CancelAll,
    /// To say something on the standard error.
    Complain { message: String },
    /// To run a request.
    Start { key: String, id: Json, method: String, params: Json, shutdown: bool },
    /// Nothing.
    Ignored,
}

/// What a frame does to the state, and what it asks for.
pub open spec fn frame_taken_in<F, S>(
    before: ControllerView<F, S>,
    frame: JsonView,
    flag: F,
    after: ControllerView<F, S>,
    handled: Handled<S>,
) -> bool {
    match route(frame, before.callbacks) {
        Route::Callback(id) => {
            &&& after == answered(before, id)
            &&& handled matches Handled::Callback { response, result } && response
                == before.callbacks[id].response && result_view(result) == callback_value(
                frame,
                callback_error(frame),
            )
        },
        Route::Cancel(id) => {
            &&& after == before
            &&& if before.active.contains_key(rendered_text(id)) {
                handled matches Handled::Cancel { key } && key@ == rendered_text(id)
            } else {
                handled is Ignored
            }
        },
        Route::Start { id, method, params } => {
            &&& after == started(before, rendered_text(id), flag)
            &&& handled matches Handled::Start {
                key,
                id: sent_id,
                method: sent_method,
                params: sent_params,
                shutdown,
            } && key@ == rendered_text(id) && sent_id@ == id && sent_method@ == method && sent_params@
                == params && shutdown == (method == "plugin.shutdown"@)
        },
        Route::Ignored => after == before && handled is Ignored,
    }
}

/// What the requests that run tell the controller.
#[derive(Debug)]
pub enum ControllerEvent<S> {
    HostCall { call_id: String, owner: String, method: String, params: Json, response: S },
    Finished { request_key: Option<String>, id: Json, result: Result<Json, RequestError>, shutdown: bool },
}

impl<F, S> Controller<F, S> {
    /// A controller that has seen nothing yet.
    pub fn new() -> (controller: Controller<F, S>)
        ensures
            controller@ == (ControllerView::<F, S> {
                active: Map::empty(),
                callbacks: Map::empty(),
                stopping: false,
                input_open: true,
            }),
    {
        Controller {
            active: Table::new(),
            callbacks: Table::new(),
            stopping: false,
            input_open: true,
        }
    }

    /// Whether there is anything left to do: input to read, or a request that runs.
    pub fn is_running(&self) -> (running: bool)
        ensures
            running == (self@.input_open || self@.active != Map::<Seq<char>, F>::empty()),
    {
        self.input_open || !self.active.is_empty()
    }

    /// Whether the plugin was asked to stop and no request runs any more.
    pub fn is_stopped(&self) -> (stopped: bool)
        ensures
            stopped == (self@.stopping && self@.active == Map::<Seq<char>, F>::empty()),
    {
        self.stopping && self.active.is_empty()
    }

    /// Takes note that the input has ended.
    pub fn close_input(&mut self)
        ensures
            final(self)@ == closed_input(old(self)@),
    {
        self.input_open = false;
    }

    /// What cancels the request with the given key.
    pub fn flag(&self, key: &str) -> (flag: Option<&F>)
        ensures
            flag is Some <==> self@.active.contains_key(key@),
            flag matches Some(flag) ==> *flag == self@.active[key@],
    {
        self.active.get(key)
    }

    /// What cancels the active requests.
    pub fn flags(&self) -> (flags: Vec<&F>)
        ensures
            forall|key: Seq<char>| #[trigger]
                self@.active.contains_key(key) ==> flags@.contains(&self@.active[key]),
            forall|i: int| 0 <= i < flags@.len() ==> cancels_some(self@, *(#[trigger] flags@[i])),
    {
        let count: usize = self.active.len();
        let mut flags: Vec<&F> = Vec::new();
        let mut i: usize = 0;
        while i < count
            invariant
                count == self.active.keys().len(),
                i <= count,
                flags@.len() == i,
                forall|j: int|
                    0 <= j < i ==> self@.active.contains_key(#[trigger] self.active.keys()[j]) && *flags@[j]
                        == self@.active[self.active.keys()[j]],
            decreases count - i,
        {
            let (_, flag) = self.active.entry(i);
            flags.push(flag);
            i = i + 1;
        }
        proof {
            let keys = self.active.keys();
            assert forall|key: Seq<char>| #[trigger] self@.active.contains_key(key) implies flags@.contains(
                &self@.active[key],
            ) by {
                assert(keys.contains(key));
                let j = choose|j: int| 0 <= j < keys.len() && keys[j] == key;
                assert(*flags@[j] == self@.active[key]);
            }
            assert forall|j: int| 0 <= j < flags@.len() implies cancels_some(
                self@,
                *(#[trigger] flags@[j]),
            ) by {
                assert(cancelled_by(self@, keys[j], *flags@[j]));
            }
        }
        flags
    }

    /// Takes note that a request runs under a key.
    pub fn start(&mut self, key: String, flag: F)
        ensures
            final(self)@ == started(old(self)@, key@, flag),
    {
        self.active.insert(key, flag);
    }

    /// Forgets the calls to the host that a request made.
    fn forget_owned(&mut self, owner: &str)
        ensures
            final(self)@ == (ControllerView {
                callbacks: not_owned(old(self)@.callbacks, owner@),
                ..old(self)@
            }),
    {
        let ghost before = self.callbacks@;
        let mut owned: Vec<String> = Vec::new();
        let count: usize = self.callbacks.len();
        let mut i: usize = 0;
        while i < count
            invariant
                *self == *old(self),
                before == self.callbacks@,
                count == self.callbacks.keys().len(),
                i <= count,
                forall|j: int|
                    0 <= j < i && before[#[trigger] self.callbacks.keys()[j]].owner@ == owner@
                        ==> exists|k: int|
                        0 <= k < owned@.len() && #[trigger] owned@[k]@ == self.callbacks.keys()[j],
                forall|k: int| 0 <= k < owned@.len() ==> before[#[trigger] owned@[k]@].owner@ == owner@,
            decreases count - i,
        {
            let (id, callback) = self.callbacks.entry(i);
            let ghost earlier = owned@;
            if same_text(callback.owner.as_str(), owner) {
                owned.push(id.clone());
                assert(owned@[earlier.len() as int]@ == self.callbacks.keys()[i as int]);
            }
            assert forall|j: int|
                0 <= j < i + 1 && before[#[trigger] self.callbacks.keys()[j]].owner@ == owner@ implies exists|
                k: int,
            | 0 <= k < owned@.len() && #[trigger] owned@[k]@ == self.callbacks.keys()[j] by {
                if j < i {
                    let k = choose|k: int|
                        0 <= k < earlier.len() && #[trigger] earlier[k]@ == self.callbacks.keys()[j];
                    assert(owned@[k]@ == self.callbacks.keys()[j]);
                }
            }
            i = i + 1;
        }
        let ghost keys = self.callbacks.keys();
        assert(forall|key: Seq<char>| before.contains_key(key) <==> #[trigger] keys.contains(key));
        let mut k: usize = 0;
        while k < owned.len()
            invariant
                k <= owned.len(),
                self.active == old(self).active,
                self.stopping == old(self).stopping,
                self.input_open == old(self).input_open,
                forall|id: Seq<char>| #[trigger]
                    self.callbacks@.contains_key(id) <==> before.contains_key(id) && (forall|j: int|
                        0 <= j < k ==> #[trigger] owned@[j]@ != id),
                forall|id: Seq<char>| #[trigger]
                    self.callbacks@.contains_key(id) ==> self.callbacks@[id] == before[id],
            decreases owned.len() - k,
        {
            let _ = self.callbacks.remove(owned[k].as_str());
            k = k + 1;
        }
        proof {
            let target = not_owned(before, owner@);
            assert forall|id: Seq<char>| #[trigger] self.callbacks@.contains_key(id) == target.contains_key(id) by {
                if before.contains_key(id) {
                    assert(keys.contains(id));
                    let j = choose|j: int| 0 <= j < keys.len() && keys[j] == id;
                    if before[id].owner@ == owner@ {
                        assert(before[keys[j]].owner@ == owner@);
                    }
                }
            }
            assert(self.callbacks@ =~= target);
        }
    }

    /// Takes in a frame from the host. `flag` is what cancels the request that the frame may be.
    pub fn handle_input_frame(&mut self, frame: &Json, flag: F) -> (handled: Handled<S>)
        ensures
            frame_taken_in(old(self)@, frame@, flag, final(self)@, handled),
    {
        if let Some(id) = frame.text_at("id") {
            match self.callbacks.remove(id) {
                Some(callback) => {
                    let error: Option<String> = match frame.get("error") {
                        Some(error) => Some(render_json(error)),
                        None => None,
                    };
                    let result = callback_result(frame, error);
                    return Handled::Callback { response: callback.response, result };
                },
                None => {
                    assert(old(self)@.callbacks.remove(id@) =~= old(self)@.callbacks);
                },
            }
        }
        let method = match frame.text_at("method") {
            Some(method) => method,
            None => "",
        };
        if same_text(method, "$/cancelRequest") {
            if let Some(params) = frame.get("params") {
                if let Some(id) = params.get("id") {
                    let key = request_key(id);
                    if self.active.get(key.as_str()).is_some() {
                        return Handled::Cancel { key };
                    }
                }
            }
            return Handled::Ignored;
        }
        match frame.get("id") {
            Some(id) => {
                let key = request_key(id);
                self.start(key.clone(), flag);
                Handled::Start {
                    key,
                    id: id.copy(),
                    method: method.to_owned(),
                    params: frame.copy_at("params"),
                    shutdown: same_text(method, "plugin.shutdown"),
                }
            },
            None => Handled::Ignored,
        }
    }

    /// Takes in what comes in from the host. The end of the input cancels all active requests.
    pub fn handle_input(&mut self, event: InputEvent, flag: F) -> (handled: Handled<S>)
        ensures
            match event {
                InputEvent::Frame(frame) => frame_taken_in(
                    old(self)@,
                    frame@,
                    flag,
                    final(self)@,
                    handled,
                ),
                InputEvent::Invalid(error) => {
                    &&& final(self)@ == old(self)@
                    &&& handled matches Handled::Complain { message } && message@ == PLUGIN_ID@
                        + " ignored malformed JSON-RPC frame: "@ + error@
                },
                InputEvent::Closed => {
                    &&& final(self)@ == closed_input(old(self)@)
                    &&& handled is CancelAll
                },
            },
    {
        match event {
            InputEvent::Frame(frame) => self.handle_input_frame(&frame, flag),
            InputEvent::Invalid(error) => Handled::Complain {
                message: concat3(PLUGIN_ID, " ignored malformed JSON-RPC frame: ", error.as_str()),
            },
            InputEvent::Closed => {
                self.close_input();
                Handled::CancelAll
            },
        }
    }

    /// Takes in what a request tells, and gives the frame that is to be written to the host.
    pub fn controller_frame(&mut self, event: ControllerEvent<S>) -> (frame: Json)
        ensures
            match event {
                ControllerEvent::HostCall { call_id, owner, method, params, response } => {
                    &&& frame@ == call_frame(call_id@, method@, params@)
                    &&& final(self)@ == called(
                        old(self)@,
                        call_id@,
                        Callback { owner, response },
                    )
                },
                ControllerEvent::Finished { request_key, id, result, shutdown } => {
                    &&& frame@ == answer_frame(id@, result_view(result))
                    &&& final(self)@ == finished(
                        old(self)@,
                        match request_key {
                            Some(key) => Some(key@),
                            None => None,
                        },
                        shutdown,
                    )
                },
            },
    {
        match event {
            ControllerEvent::HostCall { call_id, owner, method, params, response } => {
                let frame = call(call_id.as_str(), method.as_str(), params);
                self.callbacks.insert(call_id, Callback { owner, response });
                frame
            },
            ControllerEvent::Finished { request_key, id, result, shutdown } => {
                if let Some(key) = request_key {
                    let _ = self.active.remove(key.as_str());
                    self.forget_owned(key.as_str());
                }
                if shutdown {
                    self.stopping = true;
                }
                answer(id, result)
            },
        }
    }

    /// Takes in what a request tells, and gives the line that is to be written to the host.
    pub fn handle_controller_event(&mut self, event: ControllerEvent<S>) -> (line: String)
        ensures
            match event {
                ControllerEvent::HostCall { call_id, owner, method, params, response } => {
                    &&& line@ == frame_text(rendered_text(call_frame(call_id@, method@, params@)))
                    &&& carries(line@, call_frame(call_id@, method@, params@))
                    &&& final(self)@ == called(
                        old(self)@,
                        call_id@,
                        Callback { owner, response },
                    )
                },
                ControllerEvent::Finished { request_key, id, result, shutdown } => {
                    &&& line@ == frame_text(rendered_text(answer_frame(id@, result_view(result))))
                    &&& carries(line@, answer_frame(id@, result_view(result)))
                    &&& final(self)@ == finished(
                        old(self)@,
                        match request_key {
                            Some(key) => Some(key@),
                            None => None,
                        },
                        shutdown,
                    )
                },
            },
    {
        let frame = self.controller_frame(event);
        frame_line(&frame)
    }
}

/// What a look for the answer to a call shows.
#[derive(Debug, PartialEq)]
pub enum Received {
    Nothing,
    Answer(Result<Json, RequestError>),
    Disconnected,
}

/// What to do about a call to the host.
#[derive(Debug, PartialEq)]
pub enum CallPoll {
    /// Look again later.
    Wait,
    /// Go on with this.
    Done(Result<Json, RequestError>),
}

/// What to do about a call to the host: a cancelled request no longer waits for the answer, unless
/// it may go on.
pub fn poll_call(allow_cancelled: bool, cancelled: bool, received: Received) -> (poll: CallPoll)
    ensures
        cancelled && !allow_cancelled ==> (poll matches CallPoll::Done(result) && result_view(result)
            == Err::<JsonView, ErrorView>(ErrorView::Cancelled)),
        !cancelled || allow_cancelled ==> match received {
            Received::Nothing => poll is Wait,
            Received::Answer(answer) => poll == CallPoll::Done(answer),
            Received::Disconnected => poll matches CallPoll::Done(result) && result_view(result) == Err::<
                JsonView,
                ErrorView,
            >(ErrorView::Message("request controller stopped"@)),
        },
{
    if cancelled && !allow_cancelled {
        CallPoll::Done(Err(RequestError::Cancelled))
    } else {
        match received {
            Received::Nothing => CallPoll::Wait,
            Received::Answer(answer) => CallPoll::Done(answer),
            Received::Disconnected => CallPoll::Done(
                Err(RequestError::message("request controller stopped")),
            ),
        }
    }
}

/// Every answer carries the id of its request. It has a result where the request succeeded, and an
/// error where it failed, never both; a cancelled request is told by its code.
pub proof fn law_answers_say_what_came_of_the_request(
    id: JsonView,
    result: Result<JsonView, ErrorView>,
)
    ensures
        answer_frame(id, result).field("id"@) == Some(id),
        answer_frame(id, result).field("result"@) == (match result {
            Ok(result) => Some(result),
            Err(_) => None,
        }),
        answer_frame(id, result).field("error"@) is Some <==> result is Err,
        result matches Err(error) ==> answer_frame(id, result).field_or_null("error"@).field("code"@) == Some(
            JsonView::Integer(
                if error is Cancelled {
                    CANCELLATION_ERROR_CODE as int
                } else {
                    FAILURE_ERROR_CODE as int
                },
            ),
        ),
{
    reveal_strlit("jsonrpc");
    reveal_strlit("id");
    reveal_strlit("result");
    reveal_strlit("error");
    reveal_strlit("code");
    reveal_strlit("message");
    assert("jsonrpc"@.len() == 7 && "id"@.len() == 2 && "result"@.len() == 6 && "error"@.len() == 5);
    assert("code"@.len() == 4 && "message"@.len() == 7);
}

/// A frame can be read back wherever what it is about can be, with one level less to nest in.
pub proof fn law_frames_are_as_plain_as_what_they_are_about(
    id: JsonView,
    result: Result<JsonView, ErrorView>,
    call_id: Seq<char>,
    method: Seq<char>,
    params: JsonView,
)
    requires
        plain(id, (MAX_DEPTH - 1) as nat),
        result matches Ok(shown) ==> plain(shown, (MAX_DEPTH - 1) as nat),
        plain(params, (MAX_DEPTH - 1) as nat),
    ensures
        plain(answer_frame(id, result), MAX_DEPTH as nat),
        plain(call_frame(call_id, method, params), MAX_DEPTH as nat),
{
    let depth = (MAX_DEPTH - 1) as nat;
    reveal_with_fuel(plain, 3);
    let call = call_frame(call_id, method, params)->Object_0;
    assert forall|key: Seq<char>| #[trigger] call.contains_key(key) implies plain(call[key], depth) by {}
    let frame = answer_frame(id, result)->Object_0;
    assert forall|key: Seq<char>| #[trigger] frame.contains_key(key) implies plain(frame[key], depth) by {
        if frame[key] != id && result is Err && frame[key] is Object {
            let error = frame[key]->Object_0;
            assert forall|name: Seq<char>| #[trigger] error.contains_key(name) implies plain(
                error[name],
                (depth - 1) as nat,
            ) by {}
        }
    }
}

/// Whether every call to the host that waits was made by an active request.
pub open spec fn owners_active<F, S>(state: ControllerView<F, S>) -> bool {
    forall|id: Seq<char>| #[trigger]
        state.callbacks.contains_key(id) ==> state.active.contains_key(state.callbacks[id].owner@)
}

/// As long as only active requests call the host, only active requests wait for answers: whatever
/// comes in, whatever starts and whatever ends.
pub proof fn law_only_active_requests_wait<F, S>(
    state: ControllerView<F, S>,
    id: Seq<char>,
    callback: Callback<S>,
    key: Seq<char>,
    flag: F,
    shutdown: bool,
)
    requires
        owners_active(state),
    ensures
        owners_active(answered(state, id)),
        owners_active(started(state, key, flag)),
        state.active.contains_key(callback.owner@) ==> owners_active(called(state, id, callback)),
        owners_active(finished(state, Some(key), shutdown)),
        owners_active(closed_input(state)),
{
}

/// A request that has ended is not active, and none of its calls to the host waits; all other
/// requests and calls are as they were.
pub proof fn law_ended_requests_leave_nothing<F, S>(
    state: ControllerView<F, S>,
    key: Seq<char>,
    shutdown: bool,
    other: Seq<char>,
    id: Seq<char>,
)
    ensures
        ({
            let after = finished(state, Some(key), shutdown);
            &&& after.active.contains_key(other) <==> state.active.contains_key(other) && other != key
            &&& after.active.contains_key(other) ==> after.active[other] == state.active[other]
            &&& after.callbacks.contains_key(id) <==> state.callbacks.contains_key(id)
                && state.callbacks[id].owner@ != key
            &&& after.callbacks.contains_key(id) ==> after.callbacks[id] == state.callbacks[id]
        }),
{
}

/// An answer of the host is handed on once: a second one with the same id goes to no call.
pub proof fn law_answers_are_handed_on_once<F, S>(
    state: ControllerView<F, S>,
    frame: JsonView,
    id: Seq<char>,
)
    requires
        route(frame, state.callbacks) == Route::Callback(id),
    ensures
        !(route(frame, answered(state, id).callbacks) is Callback),
{
}

/// A frame whose id is that of a call that waits answers this call. Any other frame cancels the
/// request that its parameters name, where its method is `$/cancelRequest`, and starts a request
/// under its id, where it has one. The rest is ignored.
pub proof fn law_frames_go_where_they_belong<S>(
    frame: JsonView,
    callbacks: Map<Seq<char>, Callback<S>>,
)
    ensures
        ({
            let waits = told(frame, "id"@) is Some && callbacks.contains_key(told(frame, "id"@)->Some_0);
            let cancels = told(frame, "method"@) == Some("$/cancelRequest"@);
            let named = match member(frame, "params"@) {
                Some(params) => member(params, "id"@),
                None => None,
            };
            let target = route(frame, callbacks);
            &&& waits ==> target == Route::Callback(told(frame, "id"@)->Some_0)
            &&& !waits && cancels ==> target == (match named {
                Some(id) => Route::Cancel(id),
                None => Route::Ignored,
            })
            &&& !waits && !cancels ==> target == (match member(frame, "id"@) {
                Some(id) => Route::Start {
                    id,
                    method: match told(frame, "method"@) {
                        Some(method) => method,
                        None => Seq::empty(),
                    },
                    params: match member(frame, "params"@) {
                        Some(params) => params,
                        None => JsonView::Null,
                    },
                },
                None => Route::Ignored,
            })
        }),
{
    reveal_strlit("");
    reveal_strlit("$/cancelRequest");
    assert(""@ =~= Seq::empty());
    assert("$/cancelRequest"@.len() == 15);
}

/// What is written to the host is JSON-RPC 2.0: an answer with the result, an answer with a code
/// and a message, or a call.
pub proof fn law_frames_are_json_rpc(
    id: JsonView,
    result: JsonView,
    message: Seq<char>,
    call_id: Seq<char>,
    method: Seq<char>,
    params: JsonView,
)
    ensures
        answer_frame(id, Ok(result)) == JsonView::Object(
            map!["jsonrpc"@ => JsonView::Text("2.0"@), "id"@ => id, "result"@ => result],
        ),
        answer_frame(id, Err(ErrorView::Message(message))) == JsonView::Object(
            map![
                "jsonrpc"@ => JsonView::Text("2.0"@),
                "id"@ => id,
                "error"@ => JsonView::Object(
                    map!["code"@ => JsonView::Integer(-32000), "message"@ => JsonView::Text(message)],
                ),
            ],
        ),
        answer_frame(id, Err(ErrorView::Cancelled)) == JsonView::Object(
            map![
                "jsonrpc"@ => JsonView::Text("2.0"@),
                "id"@ => id,
                "error"@ => JsonView::Object(
                    map![
                        "code"@ => JsonView::Integer(-32800),
                        "message"@ => JsonView::Text("request cancelled"@),
                    ],
                ),
            ],
        ),
        call_frame(call_id, method, params) == JsonView::Object(
            map![
                "jsonrpc"@ => JsonView::Text("2.0"@),
                "id"@ => JsonView::Text(call_id),
                "method"@ => JsonView::Text(method),
                "params"@ => params,
            ],
        ),
{
}

/// A call to the host comes to the result in the answer, or fails with the error in it.
pub proof fn law_calls_come_to_what_the_host_answered(frame: JsonView, error: Seq<char>)
    ensures
        callback_value(frame, Some(error)) == Err::<JsonView, ErrorView>(
            ErrorView::Message("host callback failed: "@ + error),
        ),
        callback_value(frame, None) == (match member(frame, "result"@) {
            Some(result) => Ok::<JsonView, ErrorView>(result),
            None => Err(ErrorView::Message("host callback response did not contain a result"@)),
        }),
        callback_error(frame) == (match member(frame, "error"@) {
            Some(error) => Some(rendered_text(error)),
            None => None,
        }),
{
}

/// Each event changes one thing: an answer takes its call away, a start adds its request, a call is
/// added to those that wait, the end of the input closes it, and the end of a shutdown request, and
/// of no other, stops the plugin. All else stays as it was.
pub proof fn law_events_change_one_thing<F, S>(
    state: ControllerView<F, S>,
    id: Seq<char>,
    callback: Callback<S>,
    key: Seq<char>,
    flag: F,
    shutdown: bool,
    other: Seq<char>,
)
    ensures
        ({
            let after = answered(state, id);
            &&& after.active == state.active && after.stopping == state.stopping && after.input_open
                == state.input_open
            &&& after.callbacks.contains_key(other) <==> state.callbacks.contains_key(other) && other != id
            &&& after.callbacks.contains_key(other) ==> after.callbacks[other] == state.callbacks[other]
        }),
        ({
            let after = started(state, key, flag);
            &&& after.callbacks == state.callbacks && after.stopping == state.stopping && after.input_open
                == state.input_open
            &&& after.active.contains_key(key) && after.active[key] == flag
            &&& other != key ==> after.active.contains_key(other) == state.active.contains_key(other)
            &&& other != key && state.active.contains_key(other) ==> after.active[other]
                == state.active[other]
        }),
        ({
            let after = called(state, id, callback);
            &&& after.active == state.active && after.stopping == state.stopping && after.input_open
                == state.input_open
            &&& after.callbacks.contains_key(id) && after.callbacks[id] == callback
            &&& other != id ==> after.callbacks.contains_key(other) == state.callbacks.contains_key(other)
            &&& other != id && state.callbacks.contains_key(other) ==> after.callbacks[other]
                == state.callbacks[other]
        }),
        ({
            let after = closed_input(state);
            &&& after.active == state.active && after.callbacks == state.callbacks && after.stopping
                == state.stopping
            &&& !after.input_open
        }),
        finished(state, Some(key), shutdown).stopping == (state.stopping || shutdown),
        finished(state, Some(key), shutdown).input_open == state.input_open,
        finished(state, None, shutdown).active == state.active,
        finished(state, None, shutdown).callbacks == state.callbacks,
        finished(state, None, shutdown).stopping == (state.stopping || shutdown),
        finished(state, None, shutdown).input_open == state.input_open,
{
}

/// A frame that answers a call hands the answer on to where this call wanted it, and the call no
/// longer waits. One that cancels an active request names it, and changes nothing. One that starts
/// a request makes it active under its id, with what cancels it, and stops the plugin at its end
/// exactly where its method is `plugin.shutdown`.
pub proof fn law_frames_are_taken_in<F, S>(
    before: ControllerView<F, S>,
    frame: JsonView,
    flag: F,
    after: ControllerView<F, S>,
    handled: Handled<S>,
)
    requires
        frame_taken_in(before, frame, flag, after, handled),
    ensures
        ({
            let waits = told(frame, "id"@) is Some && before.callbacks.contains_key(
                told(frame, "id"@)->Some_0,
            );
            let cancels = told(frame, "method"@) == Some("$/cancelRequest"@);
            let named = match member(frame, "params"@) {
                Some(params) => member(params, "id"@),
                None => None,
            };
            &&& after.stopping == before.stopping && after.input_open == before.input_open
            &&& waits ==> {
                let id = told(frame, "id"@)->Some_0;
                &&& after.active == before.active && after.callbacks == before.callbacks.remove(id)
                &&& handled matches Handled::Callback { response, result } && response
                    == before.callbacks[id].response && result_view(result) == (match member(
                    frame,
                    "error"@,
                ) {
                    Some(error) => Err::<JsonView, ErrorView>(
                        ErrorView::Message("host callback failed: "@ + rendered_text(error)),
                    ),
                    None => match member(frame, "result"@) {
                        Some(result) => Ok(result),
                        None => Err(
                            ErrorView::Message("host callback response did not contain a result"@),
                        ),
                    },
                })
            }
            &&& !waits ==> after.callbacks == before.callbacks
            &&& !waits && cancels ==> after.active == before.active && if named is Some
                && before.active.contains_key(rendered_text(named->Some_0)) {
                handled matches Handled::Cancel { key } && key@ == rendered_text(named->Some_0)
            } else {
                handled is Ignored
            }
            &&& !waits && !cancels ==> match member(frame, "id"@) {
                Some(id) => after.active == before.active.insert(rendered_text(id), flag) && (
                handled matches Handled::Start { key, id: sent, method, params, shutdown } && key@
                    == rendered_text(id) && sent@ == id && method@ == (match told(frame, "method"@) {
                    Some(method) => method,
                    None => Seq::empty(),
                }) && params@ == (match member(frame, "params"@) {
                    Some(params) => params,
                    None => JsonView::Null,
                }) && shutdown == (told(frame, "method"@) == Some("plugin.shutdown"@))),
                None => after.active == before.active && handled is Ignored,
            }
        }),
{
    reveal_strlit("");
    reveal_strlit("$/cancelRequest");
    reveal_strlit("plugin.shutdown");
    assert(""@ =~= Seq::empty());
    assert("$/cancelRequest"@.len() == 15 && "plugin.shutdown"@.len() == 15);
    assert("$/cancelRequest"@[0] == '$' && "plugin.shutdown"@[0] == 'p');
}

} // verus!
