//! What is done with each request, and how long the adapter runs.

use vstd::prelude::*;
use crate::handlers::param;
use crate::handlers::text_param;
use crate::json::opt_tree;
use crate::json::Json;
use crate::json::JsonTree;
use crate::rpc::JsonRpcRequest;
use crate::rpc::JsonRpcResponse;
use crate::rpc::ResponseView;
use crate::table::Table;
use crate::text;

verus! {

/// What is done with a request.
pub enum Action {
    /// Nothing.
    Skip,
    /// The prompt that runs in this session is cancelled.
    Cancel { session_id: String },
    /// A reply is sent at once, after the prompt that runs in a session is cancelled.
    Reply { cancel: Option<String>, response: JsonRpcResponse },
    Initialize { id: Json },
    NewSession { id: Json },
    LoadSession { id: Json, params: Json },
    Prompt { id: Json, params: Json, session_id: String },
    SetConfigOption { id: Json, params: Json },
}

pub struct RequestView {
    pub id: Option<JsonTree>,
    pub method: Option<Seq<char>>,
    pub params: Option<JsonTree>,
}

impl View for JsonRpcRequest {
    type V = RequestView;

    open spec fn view(&self) -> RequestView {
        RequestView {
            id: opt_tree(self.id),
            method: text::opt_text(self.method),
            params: opt_tree(self.params),
        }
    }
}

pub enum ActionView {
    Skip,
    Cancel { session_id: Seq<char> },
    Reply { cancel: Option<Seq<char>>, response: ResponseView },
    Initialize { id: JsonTree },
    NewSession { id: JsonTree },
    LoadSession { id: JsonTree, params: JsonTree },
    Prompt { id: JsonTree, params: JsonTree, session_id: Seq<char> },
    SetConfigOption { id: JsonTree, params: JsonTree },
}

impl View for Action {
    type V = ActionView;

    open spec fn view(&self) -> ActionView {
        match self {
            Action::Skip => ActionView::Skip,
            Action::Cancel { session_id } => ActionView::Cancel { session_id: session_id@ },
            Action::Reply { cancel, response } => ActionView::Reply {
                cancel: text::opt_text(*cancel),
                response: response@,
            },
            Action::Initialize { id } => ActionView::Initialize { id: id@ },
            Action::NewSession { id } => ActionView::NewSession { id: id@ },
            Action::LoadSession { id, params } => ActionView::LoadSession {
                id: id@,
                params: params@,
            },
            Action::Prompt { id, params, session_id } => ActionView::Prompt {
                id: id@,
                params: params@,
                session_id: session_id@,
            },
            Action::SetConfigOption { id, params } => ActionView::SetConfigOption {
                id: id@,
                params: params@,
            },
        }
    }
}

/// The parameters of a request: an empty object where it has none.
pub open spec fn given_params(params: Option<JsonTree>) -> JsonTree {
    match params {
        Some(p) => p,
        None => JsonTree::object(),
    }
}

/// What is done with a notification: only a cancellation that names a session has an effect.
pub open spec fn notification_action(method: Option<Seq<char>>, params: JsonTree) -> ActionView {
    if method == Some("session/cancel"@) {
        match params.text_member("sessionId"@) {
            Some(session_id) => ActionView::Cancel { session_id },
            None => ActionView::Skip,
        }
    } else {
        ActionView::Skip
    }
}

/// What is done with a call of this method.
pub open spec fn call_action(id: JsonTree, method: Seq<char>, params: JsonTree) -> ActionView {
    if method == "initialize"@ {
        ActionView::Initialize { id }
    } else if method == "session/new"@ {
        ActionView::NewSession { id }
    } else if method == "session/load"@ {
        ActionView::LoadSession { id, params }
    } else if method == "session/prompt"@ {
        ActionView::Prompt { id, params, session_id: text_param(params, "sessionId"@) }
    } else if method == "session/setConfigOption"@ || method == "session/set_config_option"@ {
        ActionView::SetConfigOption { id, params }
    } else if method == "session/cancel"@ {
        ActionView::Reply {
            cancel: params.text_member("sessionId"@),
            response: ResponseView::success(id, JsonTree::object()),
        }
    } else {
        ActionView::Reply {
            cancel: None,
            response: ResponseView::failure(id, "-32601"@, "method not found: "@ + method),
        }
    }
}

/// What is done with a request: one with an id but no method is passed over.
pub open spec fn routed(request: RequestView) -> ActionView {
    let params = given_params(request.params);
    match request.id {
        None => notification_action(request.method, params),
        Some(id) => match request.method {
            Some(method) => call_action(id, method, params),
            None => ActionView::Skip,
        },
    }
}

/// The action is carried out in the background, and its end is waited for.
pub open spec fn in_background(action: ActionView) -> bool {
    match action {
        ActionView::Skip => false,
        ActionView::Cancel { .. } => false,
        ActionView::Reply { .. } => false,
        _ => true,
    }
}

/// What is done with a notification.
fn route_notification(method: Option<&str>, params: &Json) -> (r: Action)
    ensures
        r@ == notification_action(text::opt_str(method), params@),
{
    match method {
        Some(m) => {
            if text::same_text(m, "session/cancel") {
                if let Some(session_id) = params.text_member("sessionId") {
                    return Action::Cancel { session_id: session_id.to_owned() };
                }
            }
        },
        None => {},
    }
    Action::Skip
}

/// What is done with a call of this method.
fn route_call(id: Json, method: &str, params: Json) -> (r: Action)
    ensures
        r@ == call_action(id@, method@, params@),
{
    if text::same_text(method, "initialize") {
        return Action::Initialize { id };
    }
    if text::same_text(method, "session/new") {
        return Action::NewSession { id };
    }
    if text::same_text(method, "session/load") {
        return Action::LoadSession { id, params };
    }
    if text::same_text(method, "session/prompt") {
        let session_id = param(&params, "sessionId").to_owned();
        return Action::Prompt { id, params, session_id };
    }
    if text::same_text(method, "session/setConfigOption") || text::same_text(
        method,
        "session/set_config_option",
    ) {
        return Action::SetConfigOption { id, params };
    }
    if text::same_text(method, "session/cancel") {
        let cancel = text::owned_opt(params.text_member("sessionId"));
        return Action::Reply { cancel, response: JsonRpcResponse::success(id, Json::object()) };
    }
    let message = text::concat("method not found: ", method);
    Action::Reply {
        cancel: None,
        response: JsonRpcResponse::failure(id, "-32601", message.as_str()),
    }
}

/// Decides what is done with a request.
pub fn route(request: JsonRpcRequest) -> (r: Action)
    ensures
        r@ == routed(request@),
{
    let params = match request.params {
        Some(p) => p,
        None => Json::object(),
    };
    match (request.id, request.method) {
        (None, None) => Action::Skip,
        (None, Some(method)) => route_notification(Some(method.as_str()), &params),
        (Some(id), Some(method)) => route_call(id, method.as_str(), params),
        (Some(_), None) => Action::Skip,
    }
}

/// How long the adapter runs: until its input has ended and nothing is carried out in the
/// background.
pub struct EventLoop {
    pub stdin_open: bool,
    pub pending_prompts: usize,
}

/// What the adapter waits for.
pub enum Wait {
    /// Nothing more: it stops.
    Stop,
    /// A line to be written, or a request.
    Any,
    /// A line to be written.
    Output,
}

/// What comes out of the background.
pub enum Output {
    /// A line to be written.
    Line(String),
    /// One of the actions has ended.
    Finished,
    /// Nothing will come any more.
    Closed,
}

/// What comes in.
pub enum Input {
    /// A request.
    Request(JsonRpcRequest),
    /// A line that is not a request.
    Malformed,
    /// The input has ended.
    Closed,
}

/// What is done with what came out of the background.
pub enum Reaction {
    /// The line is written.
    Write(String),
    /// Nothing.
    Continue,
    /// The adapter stops.
    Stop,
}

/// What is waited for while the input is open or has ended, and so many actions are in the
/// background.
pub open spec fn awaited(stdin_open: bool, pending: nat) -> Wait {
    if stdin_open {
        Wait::Any
    } else if pending > 0 {
        Wait::Output
    } else {
        Wait::Stop
    }
}

/// What is done with what came out of the background.
pub open spec fn reaction(output: Output, stdin_open: bool) -> Reaction {
    match output {
        Output::Line(line) => Reaction::Write(line),
        Output::Finished => Reaction::Continue,
        Output::Closed => if stdin_open {
            Reaction::Continue
        } else {
            Reaction::Stop
        },
    }
}

/// The adapter stops exactly if its input has ended and nothing is in the background, or if
/// its input has ended and nothing can come out any more; every line that comes out is
/// written as it is.
pub proof fn the_adapter_stops_when_all_is_done(
    output: Output,
    line: String,
    stdin_open: bool,
    pending: nat,
)
    ensures
        awaited(stdin_open, pending) is Stop <==> !stdin_open && pending == 0,
        awaited(stdin_open, pending) is Any <==> stdin_open,
        reaction(Output::Line(line), stdin_open) == Reaction::Write(line),
        reaction(output, stdin_open) is Write <==> output is Line,
        reaction(output, stdin_open) is Stop <==> output is Closed && !stdin_open,
{
}

/// A request says its id, its method and its parameters.
pub proof fn requests_say_their_parts(request: JsonRpcRequest)
    ensures
        request@.id is Some <==> request.id is Some,
        request.id is Some ==> request@.id == Some(request.id->0@),
        request@.method is Some <==> request.method is Some,
        request.method is Some ==> request@.method == Some(request.method->0@),
        request@.params is Some <==> request.params is Some,
        request.params is Some ==> request@.params == Some(request.params->0@),
{
}

/// The number of actions in the background after one more was started or one has ended.
pub open spec fn pending_after(pending: nat, started: bool) -> nat {
    if started {
        pending + 1
    } else if pending > 0 {
        (pending - 1) as nat
    } else {
        0
    }
}

/// The number of actions in the background after all these starts and ends.
pub open spec fn pending_after_all(events: Seq<bool>) -> nat
    decreases events.len(),
{
    if events.len() == 0 {
        0
    } else {
        pending_after(pending_after_all(events.drop_last()), events.last())
    }
}

/// How many of these events are starts, or ends.
pub open spec fn count(events: Seq<bool>, started: bool) -> nat
    decreases events.len(),
{
    if events.len() == 0 {
        0
    } else if events.last() == started {
        count(events.drop_last(), started) + 1
    } else {
        count(events.drop_last(), started)
    }
}

/// Where no action ends that was not started, those in the background are those that were
/// started and have not ended; so the adapter does not stop before each of them has ended.
pub proof fn pending_actions_are_counted(events: Seq<bool>)
    requires
        forall|n: int|
            0 <= n <= events.len() ==> count(#[trigger] events.take(n), false) <= count(
                events.take(n),
                true,
            ),
    ensures
        pending_after_all(events) == count(events, true) - count(events, false),
    decreases events.len(),
{
    if events.len() > 0 {
        let before = events.drop_last();
        assert forall|n: int| 0 <= n <= before.len() implies count(
            #[trigger] before.take(n),
            false,
        ) <= count(before.take(n), true) by {
            assert(before.take(n) =~= events.take(n));
        }
        pending_actions_are_counted(before);
        assert(events.take(events.len() as int) =~= events);
    }
}

impl EventLoop {
    /// The adapter has just been started.
    pub fn new() -> (r: EventLoop)
        ensures
            r.stdin_open,
            r.pending_prompts == 0,
    {
        EventLoop { stdin_open: true, pending_prompts: 0 }
    }

    /// What to wait for.
    pub fn wait(&self) -> (r: Wait)
        ensures
            r == awaited(self.stdin_open, self.pending_prompts as nat),
    {
        if self.stdin_open {
            Wait::Any
        } else if self.pending_prompts > 0 {
            Wait::Output
        } else {
            Wait::Stop
        }
    }

    /// Takes in what came out of the background.
    pub fn output(&mut self, output: Output) -> (r: Reaction)
        ensures
            r == reaction(output, old(self).stdin_open),
            final(self).stdin_open == old(self).stdin_open,
            final(self).pending_prompts == if output is Finished {
                pending_after(old(self).pending_prompts as nat, false)
            } else {
                old(self).pending_prompts as nat
            },
    {
        match output {
            Output::Line(line) => Reaction::Write(line),
            Output::Finished => {
                if self.pending_prompts > 0 {
                    self.pending_prompts = self.pending_prompts - 1;
                }
                Reaction::Continue
            },
            Output::Closed => if self.stdin_open {
                Reaction::Continue
            } else {
                Reaction::Stop
            },
        }
    }

    /// Takes in what came in; what is done with it.
    pub fn input(&mut self, input: Input) -> (r: Action)
        requires
            old(self).pending_prompts < usize::MAX,
        ensures
            r@ == (match input {
                Input::Request(request) => routed(request@),
                _ => ActionView::Skip,
            }),
            final(self).stdin_open == (old(self).stdin_open && !(input is Closed)),
            final(self).pending_prompts == if in_background(r@) {
                pending_after(old(self).pending_prompts as nat, true)
            } else {
                old(self).pending_prompts as nat
            },
    {
        match input {
            Input::Request(request) => {
                let action = route(request);
                let counts = match &action {
                    Action::Skip => false,
                    Action::Cancel { .. } => false,
                    Action::Reply { .. } => false,
                    _ => true,
                };
                if counts {
                    self.pending_prompts = self.pending_prompts + 1;
                }
                action
            },
            Input::Malformed => Action::Skip,
            Input::Closed => {
                self.stdin_open = false;
                Action::Skip
            },
        }
    }
}

/// The prompts that can be cancelled, each by the session it runs in. A prompt is known by
/// its ticket.
pub struct RunningPrompts {
    pub tickets: Table<u64>,
}

impl View for RunningPrompts {
    type V = Map<Seq<char>, u64>;

    open spec fn view(&self) -> Map<Seq<char>, u64> {
        self.tickets@
    }
}

/// The prompts once one has begun: it takes the place of another one of its session. One
/// without a session cannot be cancelled.
pub open spec fn begun(
    running: Map<Seq<char>, u64>,
    session_id: Seq<char>,
    ticket: u64,
) -> Map<Seq<char>, u64> {
    if session_id.len() > 0 {
        running.insert(session_id, ticket)
    } else {
        running
    }
}

/// The prompts once one of this session has ended: none of the session can be cancelled any
/// more.
pub open spec fn ended(
    running: Map<Seq<char>, u64>,
    session_id: Seq<char>,
) -> Map<Seq<char>, u64> {
    if session_id.len() > 0 {
        running.remove(session_id)
    } else {
        running
    }
}

/// The prompt that a cancellation of this session reaches.
pub open spec fn reached(running: Map<Seq<char>, u64>, session_id: Seq<char>) -> Option<u64> {
    if running.contains_key(session_id) {
        Some(running[session_id])
    } else {
        None
    }
}

impl RunningPrompts {
    /// No prompt runs.
    pub fn new() -> (r: RunningPrompts)
        ensures
            r@ == Map::<Seq<char>, u64>::empty(),
    {
        RunningPrompts { tickets: Table::new() }
    }

    /// A prompt begins.
    pub fn begin(&mut self, session_id: &str, ticket: u64)
        ensures
            final(self)@ == begun(old(self)@, session_id@, ticket),
    {
        if !session_id.is_empty() {
            self.tickets.insert(session_id, ticket);
        }
    }

    /// The prompt to cancel in a session.
    pub fn cancelled(&self, session_id: &str) -> (r: Option<u64>)
        ensures
            r == reached(self@, session_id@),
    {
        match self.tickets.get(session_id) {
            Some(ticket) => Some(*ticket),
            None => None,
        }
    }

    /// A prompt of this session ends.
    pub fn end(&mut self, session_id: &str)
        ensures
            final(self)@ == ended(old(self)@, session_id@),
    {
        if !session_id.is_empty() {
            self.tickets.remove(session_id);
        }
    }
}

/// A cancellation reaches the prompt that began last in its session, until one of the
/// session has ended; the prompts of other sessions are reached as before.
pub proof fn cancellations_reach_the_latest_prompt(
    running: Map<Seq<char>, u64>,
    session_id: Seq<char>,
    ticket: u64,
    other: Seq<char>,
)
    requires
        session_id.len() > 0,
        other != session_id,
    ensures
        reached(begun(running, session_id, ticket), session_id) == Some(ticket),
        reached(ended(running, session_id), session_id) is None,
        reached(begun(running, session_id, ticket), other) == reached(running, other),
        reached(ended(running, session_id), other) == reached(running, other),
{
}

} // verus!
