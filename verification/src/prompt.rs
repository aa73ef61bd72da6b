//! Prompts: what the agent is run with, what its end is answered with, and what it leaves
//! behind in the session.

use vstd::prelude::*;
use vstd::utf8::*;
use crate::adapter::current_session;
use crate::adapter::same_but_sessions;
use crate::adapter::settled;
use crate::adapter::Adapter;
use crate::adapter::Persist;
use crate::adapter::Session;
use crate::adapter::SessionStore;
use crate::adapter::SessionView;
use crate::handlers::param;
use crate::handlers::text_param;
use crate::json::Json;
use crate::json::JsonTree;
use crate::rpc::JsonRpcResponse;
use crate::rpc::ResponseView;
use crate::stream::StreamingState;
use crate::text;

verus! {

/// What a prompt needs to be run.
pub struct PromptState {
    pub session_id: String,
    pub prompt: String,
    /// The arguments that the agent is run with.
    pub args: Vec<String>,
    /// The conversations are to be looked at before the agent is run, so that the one that
    /// it creates can be told from them.
    pub wants_snapshot: bool,
    pub conversation_id: Option<String>,
    pub step_idx: i64,
}

/// How the agent ended.
pub enum AgentExit {
    /// It exited with this status, and wrote this to its standard error.
    Exited { success: bool, status: String, stderr: Vec<u8> },
    /// Waiting for it failed with this error.
    WaitFailed(String),
}

/// What is left to do after a prompt.
pub struct PromptOutput {
    pub response: JsonRpcResponse,
    /// The conversation that the prompt is bound to and the last step that was read, where
    /// the agent was run.
    pub session_update: Option<(Option<String>, i64)>,
}

/// The texts among the blocks of a prompt.
pub open spec fn prompt_parts(blocks: Seq<JsonTree>) -> Seq<Seq<char>>
    decreases blocks.len(),
{
    if blocks.len() == 0 {
        seq![]
    } else {
        let before = prompt_parts(blocks.drop_last());
        match blocks.last().text_member("text"@) {
            Some(t) => before.push(t),
            None => before,
        }
    }
}

/// The prompt: the texts of its blocks, joined by newlines, without the white space around
/// them.
pub open spec fn prompt_text(params: JsonTree) -> Seq<char> {
    match params.get("prompt"@) {
        Some(JsonTree::Array(blocks)) => text::trim(text::join(prompt_parts(blocks), "\n"@)),
        _ => seq![],
    }
}

/// The session that a prompt runs in: a session without an id is not looked for in the
/// state file.
pub open spec fn prompt_session(
    sessions: Map<Seq<char>, SessionView>,
    store: Map<Seq<char>, SessionView>,
    id: Seq<char>,
) -> Option<SessionView> {
    if id.len() == 0 {
        current_session(sessions, Map::empty(), id)
    } else {
        current_session(sessions, store, id)
    }
}

/// An option and its value, where there is one.
pub open spec fn flag(name: Seq<char>, value: Option<Seq<char>>) -> Seq<Seq<char>> {
    match value {
        Some(v) => seq![name].push(v),
        None => seq![],
    }
}

/// The arguments that the agent is run with: the working directory, the extra ones, the
/// conversation and the model of the session, and the prompt.
pub open spec fn agent_args(
    working_dir: Seq<char>,
    extra: Option<Seq<Seq<char>>>,
    session: Option<SessionView>,
    prompt: Seq<char>,
) -> Seq<Seq<char>> {
    flag("--add-dir"@, Some(working_dir)) + (match extra {
        Some(words) => words,
        None => seq![],
    }) + (match session {
        Some(s) => flag("--conversation"@, s.conversation_id) + flag("--model"@, s.model_id),
        None => seq![],
    }) + flag("-p"@, Some(prompt))
}

/// What `shell_words::split` makes of a text: nothing where it reports an error.
pub uninterp spec fn shell_split(text: Seq<char>) -> Option<Seq<Seq<char>>>;

/// The words of the extra arguments, where there are any that can be split.
pub open spec fn extra_words(extra: Option<Seq<char>>) -> Option<Seq<Seq<char>>> {
    match extra {
        Some(e) => shell_split(e),
        None => None,
    }
}

/// A list of words that may be absent.
pub open spec fn opt_words(o: Option<Vec<String>>) -> Option<Seq<Seq<char>>> {
    match o {
        Some(words) => Some(text::texts(words@)),
        None => None,
    }
}

/// The session once a prompt in it has ended: it is bound to the conversation if it was not
/// bound before, and the last step is the one that was read if there is a conversation.
pub open spec fn updated_session(
    session: SessionView,
    bound: Option<Seq<char>>,
    step_idx: i64,
) -> SessionView {
    SessionView {
        conversation_id: match session.conversation_id {
            Some(c) => Some(c),
            None => bound,
        },
        last_step_idx: if bound is Some {
            step_idx
        } else {
            session.last_step_idx
        },
        model_id: session.model_id,
    }
}

/// What `String::from_utf8_lossy` makes of bytes.
pub uninterp spec fn utf8_lossy(bytes: Seq<u8>) -> Seq<char>;

/// The message for an agent that failed: what it wrote to its standard error or, where that
/// is empty, its status.
pub open spec fn agent_failure(status: Seq<char>, stderr: Seq<char>) -> Seq<char> {
    if stderr.len() == 0 {
        "agy exited with status: "@ + status
    } else {
        "agy failed: "@ + text::trim_end(stderr)
    }
}

/// The result of a prompt that ended for this reason.
pub open spec fn stop_result(reason: Seq<char>) -> JsonTree {
    JsonTree::object().with("stopReason"@, JsonTree::Text(reason))
}

/// The reply to a prompt: an error where waiting for the agent failed, or where it failed,
/// not cancelled, before there were updates; else the reason for which it stopped.
pub open spec fn prompt_reply(
    id: JsonTree,
    exit: AgentExit,
    was_cancelled: bool,
    had_updates: bool,
) -> ResponseView {
    match exit {
        AgentExit::WaitFailed(e) => ResponseView::failure(
            id,
            "-32000"@,
            "failed to wait for agy: "@ + e@,
        ),
        AgentExit::Exited { success, status, stderr } => if was_cancelled {
            ResponseView::success(id, stop_result("cancelled"@))
        } else if success {
            ResponseView::success(id, stop_result("end_turn"@))
        } else if had_updates {
            ResponseView::success(id, stop_result("error"@))
        } else {
            ResponseView::failure(id, "-32000"@, agent_failure(status@, utf8_lossy(stderr@)))
        },
    }
}

/// The reply to a prompt for which the agent could not be started.
pub open spec fn spawn_failure(id: JsonTree, error: Seq<char>) -> ResponseView {
    ResponseView::failure(id, "-32000"@, "failed to run agy: "@ + error)
}

/// What is written of a session after a prompt in it that is bound to this conversation.
pub open spec fn written_session(
    sessions: Map<Seq<char>, SessionView>,
    id: Seq<char>,
    conversation: Option<Seq<char>>,
    step_idx: i64,
) -> SessionView {
    SessionView {
        conversation_id: conversation,
        last_step_idx: step_idx,
        model_id: if sessions.contains_key(id) {
            sessions[id].model_id
        } else {
            None
        },
    }
}

/// `shell_words::split`: splits a text into words as a Unix shell does, and drops the error
/// where a quote is not closed. The words are a function of the text.
#[verifier::external_body]
fn split_words(text: &str) -> (r: Option<Vec<String>>)
    ensures
        opt_words(r) == shell_split(text@),
{
    shell_words::split(text).ok()
}

/// `String::from_utf8_lossy`: the text that the bytes encode, with a replacement character
/// for what is not valid UTF-8. It is a function of the bytes.
#[verifier::external_body]
fn lossy_text(bytes: &Vec<u8>) -> (r: String)
    ensures
        r@ == utf8_lossy(bytes@),
        valid_utf8(bytes@) ==> r@ == decode_utf8(bytes@),
{
    String::from_utf8_lossy(bytes).into_owned()
}

/// Adds an option and its value, where there is one.
fn push_flag(args: &mut Vec<String>, name: &str, value: Option<&str>)
    ensures
        text::texts(final(args)@) == text::texts(old(args)@) + flag(name@, text::opt_str(value)),
{
    match value {
        Some(v) => {
            args.push(name.to_owned());
            args.push(v.to_owned());
        },
        None => {},
    }
    assert(text::texts(args@) =~= text::texts(old(args)@) + flag(name@, text::opt_str(value)));
}

/// The text of an option.
fn borrowed(o: &Option<String>) -> (r: Option<&str>)
    ensures
        text::opt_str(r) == text::opt_text(*o),
{
    match o {
        Some(s) => Some(s.as_str()),
        None => None,
    }
}

/// The arguments that the agent is run with.
pub fn prompt_args(
    working_dir: &str,
    extra: &Option<Vec<String>>,
    session: Option<&Session>,
    prompt: &str,
) -> (r: Vec<String>)
    ensures
        text::texts(r@) == agent_args(
            working_dir@,
            opt_words(*extra),
            match session {
                Some(s) => Some(s@),
                None => None,
            },
            prompt@,
        ),
{
    let mut args: Vec<String> = Vec::new();
    let ghost none = Seq::<Seq<char>>::empty();
    assert(text::texts(args@) =~= none);
    push_flag(&mut args, "--add-dir", Some(working_dir));
    let ghost first = flag("--add-dir"@, Some(working_dir@));
    assert(text::texts(args@) =~= first);
    let ghost second = match opt_words(*extra) {
        Some(words) => words,
        None => none,
    };
    if let Some(words) = extra {
        let mut i: usize = 0;
        assert(second.take(0) =~= none);
        assert(first =~= first + second.take(0));
        while i < words.len()
            invariant
                i <= words@.len(),
                second == text::texts(words@),
                text::texts(args@) == first + second.take(i as int),
            decreases words@.len() - i,
        {
            let ghost before = text::texts(args@);
            args.push(words[i].clone());
            assert(text::texts(args@) =~= before.push(second[i as int]));
            assert(second.take(i + 1) =~= second.take(i as int).push(second[i as int]));
            assert(text::texts(args@) =~= first + second.take(i + 1));
            i += 1;
        }
        assert(second.take(i as int) =~= second);
    }
    assert(text::texts(args@) =~= first + second);
    let ghost third = match session {
        Some(s) => flag("--conversation"@, s@.conversation_id) + flag("--model"@, s@.model_id),
        None => none,
    };
    if let Some(s) = session {
        push_flag(&mut args, "--conversation", borrowed(&s.conversation_id));
        push_flag(&mut args, "--model", borrowed(&s.model_id));
    }
    assert(text::texts(args@) =~= first + second + third);
    push_flag(&mut args, "-p", Some(prompt));
    args
}

/// The text of a prompt.
pub fn clean_prompt(params: &Json) -> (r: String)
    ensures
        r@ == prompt_text(params@),
{
    match params.get("prompt") {
        Some(Json::Array(blocks)) => {
            let ghost all = params@.get("prompt"@)->0->Array_0;
            let mut parts: Vec<String> = Vec::new();
            let mut i: usize = 0;
            assert(text::texts(parts@) =~= Seq::<Seq<char>>::empty());
            while i < blocks.len()
                invariant
                    i <= blocks@.len(),
                    all.len() == blocks@.len(),
                    all == Json::Array(*blocks)@->Array_0,
                    text::texts(parts@) == prompt_parts(all.take(i as int)),
                decreases blocks@.len() - i,
            {
                let ghost before = text::texts(parts@);
                assert(all.take(i + 1).drop_last() =~= all.take(i as int));
                assert(all.take(i + 1).last() == blocks@[i as int]@);
                if let Some(t) = blocks[i].text_member("text") {
                    parts.push(t.to_owned());
                    assert(text::texts(parts@) =~= before.push(t@));
                }
                i += 1;
            }
            assert(all.take(i as int) =~= all);
            assert(text::texts(parts@).skip(0) =~= text::texts(parts@));
            let joined = text::joined(parts.as_slice(), 0, "\n");
            text::trimmed(joined.as_str())
        },
        _ => {
            let r = String::new();
            assert(r@ =~= Seq::<char>::empty());
            r
        },
    }
}

/// The message for an agent that failed with this status and wrote this to its standard
/// error.
pub fn failure_message(status: &str, stderr: &str) -> (r: String)
    ensures
        r@ == agent_failure(status@, stderr@),
{
    if stderr.is_empty() {
        text::concat("agy exited with status: ", status)
    } else {
        text::concat("agy failed: ", text::trimmed_end(stderr).as_str())
    }
}

/// The reply to a prompt for which the agent could not be started.
pub fn spawn_failed(id: Json, error: &str) -> (r: PromptOutput)
    ensures
        r.response@ == spawn_failure(id@, error@),
        r.session_update is None,
{
    let message = text::concat("failed to run agy: ", error);
    PromptOutput {
        response: JsonRpcResponse::failure(id, "-32000", message.as_str()),
        session_update: None,
    }
}

/// The reply to a prompt whose agent has ended, and what it leaves behind. Where the agent's
/// standard error is reported and is valid UTF-8, it is reported as it was written.
pub fn finish_prompt(
    id: Json,
    exit: &AgentExit,
    was_cancelled: bool,
    state: &StreamingState,
) -> (r: PromptOutput)
    ensures
        r.response@ == prompt_reply(id@, *exit, was_cancelled, state@.had_updates),
        match *exit {
            AgentExit::Exited { success, status, stderr } => {
                !was_cancelled && !success && !state@.had_updates && valid_utf8(stderr@) ==> {
                    &&& utf8_lossy(stderr@) == decode_utf8(stderr@)
                    &&& r.response@ == ResponseView::failure(
                        id@,
                        "-32000"@,
                        agent_failure(status@, decode_utf8(stderr@)),
                    )
                }
            },
            AgentExit::WaitFailed(_) => true,
        },
        match r.session_update {
            Some((bound, step_idx)) => {
                &&& text::opt_text(bound) == state@.conversation_id
                &&& step_idx == state@.last_step_idx
            },
            None => false,
        },
{
    let session_update = Some((text::copied_opt(&state.conversation_id), state.last_step_idx));
    let response = match exit {
        AgentExit::WaitFailed(e) => {
            let message = text::concat("failed to wait for agy: ", e.as_str());
            JsonRpcResponse::failure(id, "-32000", message.as_str())
        },
        AgentExit::Exited { success, status, stderr } => {
            if !was_cancelled && !*success && !state.had_updates {
                let stderr_text = lossy_text(stderr);
                let message = failure_message(status.as_str(), stderr_text.as_str());
                JsonRpcResponse::failure(id, "-32000", message.as_str())
            } else {
                let reason = if was_cancelled {
                    "cancelled"
                } else if *success {
                    "end_turn"
                } else {
                    "error"
                };
                let result = Json::object().with("stopReason", Json::text(reason));
                JsonRpcResponse::success(id, result)
            }
        },
    };
    PromptOutput { response, session_update }
}

impl Adapter {
    /// Gathers what a prompt needs to be run. The session is taken out of the state file
    /// first where it is not in memory.
    pub fn prepare_prompt_state(
        &mut self,
        params: &Json,
        store: &SessionStore,
        extra_args: Option<&str>,
    ) -> (r: PromptState)
        ensures
            same_but_sessions(*old(self), *final(self)),
            ({
                let id = text_param(params@, "sessionId"@);
                let session = prompt_session(old(self).sessions@, store@, id);
                &&& if id.len() > 0 && !old(self).sessions@.contains_key(id) && session is Some {
                    settled(old(self).sessions@, final(self).sessions@, id, session->0)
                } else {
                    final(self).sessions@ == old(self).sessions@
                }
                &&& r.session_id@ == id
                &&& r.prompt@ == prompt_text(params@)
                &&& text::texts(r.args@) == agent_args(
                    old(self).working_dir@,
                    extra_words(text::opt_str(extra_args)),
                    session,
                    prompt_text(params@),
                )
                &&& match session {
                    Some(s) => {
                        &&& r.wants_snapshot == (s.conversation_id is None)
                        &&& text::opt_text(r.conversation_id) == s.conversation_id
                        &&& r.step_idx == s.last_step_idx
                    },
                    None => !r.wants_snapshot && r.conversation_id is None && r.step_idx == -1,
                }
            }),
    {
        let session_id = param(params, "sessionId");
        if self.needs_restore(session_id) {
            self.restore_session_state(store, session_id);
        }
        let prompt = clean_prompt(params);
        let extra = match extra_args {
            Some(e) => split_words(e),
            None => None,
        };
        let session = self.sessions.get(session_id);
        let args = prompt_args(self.working_dir.as_str(), &extra, session, prompt.as_str());
        let (wants_snapshot, conversation_id, step_idx) = match session {
            Some(s) => (
                s.conversation_id.is_none(),
                text::copied_opt(&s.conversation_id),
                s.last_step_idx,
            ),
            None => (false, None, -1),
        };
        PromptState {
            session_id: session_id.to_owned(),
            prompt,
            args,
            wants_snapshot,
            conversation_id,
            step_idx,
        }
    }

    /// Takes into the session what a prompt in it left behind; the session to be written to
    /// the state file, where the prompt is bound to a conversation.
    pub fn apply_session_update(
        &mut self,
        session_id: &str,
        bound: &Option<String>,
        step_idx: i64,
    ) -> (r: Option<Persist>)
        ensures
            same_but_sessions(*old(self), *final(self)),
            ({
                let before = old(self).sessions@;
                let id = session_id@;
                let conversation = text::opt_text(*bound);
                &&& final(self).sessions@ == if before.contains_key(id) {
                    before.insert(id, updated_session(before[id], conversation, step_idx))
                } else {
                    before
                }
                &&& r is Some == (conversation is Some)
                &&& r is Some ==> r->0.says(
                    id,
                    written_session(before, id, conversation, step_idx),
                )
            }),
    {
        let (updated, model_id) = match self.sessions.get(session_id) {
            Some(s) => {
                let conversation_id = match &s.conversation_id {
                    Some(c) => Some(c.clone()),
                    None => text::copied_opt(bound),
                };
                let last_step_idx = if bound.is_some() {
                    step_idx
                } else {
                    s.last_step_idx
                };
                let model_id = text::copied_opt(&s.model_id);
                (
                    Some(Session { conversation_id, last_step_idx, model_id }),
                    text::copied_opt(&s.model_id),
                )
            },
            None => (None, None),
        };
        if let Some(session) = updated {
            self.sessions.insert(session_id, session);
        }
        match bound {
            Some(c) => Some(
                Persist {
                    session_id: session_id.to_owned(),
                    conversation_id: Some(c.clone()),
                    last_step_idx: step_idx,
                    model_id,
                },
            ),
            None => None,
        }
    }
}

} // verus!
