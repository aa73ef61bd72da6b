//! What holds of the adapter as a whole: the sessions, the requests and their replies, and
//! the run of a prompt.

use vstd::prelude::*;
use crate::adapter::current_session;
use crate::adapter::evicted;
use crate::adapter::restorable;
use crate::adapter::settled;
use crate::adapter::Persist;
use crate::adapter::Session;
use crate::adapter::SessionView;
use crate::adapter::StoredSession;
use crate::dispatch::in_background;
use crate::dispatch::routed;
use crate::dispatch::ActionView;
use crate::dispatch::RequestView;
use crate::handlers::fresh_session;
use crate::handlers::opened;
use crate::handlers::text_param;
use crate::handlers::with_model;
use crate::json::lemma_added_member;
use crate::json::lemma_other_member;
use crate::json::members_count;
use crate::json::JsonTree;
use crate::paths::conversation_of;
use crate::prompt::agent_args;
use crate::prompt::agent_failure;
use crate::prompt::extra_words;
use crate::prompt::flag;
use crate::prompt::opt_words;
use crate::prompt::prompt_parts;
use crate::prompt::prompt_reply;
use crate::prompt::prompt_session;
use crate::prompt::prompt_text;
use crate::prompt::shell_split;
use crate::prompt::spawn_failure;
use crate::prompt::stop_result;
use crate::prompt::updated_session;
use crate::prompt::utf8_lossy;
use crate::prompt::written_session;
use crate::prompt::AgentExit;
use crate::rpc::replies_carry_what_is_said;
use crate::rpc::JsonRpcNotification;
use crate::rpc::JsonRpcResponse;
use crate::rpc::ResponseView;
use crate::text;
use crate::wording::joining_adds_up;

verus! {

/// A session that is written to the state file and bound to a conversation is given back
/// as it was written; one that is not bound is not given back.
pub proof fn written_sessions_are_restored(
    store: Map<Seq<char>, SessionView>,
    id: Seq<char>,
    session: SessionView,
)
    ensures
        session.conversation_id is Some ==> restorable(store.insert(id, session), id) == Some(
            session,
        ),
        session.conversation_id is None ==> restorable(store.insert(id, session), id) is None,
{
}

/// Writing a session changes nothing about the others.
pub proof fn writing_keeps_other_sessions(
    store: Map<Seq<char>, SessionView>,
    id: Seq<char>,
    session: SessionView,
    other: Seq<char>,
)
    requires
        other != id,
    ensures
        restorable(store.insert(id, session), other) == restorable(store, other),
{
}

/// Nothing is given back for an id under which nothing was written.
pub proof fn unwritten_sessions_are_not_restored(
    store: Map<Seq<char>, SessionView>,
    id: Seq<char>,
)
    requires
        !store.contains_key(id),
    ensures
        restorable(store, id) is None,
{
}

/// A session in memory is the one that counts, whatever the state file keeps; one that is
/// not in memory is what the state file gives back.
pub proof fn memory_comes_first(
    sessions: Map<Seq<char>, SessionView>,
    store: Map<Seq<char>, SessionView>,
    id: Seq<char>,
)
    ensures
        sessions.contains_key(id) ==> current_session(sessions, store, id) == Some(sessions[id]),
        !sessions.contains_key(id) ==> current_session(sessions, store, id) == restorable(
            store,
            id,
        ),
        id.len() > 0 ==> prompt_session(sessions, store, id) == current_session(
            sessions,
            store,
            id,
        ),
        id.len() == 0 && !sessions.contains_key(id) ==> prompt_session(sessions, store, id) is None,
        id.len() == 0 && sessions.contains_key(id) ==> prompt_session(sessions, store, id) == Some(
            sessions[id],
        ),
{
}

/// What is written to the state file says one session under one id: its conversation, its
/// last step and its model.
pub proof fn writes_say_one_session(
    write: Persist,
    id: Seq<char>,
    session: SessionView,
    other_id: Seq<char>,
    other: SessionView,
)
    requires
        write.says(id, session),
        write.says(other_id, other),
    ensures
        id == other_id,
        session.conversation_id == other.conversation_id,
        session.last_step_idx == other.last_step_idx,
        session.model_id == other.model_id,
{
}

/// Making room leaves fewer sessions than the limit of 64, each as it was; none leaves where
/// there is room, and else no more than have to.
pub proof fn eviction_makes_room(
    before: Map<Seq<char>, SessionView>,
    after: Map<Seq<char>, SessionView>,
)
    requires
        before.dom().finite(),
        evicted(before, after),
    ensures
        after.dom().finite(),
        after.dom().len() < 64,
        after.submap_of(before),
        before.dom().len() < 64 ==> after == before,
        before.dom().len() >= 64 ==> after.dom().len() == 63,
{
}

/// A session that was opened is there, fresh; of the others none is new and none has
/// changed; and there are no more sessions than the limit.
pub proof fn opening_a_session(
    before: Map<Seq<char>, SessionView>,
    after: Map<Seq<char>, SessionView>,
    id: Seq<char>,
)
    requires
        before.dom().finite(),
        opened(before, after, id),
    ensures
        after.contains_key(id),
        after[id] == fresh_session(),
        after.remove(id).submap_of(before),
        after.dom().len() <= 64,
        before.dom().len() < 64 ==> after == before.insert(id, fresh_session()),
        before.dom().len() >= 64 ==> after.remove(id).dom().len() >= 62,
{
    let kept = choose|kept: Map<Seq<char>, SessionView>| #[trigger]
        evicted(before, kept) && after == kept.insert(id, fresh_session());
    eviction_makes_room(before, kept);
    assert(after.dom() =~= kept.dom().insert(id));
    assert(after.remove(id).submap_of(kept));
    assert(after.remove(id).dom() =~= kept.dom().remove(id));
}

/// A session that was settled is there as it was given; of the others none is new and none
/// has changed; and there are no more sessions than the limit where there were no more
/// before.
pub proof fn settling_a_session(
    before: Map<Seq<char>, SessionView>,
    after: Map<Seq<char>, SessionView>,
    id: Seq<char>,
    session: SessionView,
)
    requires
        before.dom().finite(),
        before.dom().len() <= 64,
        settled(before, after, id, session),
    ensures
        after.contains_key(id),
        after[id] == session,
        after.remove(id).submap_of(before),
        after.dom().finite(),
        after.dom().len() <= 64,
        before.contains_key(id) || before.dom().len() < 64 ==> after == before.insert(id, session),
        before.contains_key(id) ==> after.dom() == before.dom(),
        !before.contains_key(id) && before.dom().len() == 64 ==> after.dom().len() == 64,
{
    if before.contains_key(id) {
        assert(after.dom() =~= before.dom());
    } else {
        eviction_makes_room(before, after.remove(id));
        assert(after.dom() =~= after.remove(id).dom().insert(id));
        assert(!after.remove(id).dom().contains(id));
    }
}

/// Loading a session that has just been loaded changes nothing.
pub proof fn loading_again_changes_nothing(
    before: Map<Seq<char>, SessionView>,
    after: Map<Seq<char>, SessionView>,
    again: Map<Seq<char>, SessionView>,
    id: Seq<char>,
    session: SessionView,
)
    requires
        settled(before, after, id, session),
        settled(after, again, id, session),
    ensures
        again == after,
{
    assert(after.contains_key(id) && after[id] == session);
    assert(after.insert(id, session) =~= after);
}

/// What the state file keeps of a session after a prompt is what the session says in
/// memory, unless the session is bound to another conversation than the prompt; and the
/// session is given back so, whatever leaves the memory.
pub proof fn prompts_survive_eviction(
    sessions: Map<Seq<char>, SessionView>,
    store: Map<Seq<char>, SessionView>,
    id: Seq<char>,
    conversation: Seq<char>,
    step_idx: i64,
)
    requires
        sessions.contains_key(id),
        sessions[id].conversation_id is None || sessions[id].conversation_id == Some(conversation),
    ensures
        ({
            let written = written_session(sessions, id, Some(conversation), step_idx);
            let updated = updated_session(sessions[id], Some(conversation), step_idx);
            &&& restorable(store.insert(id, written), id) == Some(updated)
            &&& updated.conversation_id == Some(conversation)
            &&& updated.last_step_idx == step_idx
            &&& updated.model_id == sessions[id].model_id
        }),
{
}

/// A session that has left the memory is still written with the conversation and the last
/// step of the prompt, and without a model.
pub proof fn evicted_sessions_are_written(
    sessions: Map<Seq<char>, SessionView>,
    store: Map<Seq<char>, SessionView>,
    id: Seq<char>,
    conversation: Seq<char>,
    step_idx: i64,
)
    requires
        !sessions.contains_key(id),
    ensures
        ({
            let written = written_session(sessions, id, Some(conversation), step_idx);
            let restored = restorable(store.insert(id, written), id);
            &&& restored is Some
            &&& restored->0.conversation_id == Some(conversation)
            &&& restored->0.last_step_idx == step_idx
            &&& restored->0.model_id is None
        }),
{
}

/// Selecting a model gives the session that model and changes nothing else about it; and the
/// model is then told to the agent.
pub proof fn selected_models_reach_the_agent(
    session: SessionView,
    model: Seq<char>,
    working_dir: Seq<char>,
    extra: Option<Seq<Seq<char>>>,
    prompt: Seq<char>,
)
    ensures
        ({
            let selected = with_model(session, model);
            let args = agent_args(working_dir, extra, Some(selected), prompt);
            &&& selected.model_id == Some(model)
            &&& selected.conversation_id == session.conversation_id
            &&& selected.last_step_idx == session.last_step_idx
            &&& args[args.len() - 4] == "--model"@
            &&& args[args.len() - 3] == model
        }),
{
    session_options_are_told(working_dir, extra, with_model(session, model), prompt);
}

/// A session that is bound stays bound to its conversation, and keeps its model.
pub proof fn bound_sessions_stay_bound(
    session: SessionView,
    bound: Option<Seq<char>>,
    step_idx: i64,
)
    ensures
        updated_session(session, bound, step_idx).model_id == session.model_id,
        session.conversation_id is Some ==> updated_session(
            session,
            bound,
            step_idx,
        ).conversation_id == session.conversation_id,
        session.conversation_id is None ==> updated_session(
            session,
            bound,
            step_idx,
        ).conversation_id == bound,
        bound is Some ==> updated_session(session, bound, step_idx).last_step_idx == step_idx,
{
}

/// A prompt that is bound to no conversation leaves the session as it was.
pub proof fn unbound_prompts_change_nothing(session: SessionView, step_idx: i64)
    ensures
        updated_session(session, None, step_idx) == session,
{
}

/// The agent is told the working directory first and the prompt last.
pub proof fn prompt_comes_last(
    working_dir: Seq<char>,
    extra: Option<Seq<Seq<char>>>,
    session: Option<SessionView>,
    prompt: Seq<char>,
)
    ensures
        ({
            let args = agent_args(working_dir, extra, session, prompt);
            &&& args.len() >= 4
            &&& args[0] == "--add-dir"@
            &&& args[1] == working_dir
            &&& args[args.len() - 2] == "-p"@
            &&& args[args.len() - 1] == prompt
        }),
{
}

/// The extra arguments stand between the working directory and the prompt, each as it is.
pub proof fn extra_arguments_stand_in_between(
    working_dir: Seq<char>,
    words: Seq<Seq<char>>,
    prompt: Seq<char>,
)
    ensures
        ({
            let args = agent_args(working_dir, Some(words), None, prompt);
            &&& args.len() == words.len() + 4
            &&& forall|i: int| 0 <= i < words.len() ==> args[i + 2] == #[trigger] words[i]
        }),
        agent_args(working_dir, None, None, prompt).len() == 4,
{
}

/// An option is told by its name and its value, whole, and not at all where it has none; so
/// the conversation and the model of a session reach the agent as they are.
pub proof fn session_options_are_told(
    working_dir: Seq<char>,
    extra: Option<Seq<Seq<char>>>,
    session: SessionView,
    prompt: Seq<char>,
)
    ensures
        ({
            let args = agent_args(working_dir, extra, Some(session), prompt);
            let base = agent_args(working_dir, extra, None, prompt).len();
            let c = session.conversation_id;
            let m = session.model_id;
            &&& args.len() == base + (if c is Some {
                2int
            } else {
                0
            }) + (if m is Some {
                2int
            } else {
                0
            })
            &&& c is Some ==> args[base - 2] == "--conversation"@ && args[base - 1] == c->0
            &&& m is Some ==> args[args.len() - 4] == "--model"@ && args[args.len() - 3] == m->0
        }),
{
}

/// The extra arguments are split as a shell does, and none are told where they cannot be.
pub proof fn extra_arguments_are_split(text: Seq<char>)
    ensures
        extra_words(Some(text)) == shell_split(text),
        extra_words(None) is None,
{
}

/// The parts of a prompt are the texts of the blocks that have one, in their order, each as
/// it is.
pub proof fn prompts_are_made_of_their_texts(blocks: Seq<JsonTree>)
    ensures
        prompt_parts(blocks) == blocks.filter_map(|b: JsonTree| b.text_member("text"@)),
    decreases blocks.len(),
{
    let f = |b: JsonTree| b.text_member("text"@);
    reveal(Seq::filter_map);
    if blocks.len() > 0 {
        prompts_are_made_of_their_texts(blocks.drop_last());
        assert(f(blocks.last()) == blocks.last().text_member("text"@));
        assert(prompt_parts(blocks) =~= blocks.filter_map(f));
    } else {
        assert(prompt_parts(blocks) =~= blocks.filter_map(f));
    }
}

/// The blocks of two prompts, one after the other, have the parts of both; and a block has
/// its text for its only part.
pub proof fn prompt_parts_add_up(a: Seq<JsonTree>, b: Seq<JsonTree>, block: JsonTree)
    ensures
        prompt_parts(a + b) == prompt_parts(a) + prompt_parts(b),
        block.text_member("text"@) is None ==> prompt_parts(seq![block]).len() == 0,
        block.text_member("text"@) is Some ==> prompt_parts(seq![block]) == seq![
            block.text_member("text"@)->0,
        ],
    decreases b.len(),
{
    let one = seq![block];
    assert(one.drop_last() =~= Seq::<JsonTree>::empty());
    assert(prompt_parts(one.drop_last()) =~= Seq::<Seq<char>>::empty());
    if b.len() == 0 {
        assert(a + b =~= a);
        assert(prompt_parts(a) + prompt_parts(b) =~= prompt_parts(a));
    } else {
        let c = b.drop_last();
        assert((a + b).drop_last() =~= a + c);
        assert((a + b).last() == b.last());
        prompt_parts_add_up(a, c, block);
        assert(prompt_parts(a + b) =~= prompt_parts(a) + prompt_parts(b));
    }
}

/// A prompt of one text is that text without the white space around it, whatever the text
/// holds; a prompt of two texts has a newline between them; and a request without a list of
/// blocks has an empty prompt.
pub proof fn prompts_keep_their_texts(
    params: JsonTree,
    block: JsonTree,
    second: JsonTree,
    t: Seq<char>,
    u: Seq<char>,
)
    requires
        block.get("text"@) == Some(JsonTree::Text(t)),
        second.get("text"@) == Some(JsonTree::Text(u)),
    ensures
        params.get("prompt"@) == Some(JsonTree::Array(seq![block])) ==> prompt_text(params)
            == text::trim(t),
        params.get("prompt"@) == Some(JsonTree::Array(seq![block].push(second))) ==> prompt_text(
            params,
        ) == text::trim(t.push('\n') + u),
        params.get("prompt"@) is None || params.get("prompt"@)->0 !is Array ==> prompt_text(
            params,
        ).len() == 0,
{
    reveal_strlit("\n");
    let one = seq![block];
    let two = seq![second];
    prompt_parts_add_up(one, two, block);
    prompt_parts_add_up(two, one, second);
    assert(one + two =~= one.push(second));
    let parts = prompt_parts(one) + prompt_parts(two);
    joining_adds_up(prompt_parts(one), prompt_parts(two), "\n"@);
    joining_adds_up(prompt_parts(two), prompt_parts(one), "\n"@);
    assert(text::join(parts, "\n"@) =~= t.push('\n') + u);
}

/// The text of a prompt is made of the parts of its blocks, with a newline between each two,
/// and without the white space around the whole.
pub proof fn prompts_join_their_parts(params: JsonTree, blocks: Seq<JsonTree>)
    requires
        params.get("prompt"@) == Some(JsonTree::Array(blocks)),
    ensures
        prompt_text(params) == text::trim(
            text::join(blocks.filter_map(|b: JsonTree| b.text_member("text"@)), "\n"@),
        ),
{
    prompts_are_made_of_their_texts(blocks);
}

/// The conversation of the session, and then its model, are told to the agent right before
/// the prompt.
pub proof fn session_reaches_the_agent(
    working_dir: Seq<char>,
    extra: Option<Seq<Seq<char>>>,
    session: SessionView,
    prompt: Seq<char>,
)
    ensures
        ({
            let args = agent_args(working_dir, extra, Some(session), prompt);
            let told = flag("--conversation"@, session.conversation_id) + flag(
                "--model"@,
                session.model_id,
            );
            args == agent_args(working_dir, extra, None, prompt).take(
                args.len() - 2 - told.len(),
            ) + told + flag("-p"@, Some(prompt))
        }),
{
    let args = agent_args(working_dir, extra, Some(session), prompt);
    let told = flag("--conversation"@, session.conversation_id) + flag(
        "--model"@,
        session.model_id,
    );
    assert(args =~= agent_args(working_dir, extra, None, prompt).take(
        args.len() - 2 - told.len(),
    ) + told + flag("-p"@, Some(prompt)));
}

/// A reply to the request with this id: it has a result or an error, and not both.
pub open spec fn answers(response: ResponseView, id: JsonTree) -> bool {
    &&& response.jsonrpc == "2.0"@
    &&& response.id == id
    &&& response.result is Some <==> response.error is None
}

/// The id that an action answers to.
pub open spec fn answered_id(action: ActionView) -> Option<JsonTree> {
    match action {
        ActionView::Skip => None,
        ActionView::Cancel { .. } => None,
        ActionView::Reply { response, .. } => Some(response.id),
        ActionView::Initialize { id } => Some(id),
        ActionView::NewSession { id } => Some(id),
        ActionView::LoadSession { id, .. } => Some(id),
        ActionView::Prompt { id, .. } => Some(id),
        ActionView::SetConfigOption { id, .. } => Some(id),
    }
}

/// Every call, whatever its method, is answered under its own id: at once, or by an action
/// whose end is waited for.
pub proof fn calls_are_answered(request: RequestView)
    requires
        request.id is Some,
        request.method is Some,
    ensures
        answered_id(routed(request)) == request.id,
        match routed(request) {
            ActionView::Reply { response, .. } => answers(response, request.id->0),
            other => in_background(other),
        },
{
}

/// A notification is never answered, and starts nothing.
pub proof fn notifications_are_not_answered(request: RequestView)
    requires
        request.id is None,
    ensures
        answered_id(routed(request)) is None,
        !in_background(routed(request)),
{
}

/// A call is handed on by its method, with its id and its parameters as they are, which are
/// an empty object where there are none; a method that is none of these is refused by name.
pub proof fn methods_reach_their_actions(request: RequestView)
    requires
        request.id is Some,
        request.method is Some,
    ensures
        ({
            let id = request.id->0;
            let method = request.method->0;
            let params = match request.params {
                Some(p) => p,
                None => JsonTree::Object(Seq::empty()),
            };
            let action = routed(request);
            &&& method == "initialize"@ ==> action == (ActionView::Initialize { id })
            &&& method == "session/new"@ ==> action == (ActionView::NewSession { id })
            &&& method == "session/load"@ ==> action == (ActionView::LoadSession { id, params })
            &&& method == "session/prompt"@ ==> action == (ActionView::Prompt {
                id,
                params,
                session_id: text_param(params, "sessionId"@),
            })
            &&& method == "session/setConfigOption"@ || method == "session/set_config_option"@
                ==> action == (ActionView::SetConfigOption { id, params })
            &&& method == "session/cancel"@ ==> {
                &&& action is Reply
                &&& action->cancel == params.text_member("sessionId"@)
                &&& action->response.result == Some(JsonTree::Object(Seq::empty()))
            }
            &&& method != "initialize"@ && method != "session/new"@ && method != "session/load"@
                && method != "session/prompt"@ && method != "session/setConfigOption"@ && method
                != "session/set_config_option"@ && method != "session/cancel"@ ==> {
                &&& action is Reply
                &&& action->cancel is None
                &&& action->response.error is Some
                &&& action->response.error->0.get("code"@) == Some(JsonTree::Number("-32601"@))
                &&& action->response.error->0.text_member("message"@) == Some(
                    "method not found: "@ + method,
                )
            }
        }),
{
    reveal_strlit("initialize");
    reveal_strlit("session/new");
    reveal_strlit("session/load");
    reveal_strlit("session/prompt");
    reveal_strlit("session/setConfigOption");
    reveal_strlit("session/set_config_option");
    reveal_strlit("session/cancel");
    assert("initialize"@.len() == 10 && "session/new"@.len() == 11);
    assert("session/load"@.len() == 12 && "session/prompt"@.len() == 14);
    assert("session/setConfigOption"@.len() == 23 && "session/set_config_option"@.len() == 25);
    assert("session/cancel"@.len() == 14);
    assert("session/prompt"@[8] != "session/cancel"@[8]);
    replies_carry_what_is_said(
        request.id->0,
        JsonTree::object(),
        "-32601"@,
        "method not found: "@ + request.method->0,
    );
}

/// A notification cancels exactly if it asks for that and names a session.
pub proof fn notifications_cancel_by_name(request: RequestView)
    requires
        request.id is None,
    ensures
        ({
            let named = match request.params {
                Some(p) => p.text_member("sessionId"@),
                None => None,
            };
            &&& request.method == Some("session/cancel"@) && named is Some ==> routed(request) == (
            ActionView::Cancel { session_id: named->0 })
            &&& request.method != Some("session/cancel"@) || named is None ==> routed(
                request,
            ) is Skip
        }),
{
}

/// An agent that exited is answered with the reason for which it stopped: that it was
/// cancelled, whatever else; that it came to its end, where it succeeded; or that it failed,
/// where the client has seen updates. Where it has not, the failure is an error that says
/// what the agent wrote, without the white space at its end, or else its status.
pub proof fn prompts_say_how_they_ended(
    id: JsonTree,
    success: bool,
    status: String,
    stderr: Vec<u8>,
    was_cancelled: bool,
    had_updates: bool,
)
    ensures
        ({
            let exit = AgentExit::Exited { success, status, stderr };
            let reply = prompt_reply(id, exit, was_cancelled, had_updates);
            let reason = reply.result->0.text_member("stopReason"@);
            let error = reply.error->0;
            let said = utf8_lossy(stderr@);
            &&& reply.result is Some ==> members_count(reply.result->0, 1)
            &&& was_cancelled ==> reply.result is Some && reason == Some("cancelled"@)
            &&& !was_cancelled && success ==> reply.result is Some && reason == Some("end_turn"@)
            &&& !was_cancelled && !success && had_updates ==> reply.result is Some && reason
                == Some("error"@)
            &&& !was_cancelled && !success && !had_updates ==> {
                &&& reply.error is Some
                &&& error.get("code"@) == Some(JsonTree::Number("-32000"@))
                &&& said.len() == 0 ==> error.text_member("message"@) == Some(
                    "agy exited with status: "@ + status@,
                )
                &&& said.len() > 0 ==> error.text_member("message"@) == Some(
                    "agy failed: "@ + text::trim_end(said),
                )
            }
        }),
{
    broadcast use {lemma_added_member, lemma_other_member};

    assert(stop_result("cancelled"@).get("stopReason"@) == Some(JsonTree::Text("cancelled"@)));
    assert(stop_result("end_turn"@).get("stopReason"@) == Some(JsonTree::Text("end_turn"@)));
    assert(stop_result("error"@).get("stopReason"@) == Some(JsonTree::Text("error"@)));
    replies_carry_what_is_said(
        id,
        JsonTree::Null,
        "-32000"@,
        agent_failure(status@, utf8_lossy(stderr@)),
    );
}

/// An agent that could not be started is answered with an error that says why.
pub proof fn failed_starts_are_reported(id: JsonTree, why: Seq<char>)
    ensures
        ({
            let reply = spawn_failure(id, why);
            &&& answers(reply, id)
            &&& reply.error is Some
            &&& reply.error->0.get("code"@) == Some(JsonTree::Number("-32000"@))
            &&& reply.error->0.text_member("message"@) == Some("failed to run agy: "@ + why)
        }),
{
    replies_carry_what_is_said(id, JsonTree::Null, "-32000"@, "failed to run agy: "@ + why);
}

/// An agent that could not be waited for is answered with an error that says why, whatever
/// else happened.
pub proof fn failed_waits_are_reported(
    id: JsonTree,
    why: String,
    was_cancelled: bool,
    had_updates: bool,
)
    ensures
        ({
            let exit = AgentExit::WaitFailed(why);
            let reply = prompt_reply(id, exit, was_cancelled, had_updates);
            &&& reply.error is Some
            &&& reply.error->0.get("code"@) == Some(JsonTree::Number("-32000"@))
            &&& reply.error->0.text_member("message"@) == Some("failed to wait for agy: "@ + why@)
        }),
{
    replies_carry_what_is_said(
        id,
        JsonTree::Null,
        "-32000"@,
        "failed to wait for agy: "@ + why@,
    );
}

/// The reply to a prompt answers its request, however the agent ended.
pub proof fn prompts_are_answered(
    id: JsonTree,
    exit: AgentExit,
    was_cancelled: bool,
    had_updates: bool,
)
    ensures
        answers(prompt_reply(id, exit, was_cancelled, had_updates), id),
{
}

/// A prompt of which the client has seen updates, or which it cancelled, is not answered
/// with an error once the agent has exited.
pub proof fn updates_are_not_revoked(
    id: JsonTree,
    exit: AgentExit,
    was_cancelled: bool,
    had_updates: bool,
)
    requires
        exit is Exited,
        was_cancelled || had_updates,
    ensures
        prompt_reply(id, exit, was_cancelled, had_updates).error is None,
{
}

/// A conversation is held by the file of its name with the extension `db`; the files that
/// the database keeps beside it hold none.
pub proof fn databases_name_conversations(conversation: Seq<char>)
    requires
        conversation.len() > 0,
    ensures
        conversation_of(conversation + ".db"@) == Some(conversation),
        conversation_of(conversation + ".db-wal"@) is None,
        conversation_of(conversation + ".db-shm"@) is None,
{
    reveal_strlit(".db");
    reveal_strlit(".db-wal");
    reveal_strlit(".db-shm");
    let plain = conversation + ".db"@;
    assert(plain.skip(plain.len() - 3) =~= ".db"@);
    assert(plain.take(plain.len() - 3) =~= conversation);
    let wal = conversation + ".db-wal"@;
    assert(wal.skip(wal.len() - 3)[2] == 'l');
    let shm = conversation + ".db-shm"@;
    assert(shm.skip(shm.len() - 3)[2] == 'm');
}

/// A session says its conversation, its last step and its model, in memory and in the state
/// file.
pub proof fn sessions_say_their_parts(session: Session, stored: StoredSession)
    ensures
        session@.conversation_id is Some <==> session.conversation_id is Some,
        session.conversation_id is Some ==> session@.conversation_id == Some(
            session.conversation_id->0@,
        ),
        session@.last_step_idx == session.last_step_idx,
        session@.model_id is Some <==> session.model_id is Some,
        session.model_id is Some ==> session@.model_id == Some(session.model_id->0@),
        stored@.conversation_id is Some <==> stored.conversation_id is Some,
        stored.conversation_id is Some ==> stored@.conversation_id == Some(
            stored.conversation_id->0@,
        ),
        stored@.last_step_idx == stored.last_step_idx,
        stored@.model_id is Some <==> stored.model_id is Some,
        stored.model_id is Some ==> stored@.model_id == Some(stored.model_id->0@),
{
}

/// A reply and a notification say each of their parts.
pub proof fn messages_say_their_parts(reply: JsonRpcResponse, note: JsonRpcNotification)
    ensures
        reply@.jsonrpc == reply.jsonrpc@,
        reply@.id == reply.id@,
        reply@.result is Some <==> reply.result is Some,
        reply.result is Some ==> reply@.result == Some(reply.result->0@),
        reply@.error is Some <==> reply.error is Some,
        reply.error is Some ==> reply@.error == Some(reply.error->0@),
        note@.jsonrpc == note.jsonrpc@,
        note@.method == note.method@,
        note@.params == note.params@,
{
}

/// A list of words that may be absent says each word in its place.
pub proof fn words_say_their_texts(words: Vec<String>, i: int)
    ensures
        opt_words(None) is None,
        opt_words(Some(words)) is Some,
        opt_words(Some(words))->0.len() == words@.len(),
        0 <= i < words@.len() ==> opt_words(Some(words))->0[i] == words@[i]@,
{
}

} // verus!
