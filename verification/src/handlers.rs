//! The requests about sessions, and their replies.

use vstd::prelude::*;
use crate::adapter::current_session;
use crate::adapter::evicted;
use crate::adapter::restorable;
use crate::adapter::same_but_sessions;
use crate::adapter::settled;
use crate::adapter::Adapter;
use crate::adapter::Persist;
use crate::adapter::Session;
use crate::adapter::SessionStore;
use crate::adapter::SessionView;
use crate::json::lemma_added_member;
use crate::json::lemma_other_member;
use crate::json::members_count;
use crate::json::Json;
use crate::json::JsonTree;
use crate::models::config_options;
use crate::models::known_models;
use crate::models::opt_models;
use crate::models::ModelListing;
use crate::rpc::JsonRpcResponse;
use crate::rpc::ResponseView;
use crate::text;

verus! {

/// The text parameter of this name, empty where there is none.
pub open spec fn text_param(params: JsonTree, name: Seq<char>) -> Seq<char> {
    match params.text_member(name) {
        Some(s) => s,
        None => seq![],
    }
}

/// What the adapter says of itself.
pub open spec fn agent_description(version: Seq<char>) -> JsonTree {
    JsonTree::object().with("protocolVersion"@, JsonTree::Number("1"@)).with(
        "agentInfo"@,
        JsonTree::object().with("name"@, JsonTree::Text("agy"@)).with(
            "version"@,
            JsonTree::Text(version),
        ),
    ).with(
        "agentCapabilities"@,
        JsonTree::object().with("streaming"@, JsonTree::Bool(true)).with(
            "loadSession"@,
            JsonTree::Bool(true),
        ),
    )
}

/// The result of opening a session: its id and the options it has.
pub open spec fn session_opened(session_id: Seq<char>, options: JsonTree) -> JsonTree {
    JsonTree::object().with("sessionId"@, JsonTree::Text(session_id)).with(
        "configOptions"@,
        options,
    )
}

/// The result of loading a session: its id.
pub open spec fn session_loaded(session_id: Seq<char>) -> JsonTree {
    JsonTree::object().with("sessionId"@, JsonTree::Text(session_id))
}

/// The result of selecting an option: the options as they now are.
pub open spec fn option_selected(options: JsonTree) -> JsonTree {
    JsonTree::object().with("configOptions"@, options)
}

/// A session that has just been opened.
pub open spec fn fresh_session() -> SessionView {
    SessionView { conversation_id: None, last_step_idx: -1i64, model_id: None }
}

/// The sessions once a new one has been opened in the room that was made for it.
pub open spec fn opened(
    before: Map<Seq<char>, SessionView>,
    after: Map<Seq<char>, SessionView>,
    id: Seq<char>,
) -> bool {
    exists|kept: Map<Seq<char>, SessionView>| #[trigger]
        evicted(before, kept) && after == kept.insert(id, fresh_session())
}

/// A hexadecimal digit, the letters in lower case.
pub open spec fn hex_digit(c: char) -> bool {
    '0' <= c <= '9' || 'a' <= c <= 'f'
}

/// A text in the form of a random UUID: hexadecimal digits in groups of 8, 4, 4, 4 and 12,
/// joined by hyphens, of which the third group begins with 4 and the fourth with 8, 9, a
/// or b.
pub open spec fn uuid_text(s: Seq<char>) -> bool {
    &&& s.len() == 36
    &&& s[8] == '-'
    &&& s[13] == '-'
    &&& s[18] == '-'
    &&& s[23] == '-'
    &&& forall|i: int|
        0 <= i < 36 && i != 8 && i != 13 && i != 18 && i != 23 ==> hex_digit(#[trigger] s[i])
    &&& s[14] == '4'
    &&& s[19] == '8' || s[19] == '9' || s[19] == 'a' || s[19] == 'b'
}

/// The parameters name a session and select a model for it.
pub open spec fn selects_model(params: JsonTree) -> bool {
    &&& text_param(params, "sessionId"@).len() > 0
    &&& text_param(params, "configId"@) == "model"@
    &&& text_param(params, "value"@).len() > 0
}

/// A session for which this model was selected.
pub open spec fn with_model(session: SessionView, model: Seq<char>) -> SessionView {
    SessionView { model_id: Some(model), ..session }
}

/// The message for an id that stands for no session.
pub open spec fn unknown_session(id: Seq<char>) -> Seq<char> {
    "unknown sessionId: "@ + id
}

/// `uuid::Uuid::new_v4`, written out by its `Display`: a random UUID. Which one is left to
/// chance. It panics where the operating system gives no random bytes.
#[verifier::external_body]
fn new_session_id() -> (r: String)
    ensures
        uuid_text(r@),
{
    uuid::Uuid::new_v4().to_string()
}

/// The text parameter of this name.
pub(crate) fn param<'a>(params: &'a Json, name: &str) -> (r: &'a str)
    ensures
        r@ == text_param(params@, name@),
{
    match params.text_member(name) {
        Some(s) => s,
        None => {
            proof {
                reveal_strlit("");
            }
            assert(""@ =~= Seq::<char>::empty());
            ""
        },
    }
}

impl Adapter {
    /// The reply to `initialize`.
    pub fn handle_initialize(&self, id: Json, version: &str) -> (r: JsonRpcResponse)
        ensures
            r@ == ResponseView::success(id@, agent_description(version@)),
    {
        let info = Json::object().with("name", Json::text("agy")).with(
            "version",
            Json::text(version),
        );
        let capabilities = Json::object().with("streaming", Json::Bool(true)).with(
            "loadSession",
            Json::Bool(true),
        );
        let result = Json::object().with("protocolVersion", Json::number("1")).with(
            "agentInfo",
            info,
        ).with("agentCapabilities", capabilities);
        JsonRpcResponse::success(id, result)
    }

    /// Opens a session with a new random id: the reply to `session/new`.
    pub fn handle_session_new(&mut self, id: Json, listing: &ModelListing) -> (r: JsonRpcResponse)
        ensures
            exists|session_id: Seq<char>| #[trigger]
                uuid_text(session_id) && opened(
                    old(self).sessions@,
                    final(self).sessions@,
                    session_id,
                ) && r@ == ResponseView::success(
                    id@,
                    session_opened(
                        session_id,
                        config_options(known_models(old(self).available_models, *listing), None),
                    ),
                ),
            opt_models(final(self).available_models) == Some(
                known_models(old(self).available_models, *listing),
            ),
            final(self).working_dir == old(self).working_dir,
            final(self).conversations_dir == old(self).conversations_dir,
            final(self).state_file == old(self).state_file,
    {
        let session_id = new_session_id();
        self.open_session(id, session_id.as_str(), listing)
    }

    /// Opens a session with this id.
    pub fn open_session(
        &mut self,
        id: Json,
        session_id: &str,
        listing: &ModelListing,
    ) -> (r: JsonRpcResponse)
        ensures
            opened(old(self).sessions@, final(self).sessions@, session_id@),
            r@ == ResponseView::success(
                id@,
                session_opened(
                    session_id@,
                    config_options(known_models(old(self).available_models, *listing), None),
                ),
            ),
            opt_models(final(self).available_models) == Some(
                known_models(old(self).available_models, *listing),
            ),
            final(self).working_dir == old(self).working_dir,
            final(self).conversations_dir == old(self).conversations_dir,
            final(self).state_file == old(self).state_file,
    {
        self.evict_if_needed();
        let session = Session { conversation_id: None, last_step_idx: -1, model_id: None };
        self.sessions.insert(session_id, session);
        let options = self.config_options_json(None, listing);
        let result = Json::object().with("sessionId", Json::text(session_id)).with(
            "configOptions",
            options,
        );
        JsonRpcResponse::success(id, result)
    }

    /// Takes a persisted session into memory: the reply to `session/load`.
    pub fn handle_session_load(
        &mut self,
        id: Json,
        params: &Json,
        store: &SessionStore,
    ) -> (r: JsonRpcResponse)
        ensures
            same_but_sessions(*old(self), *final(self)),
            ({
                let session_id = text_param(params@, "sessionId"@);
                if session_id.len() == 0 {
                    &&& r@ == ResponseView::failure(id@, "-32602"@, "missing sessionId"@)
                    &&& final(self).sessions@ == old(self).sessions@
                } else {
                    match restorable(store@, session_id) {
                        Some(session) => {
                            &&& r@ == ResponseView::success(
                                id@,
                                session_loaded(session_id),
                            )
                            &&& settled(
                                old(self).sessions@,
                                final(self).sessions@,
                                session_id,
                                session,
                            )
                        },
                        None => {
                            &&& r@ == ResponseView::failure(
                                id@,
                                "-32000"@,
                                unknown_session(session_id),
                            )
                            &&& final(self).sessions@ == old(self).sessions@
                        },
                    }
                }
            }),
    {
        let session_id = param(params, "sessionId");
        if session_id.is_empty() {
            return JsonRpcResponse::failure(id, "-32602", "missing sessionId");
        }
        if self.restore_session_state(store, session_id) {
            let result = Json::object().with("sessionId", Json::text(session_id));
            return JsonRpcResponse::success(id, result);
        }
        let message = text::concat("unknown sessionId: ", session_id);
        JsonRpcResponse::failure(id, "-32000", message.as_str())
    }

    /// Whether a session has to be looked for in the state file.
    pub fn needs_restore(&self, session_id: &str) -> (r: bool)
        ensures
            r == (session_id@.len() > 0 && !self.sessions@.contains_key(session_id@)),
    {
        !session_id.is_empty() && !self.sessions.contains_key(session_id)
    }

    /// Whether a model will be selected: the parameters are complete, and the session is in
    /// memory or in the store.
    pub fn accepts_config_option(&self, params: &Json, store: &SessionStore) -> (r: bool)
        ensures
            r == (selects_model(params@) && current_session(
                self.sessions@,
                store@,
                text_param(params@, "sessionId"@),
            ) is Some),
    {
        let session_id = param(params, "sessionId");
        if session_id.is_empty() || !text::same_text(param(params, "configId"), "model")
            || param(params, "value").is_empty() {
            return false;
        }
        self.sessions.contains_key(session_id) || Self::restore_session(
            store,
            session_id,
        ).is_some()
    }

    /// Selects the model of a session: the reply to `session/setConfigOption`, and the
    /// session to be written to the state file.
    pub fn handle_session_set_config_option(
        &mut self,
        id: Json,
        params: &Json,
        store: &SessionStore,
        listing: &ModelListing,
    ) -> (r: (JsonRpcResponse, Option<Persist>))
        ensures
            final(self).working_dir == old(self).working_dir,
            final(self).conversations_dir == old(self).conversations_dir,
            final(self).state_file == old(self).state_file,
            ({
                let session_id = text_param(params@, "sessionId"@);
                let value = text_param(params@, "value"@);
                let models = known_models(old(self).available_models, *listing);
                if !selects_model(params@) {
                    &&& r.0@ == ResponseView::failure(
                        id@,
                        "-32602"@,
                        "missing sessionId, configId, or value"@,
                    )
                    &&& r.1 is None
                    &&& final(self).sessions@ == old(self).sessions@
                    &&& final(self).available_models == old(self).available_models
                } else {
                    match current_session(old(self).sessions@, store@, session_id) {
                        None => {
                            &&& r.0@ == ResponseView::failure(
                                id@,
                                "-32000"@,
                                unknown_session(session_id),
                            )
                            &&& r.1 is None
                            &&& final(self).sessions@ == old(self).sessions@
                            &&& final(self).available_models == old(self).available_models
                        },
                        Some(session) => {
                            let selected = with_model(session, value);
                            &&& r.0@ == ResponseView::success(
                                id@,
                                option_selected(config_options(models, Some(value))),
                            )
                            &&& r.1 is Some
                            &&& r.1->0.says(session_id, selected)
                            &&& settled(
                                old(self).sessions@,
                                final(self).sessions@,
                                session_id,
                                selected,
                            )
                            &&& opt_models(final(self).available_models) == Some(models)
                        },
                    }
                }
            }),
    {
        let session_id = param(params, "sessionId");
        let config_id = param(params, "configId");
        let value = param(params, "value");
        if session_id.is_empty() || !text::same_text(config_id, "model") || value.is_empty() {
            return (
                JsonRpcResponse::failure(id, "-32602", "missing sessionId, configId, or value"),
                None,
            );
        }
        if !self.sessions.contains_key(session_id) {
            self.restore_session_state(store, session_id);
        }
        let ghost found = self.sessions@;
        let (conversation_id, last_step_idx) = match self.sessions.get(session_id) {
            Some(session) => (text::copied_opt(&session.conversation_id), session.last_step_idx),
            None => {
                let message = text::concat("unknown sessionId: ", session_id);
                return (JsonRpcResponse::failure(id, "-32000", message.as_str()), None);
            },
        };
        let persist = Persist {
            session_id: session_id.to_owned(),
            conversation_id: text::copied_opt(&conversation_id),
            last_step_idx,
            model_id: Some(value.to_owned()),
        };
        let session = Session { conversation_id, last_step_idx, model_id: Some(value.to_owned()) };
        let ghost selected = session@;
        self.sessions.insert(session_id, session);
        proof {
            if !old(self).sessions@.contains_key(session_id@) {
                assert(self.sessions@.remove(session_id@) =~= found.remove(session_id@));
                assert(self.sessions@ =~= self.sessions@.remove(session_id@).insert(
                    session_id@,
                    selected,
                ));
            }
        }
        let options = self.config_options_json(Some(value), listing);
        let result = Json::object().with("configOptions", options);
        (JsonRpcResponse::success(id, result), Some(persist))
    }
}

/// The parameter of a name is the text that the request gives it, whole, and empty where it
/// gives none.
pub proof fn parameters_are_given(params: JsonTree, name: Seq<char>, t: Seq<char>)
    ensures
        params.get(name) == Some(JsonTree::Text(t)) ==> text_param(params, name) == t,
        params.text_member(name) is None ==> text_param(params, name).len() == 0,
{
}

/// A model is selected exactly by a request with a session, the option `model` and a value.
pub proof fn models_are_selected_by_name(params: JsonTree)
    ensures
        selects_model(params) <==> {
            &&& params.text_member("sessionId"@) is Some
            &&& params.text_member("sessionId"@)->0.len() > 0
            &&& params.text_member("configId"@) == Some("model"@)
            &&& params.text_member("value"@) is Some
            &&& params.text_member("value"@)->0.len() > 0
        },
{
    reveal_strlit("model");
    assert("model"@.len() == 5);
}

/// The results of requests about sessions hold the id of the session and the options, whole.
pub proof fn results_name_their_session(session_id: Seq<char>, options: JsonTree)
    ensures
        session_opened(session_id, options).text_member("sessionId"@) == Some(session_id),
        session_opened(session_id, options).get("configOptions"@) == Some(options),
        session_loaded(session_id).text_member("sessionId"@) == Some(session_id),
        option_selected(options).get("configOptions"@) == Some(options),
        members_count(session_opened(session_id, options), 2),
        members_count(session_loaded(session_id), 1),
        members_count(option_selected(options), 1),
{
    broadcast use {lemma_added_member, lemma_other_member};

    reveal_strlit("sessionId");
    reveal_strlit("configOptions");
    assert("sessionId"@.len() == 9 && "configOptions"@.len() == 13);
    let opened = session_opened(session_id, options);
    assert(opened.get("sessionId"@) == Some(JsonTree::Text(session_id)));
    assert(opened.get("configOptions"@) == Some(options));
    assert(session_loaded(session_id).get("sessionId"@) == Some(JsonTree::Text(session_id)));
}

/// The agent describes itself: the version of the protocol, its name and its own version,
/// and that it streams and loads sessions.
pub proof fn agents_describe_themselves(version: Seq<char>)
    ensures
        ({
            let said = agent_description(version);
            let info = said.get("agentInfo"@)->0;
            let abilities = said.get("agentCapabilities"@)->0;
            &&& said.get("protocolVersion"@) == Some(JsonTree::Number("1"@))
            &&& said.get("agentInfo"@) is Some
            &&& info.text_member("name"@) == Some("agy"@)
            &&& info.text_member("version"@) == Some(version)
            &&& said.get("agentCapabilities"@) is Some
            &&& abilities.get("streaming"@) == Some(JsonTree::Bool(true))
            &&& abilities.get("loadSession"@) == Some(JsonTree::Bool(true))
            &&& members_count(said, 3)
            &&& members_count(info, 2)
            &&& members_count(abilities, 2)
        }),
{
    broadcast use {lemma_added_member, lemma_other_member};

    reveal_strlit("protocolVersion");
    reveal_strlit("agentInfo");
    reveal_strlit("agentCapabilities");
    reveal_strlit("name");
    reveal_strlit("version");
    reveal_strlit("streaming");
    reveal_strlit("loadSession");
    assert("protocolVersion"@.len() == 15 && "agentInfo"@.len() == 9);
    assert("agentCapabilities"@.len() == 17 && "name"@.len() == 4 && "version"@.len() == 7);
    assert("streaming"@.len() == 9 && "loadSession"@.len() == 11);
    let said = agent_description(version);
    let info = JsonTree::object().with("name"@, JsonTree::Text("agy"@)).with(
        "version"@,
        JsonTree::Text(version),
    );
    let abilities = JsonTree::object().with("streaming"@, JsonTree::Bool(true)).with(
        "loadSession"@,
        JsonTree::Bool(true),
    );
    assert(said.get("protocolVersion"@) == Some(JsonTree::Number("1"@)));
    assert(said.get("agentInfo"@) == Some(info));
    assert(said.get("agentCapabilities"@) == Some(abilities));
    assert(info.get("name"@) == Some(JsonTree::Text("agy"@)));
    assert(info.get("version"@) == Some(JsonTree::Text(version)));
    assert(abilities.get("streaming"@) == Some(JsonTree::Bool(true)));
    assert(abilities.get("loadSession"@) == Some(JsonTree::Bool(true)));
}

/// The message for an unknown session ends with the id that was given, whole.
pub proof fn unknown_sessions_are_named(id: Seq<char>)
    ensures
        unknown_session(id) == "unknown sessionId: "@ + id,
{
}

/// A fresh session is bound to no conversation, has read no step and has no model.
pub proof fn fresh_sessions_are_unbound()
    ensures
        fresh_session().conversation_id is None,
        fresh_session().last_step_idx == -1,
        fresh_session().model_id is None,
{
}

} // verus!
