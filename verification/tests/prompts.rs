use agy_acp::adapter::Adapter;
use agy_acp::adapter::Session;
use agy_acp::adapter::SessionStore;
use agy_acp::json::parse_json;
use agy_acp::json::Json;
use agy_acp::prompt::clean_prompt;
use agy_acp::prompt::failure_message;
use agy_acp::prompt::finish_prompt;
use agy_acp::prompt::prompt_args;
use agy_acp::prompt::spawn_failed;
use agy_acp::prompt::AgentExit;
use agy_acp::rpc::JsonRpcResponse;
use agy_acp::stream::StreamingState;

fn adapter() -> Adapter {
    Adapter::new(Some("/home/u"), Some("/work"))
}

fn session(conversation_id: Option<&str>, last_step_idx: i64, model_id: Option<&str>) -> Session {
    Session {
        conversation_id: conversation_id.map(|c| c.to_string()),
        last_step_idx,
        model_id: model_id.map(|m| m.to_string()),
    }
}

fn in_memory(a: &Adapter, id: &str) -> Option<(Option<String>, i64, Option<String>)> {
    a.sessions
        .get(id)
        .map(|s| (s.conversation_id.clone(), s.last_step_idx, s.model_id.clone()))
}

fn exited(success: bool, stderr: &[u8]) -> AgentExit {
    AgentExit::Exited { success, status: "exit status: 3".to_string(), stderr: stderr.to_vec() }
}

fn outcome(response: &JsonRpcResponse) -> Result<&str, (&Json, &str)> {
    assert_eq!(response.id, Json::number("8"));
    match (&response.result, &response.error) {
        (Some(result), None) => Ok(result.text_member("stopReason").unwrap()),
        (None, Some(error)) => Err((error.get("code").unwrap(), error.text_member("message").unwrap())),
        _ => panic!("neither a result nor an error"),
    }
}

#[test]
fn prompts_join_their_texts() {
    let prompt = |params: &str| clean_prompt(&parse_json(params).unwrap());
    assert_eq!(
        prompt(r#"{"prompt":[{"type":"text","text":" a"},{"type":"image"},{"text":"b\n "}]}"#),
        "a\nb"
    );
    assert_eq!(prompt(r#"{"prompt":[{"text":"x"},{"text":""},{"text":"y"},4,"z"]}"#), "x\n\ny");
    assert_eq!(prompt(r#"{"prompt":[]}"#), "");
    assert_eq!(prompt(r#"{"prompt":"text"}"#), "");
    assert_eq!(prompt(r#"{}"#), "");
    assert_eq!(prompt(r#"null"#), "");
}

#[test]
fn the_agent_is_run_in_the_session() {
    let mut adapter = adapter();
    adapter.sessions.insert("s", session(Some("c"), 4, Some("m")));
    let params = parse_json(r#"{"sessionId":"s","prompt":[{"text":"hi"}]}"#).unwrap();
    let state = adapter.prepare_prompt_state(&params, &SessionStore::new(), Some("--x 'a b' c\\ d"));
    assert_eq!(state.session_id, "s");
    assert_eq!(state.prompt, "hi");
    assert_eq!(
        state.args,
        [
            "--add-dir", "/work", "--x", "a b", "c d", "--conversation", "c", "--model", "m",
            "-p", "hi"
        ]
    );
    assert!(!state.wants_snapshot);
    assert_eq!(state.conversation_id, Some("c".to_string()));
    assert_eq!(state.step_idx, 4);
}

#[test]
fn extra_arguments_that_cannot_be_split_are_ignored() {
    let mut adapter = adapter();
    let params = parse_json(r#"{"prompt":[{"text":"hi"}]}"#).unwrap();
    for extra in [None, Some("'open"), Some(""), Some("  # comment")] {
        let state = adapter.prepare_prompt_state(&params, &SessionStore::new(), extra);
        assert_eq!(state.args, ["--add-dir", "/work", "-p", "hi"]);
        assert_eq!(state.session_id, "");
        assert!(!state.wants_snapshot);
        assert_eq!(state.conversation_id, None);
        assert_eq!(state.step_idx, -1);
    }
}

#[test]
fn a_fresh_session_wants_a_snapshot() {
    let mut adapter = adapter();
    adapter.sessions.insert("s", session(None, -1, None));
    let params = parse_json(r#"{"sessionId":"s"}"#).unwrap();
    let store = Adapter::persist_session(SessionStore::new(), "s", Some("c"), 4, None);
    let state = adapter.prepare_prompt_state(&params, &store, None);
    assert!(state.wants_snapshot);
    assert_eq!(state.conversation_id, None);
    assert_eq!(state.args, ["--add-dir", "/work", "-p", ""]);
}

#[test]
fn an_evicted_session_is_restored_for_a_prompt() {
    let mut adapter = adapter();
    let params = parse_json(r#"{"sessionId":"s","prompt":[{"text":"hi"}]}"#).unwrap();
    let store = Adapter::persist_session(SessionStore::new(), "s", Some("c"), 4, Some("m"));
    let state = adapter.prepare_prompt_state(&params, &store, None);
    assert_eq!(state.conversation_id, Some("c".to_string()));
    assert_eq!(state.step_idx, 4);
    assert_eq!(
        state.args,
        ["--add-dir", "/work", "--conversation", "c", "--model", "m", "-p", "hi"]
    );
    assert_eq!(
        in_memory(&adapter, "s"),
        Some((Some("c".to_string()), 4, Some("m".to_string())))
    );

    let params = parse_json(r#"{"sessionId":"unknown"}"#).unwrap();
    let state = adapter.prepare_prompt_state(&params, &store, None);
    assert_eq!(state.session_id, "unknown");
    assert_eq!(state.step_idx, -1);
    assert!(!state.wants_snapshot);
    assert_eq!(adapter.sessions.len(), 1);
}

#[test]
fn a_session_without_an_id_is_not_restored() {
    let mut adapter = adapter();
    let store = Adapter::persist_session(SessionStore::new(), "", Some("c"), 4, None);
    let state = adapter.prepare_prompt_state(&Json::object(), &store, None);
    assert_eq!(state.conversation_id, None);
    assert_eq!(adapter.sessions.len(), 0);
}

#[test]
fn arguments_stand_in_a_fixed_order() {
    let extra = Some(vec!["e1".to_string(), "e2".to_string()]);
    let unbound = session(None, 0, Some("m"));
    assert_eq!(
        prompt_args("d", &extra, Some(&unbound), "p"),
        ["--add-dir", "d", "e1", "e2", "--model", "m", "-p", "p"]
    );
    let plain = session(Some("c"), 0, None);
    assert_eq!(
        prompt_args("d", &None, Some(&plain), "p"),
        ["--add-dir", "d", "--conversation", "c", "-p", "p"]
    );
}

#[test]
fn a_prompt_binds_its_session() {
    let mut adapter = adapter();
    adapter.sessions.insert("s", session(None, -1, Some("m")));
    let bound = Some("c".to_string());
    let persist = adapter.apply_session_update("s", &bound, 6).unwrap();
    assert_eq!(
        in_memory(&adapter, "s"),
        Some((Some("c".to_string()), 6, Some("m".to_string())))
    );
    assert_eq!(persist.session_id, "s");
    assert_eq!(persist.conversation_id, Some("c".to_string()));
    assert_eq!(persist.last_step_idx, 6);
    assert_eq!(persist.model_id, Some("m".to_string()));
    let store = Adapter::persist_session(
        SessionStore::new(),
        &persist.session_id,
        persist.conversation_id.as_deref(),
        persist.last_step_idx,
        persist.model_id.as_deref(),
    );
    assert_eq!(
        Adapter::restore_session(&store, "s"),
        Some(("c".to_string(), 6, Some("m".to_string())))
    );
}

#[test]
fn a_prompt_without_a_conversation_leaves_nothing() {
    let mut adapter = adapter();
    adapter.sessions.insert("s", session(Some("c"), 2, None));
    assert!(adapter.apply_session_update("s", &None, 6).is_none());
    assert_eq!(in_memory(&adapter, "s"), Some((Some("c".to_string()), 2, None)));
}

#[test]
fn a_bound_session_stays_bound() {
    let mut adapter = adapter();
    adapter.sessions.insert("s", session(Some("c"), 2, None));
    let persist = adapter.apply_session_update("s", &Some("d".to_string()), 6).unwrap();
    assert_eq!(in_memory(&adapter, "s"), Some((Some("c".to_string()), 6, None)));
    assert_eq!(persist.conversation_id, Some("d".to_string()));
}

#[test]
fn an_evicted_session_is_still_written() {
    let mut adapter = adapter();
    let persist = adapter.apply_session_update("gone", &Some("d".to_string()), 6).unwrap();
    assert_eq!(adapter.sessions.len(), 0);
    assert_eq!(persist.session_id, "gone");
    assert_eq!(persist.model_id, None);
}

#[test]
fn an_agent_that_cannot_be_run_is_reported() {
    let output = spawn_failed(Json::number("8"), "no such file");
    assert_eq!(
        outcome(&output.response),
        Err((&Json::number("-32000"), "failed to run agy: no such file"))
    );
    assert!(output.session_update.is_none());
}

#[test]
fn a_prompt_ends_for_a_reason() {
    let mut state = StreamingState::new(Some("c".to_string()), 5);
    let finish = |exit: &AgentExit, cancelled: bool, state: &StreamingState| {
        finish_prompt(Json::number("8"), exit, cancelled, state)
    };
    let output = finish(&exited(true, b"noise"), false, &state);
    assert_eq!(outcome(&output.response), Ok("end_turn"));
    assert_eq!(output.session_update, Some((Some("c".to_string()), 5)));
    let output = finish(&exited(false, b"killed"), true, &state);
    assert_eq!(outcome(&output.response), Ok("cancelled"));
    let output = finish(&exited(true, b""), true, &state);
    assert_eq!(outcome(&output.response), Ok("cancelled"));

    let code = Json::number("-32000");
    let output = finish(&exited(false, b""), false, &state);
    assert_eq!(
        outcome(&output.response),
        Err((&code, "agy exited with status: exit status: 3"))
    );
    assert_eq!(output.session_update, Some((Some("c".to_string()), 5)));
    let output = finish(&exited(false, b" bad \xFF key \n\n"), false, &state);
    assert_eq!(outcome(&output.response), Err((&code, "agy failed:  bad \u{FFFD} key")));
    let output = finish(&exited(false, "größe".as_bytes()), false, &state);
    assert_eq!(outcome(&output.response), Err((&code, "agy failed: größe")));
    let output = finish(&AgentExit::WaitFailed("gone".to_string()), true, &state);
    assert_eq!(outcome(&output.response), Err((&code, "failed to wait for agy: gone")));

    state.had_updates = true;
    let output = finish(&exited(false, b"bad"), false, &state);
    assert_eq!(outcome(&output.response), Ok("error"));
}

#[test]
fn failures_say_what_the_agent_said() {
    assert_eq!(failure_message("signal: 9", ""), "agy exited with status: signal: 9");
    assert_eq!(failure_message("signal: 9", "\n"), "agy failed: ");
    assert_eq!(failure_message("1", "a\nb \t"), "agy failed: a\nb");
}
