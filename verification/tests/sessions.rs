use agy_acp::adapter::Adapter;
use agy_acp::adapter::Persist;
use agy_acp::adapter::SessionStore;
use agy_acp::json::parse_json;
use agy_acp::json::Json;
use agy_acp::models::ModelListing;
use agy_acp::rpc::JsonRpcResponse;
use agy_acp::table::Table;

fn adapter() -> Adapter {
    Adapter {
        sessions: Table::new(),
        working_dir: "/work".to_string(),
        conversations_dir: "/work/conversations".to_string(),
        state_file: "/work/sessions.json".to_string(),
        available_models: Some(vec![]),
    }
}

fn no_models() -> ModelListing {
    ModelListing { fetched: vec![], cached: None }
}

fn message(response: &JsonRpcResponse) -> Option<&str> {
    response.error.as_ref().and_then(|e| e.text_member("message"))
}

fn code(response: &JsonRpcResponse) -> Option<&Json> {
    response.error.as_ref().and_then(|e| e.get("code"))
}

fn written(store: SessionStore, p: &Persist) -> SessionStore {
    Adapter::persist_session(
        store,
        &p.session_id,
        p.conversation_id.as_deref(),
        p.last_step_idx,
        p.model_id.as_deref(),
    )
}

fn in_memory(a: &Adapter, id: &str) -> Option<(Option<String>, i64, Option<String>)> {
    a.sessions
        .get(id)
        .map(|s| (s.conversation_id.clone(), s.last_step_idx, s.model_id.clone()))
}

#[test]
fn test_persist_and_restore_session() {
    let store =
        Adapter::persist_session(Adapter::load_store(None), "sess-1", Some("conv-abc"), 7, None);
    let restored = Adapter::restore_session(&store, "sess-1");
    assert_eq!(restored, Some(("conv-abc".to_string(), 7, None)));

    let missing = Adapter::restore_session(&store, "sess-unknown");
    assert_eq!(missing, None);
}

#[test]
fn test_session_load_restores_persisted_session() {
    let mut adapter = adapter();
    let store =
        Adapter::persist_session(SessionStore::new(), "sess-1", Some("conv-abc"), 5, None);

    let params = parse_json(r#"{"sessionId": "sess-1"}"#).unwrap();
    let response = adapter.handle_session_load(Json::number("7"), &params, &store);
    assert!(response.error.is_none());
    assert_eq!(
        adapter.sessions.get("sess-1").and_then(|s| s.conversation_id.as_deref()),
        Some("conv-abc")
    );
    assert_eq!(adapter.sessions.get("sess-1").map(|s| s.last_step_idx), Some(5));
    assert_eq!(response.result.unwrap().text_member("sessionId"), Some("sess-1"));
}

#[test]
fn test_session_load_rejects_unknown_session() {
    let mut adapter = adapter();
    let params = parse_json(r#"{"sessionId": "missing"}"#).unwrap();
    let response = adapter.handle_session_load(Json::number("9"), &params, &SessionStore::new());
    assert!(response.result.is_none());
    assert_eq!(message(&response), Some("unknown sessionId: missing"));
    assert_eq!(code(&response), Some(&Json::number("-32000")));
    assert_eq!(response.id, Json::number("9"));
    assert_eq!(adapter.sessions.len(), 0);
}

#[test]
fn test_snapshot_detects_db_conversations() {
    let before = Adapter::conversation_snapshot(&vec!["existing.db".to_string()]);
    assert!(before.contains("existing"));

    let after = Adapter::conversation_snapshot(&vec![
        "existing.db".to_string(),
        "new-conv.db".to_string(),
        "new-conv.db-wal".to_string(),
        "new-conv.db-shm".to_string(),
    ]);
    assert_eq!(Adapter::new_conversation_id(&before, &after), Some("new-conv".to_string()));
}

#[test]
fn test_snapshot_ignores_multiple_new_files() {
    let before = Adapter::conversation_snapshot(&vec![]);
    let after = Adapter::conversation_snapshot(&vec!["a.db".to_string(), "b.db".to_string()]);
    assert_eq!(Adapter::new_conversation_id(&before, &after), None);
    assert_eq!(Adapter::new_conversation_id(&after, &after), None);
    assert_eq!(Adapter::new_conversation_id(&after, &before), None);
}

#[test]
fn only_named_databases_hold_conversations() {
    let names: Vec<String> =
        [".db", "db", "x", "..db", "a.b.db", "c.DB", "d.db.bak"].iter().map(|s| s.to_string()).collect();
    let found = Adapter::conversation_snapshot(&names);
    assert!(found.contains("."));
    assert!(found.contains("a.b"));
    for other in ["", "db", "x", "c", "d", "d.db"] {
        assert!(!found.contains(other));
    }
}

#[test]
fn a_session_without_an_id_cannot_be_loaded() {
    for params in [r#"{}"#, r#"{"sessionId": ""}"#, r#"{"sessionId": 4}"#, r#"[]"#] {
        let mut adapter = adapter();
        let params = parse_json(params).unwrap();
        let response =
            adapter.handle_session_load(Json::Null, &params, &SessionStore::new());
        assert_eq!(code(&response), Some(&Json::number("-32602")));
        assert_eq!(message(&response), Some("missing sessionId"));
    }
}

#[test]
fn unbound_sessions_are_not_restored() {
    let store = Adapter::persist_session(SessionStore::new(), "s", None, 3, Some("m"));
    assert_eq!(Adapter::restore_session(&store, "s"), None);
    let store = Adapter::persist_session(store, "t", Some("c"), 4, Some("m"));
    assert_eq!(
        Adapter::restore_session(&store, "t"),
        Some(("c".to_string(), 4, Some("m".to_string())))
    );
    let store = Adapter::persist_session(store, "s", Some("d"), -1, None);
    assert_eq!(Adapter::restore_session(&store, "s"), Some(("d".to_string(), -1, None)));
    assert_eq!(
        Adapter::restore_session(&store, "t"),
        Some(("c".to_string(), 4, Some("m".to_string())))
    );
}

#[test]
fn opening_a_session_answers_with_its_id() {
    let mut adapter = adapter();
    adapter.available_models = Some(vec!["one".to_string(), "two".to_string()]);
    let response = adapter.open_session(Json::number("1"), "fresh", &no_models());
    let result = response.result.unwrap();
    assert_eq!(result.text_member("sessionId"), Some("fresh"));
    let expected = r#"[{"id":"model","name":"Model","category":"model","type":"select",
        "currentValue":"one","options":[{"value":"one","name":"one"},{"value":"two","name":"two"}]}]"#;
    let expected = parse_json(expected).unwrap();
    let (Some(Json::Array(got)), Json::Array(want)) = (result.get("configOptions"), &expected)
    else {
        panic!("not a list");
    };
    assert_eq!(got.len(), 1);
    for name in ["id", "name", "category", "type", "currentValue"] {
        assert_eq!(got[0].text_member(name), want[0].text_member(name));
    }
    let (Some(Json::Array(got)), Some(Json::Array(want))) =
        (got[0].get("options"), want[0].get("options"))
    else {
        panic!("not a list");
    };
    assert_eq!(got.len(), 2);
    for i in 0..2 {
        assert_eq!(got[i].text_member("value"), want[i].text_member("value"));
        assert_eq!(got[i].text_member("name"), want[i].text_member("name"));
    }
    assert_eq!(in_memory(&adapter, "fresh"), Some((None, -1, None)));
}

#[test]
fn new_sessions_have_random_ids() {
    let mut adapter = adapter();
    let mut ids = Vec::new();
    for _ in 0..10 {
        let response = adapter.handle_session_new(Json::Null, &no_models());
        let result = response.result.unwrap();
        assert_eq!(result.get("configOptions"), Some(&Json::array(vec![])));
        let id = result.text_member("sessionId").unwrap().to_string();
        assert_eq!(in_memory(&adapter, &id), Some((None, -1, None)));
        assert_eq!(id.len(), 36);
        for (i, c) in id.chars().enumerate() {
            match i {
                8 | 13 | 18 | 23 => assert_eq!(c, '-'),
                14 => assert_eq!(c, '4'),
                19 => assert!("89ab".contains(c)),
                _ => assert!(c.is_ascii_digit() || ('a'..='f').contains(&c)),
            }
        }
        assert!(!ids.contains(&id));
        ids.push(id);
    }
    assert_eq!(adapter.sessions.len(), 10);
}

#[test]
fn there_are_never_more_than_sixty_four_sessions() {
    let mut adapter = adapter();
    for i in 0..100 {
        adapter.open_session(Json::Null, &format!("s{i}"), &no_models());
        assert!(adapter.sessions.contains_key(&format!("s{i}")));
        assert_eq!(adapter.sessions.len(), std::cmp::min(i + 1, 64));
    }
    let store = Adapter::persist_session(SessionStore::new(), "old", Some("c"), 1, None);
    assert!(adapter.restore_session_state(&store, "old"));
    assert_eq!(adapter.sessions.len(), 64);
    assert!(adapter.restore_session_state(&store, "old"));
    assert_eq!(adapter.sessions.len(), 64);
    adapter.evict_if_needed();
    assert_eq!(adapter.sessions.len(), 63);
    adapter.evict_if_needed();
    assert_eq!(adapter.sessions.len(), 63);
}

#[test]
fn loading_overwrites_what_is_in_memory() {
    let mut adapter = adapter();
    adapter.open_session(Json::Null, "s", &no_models());
    let store = Adapter::persist_session(SessionStore::new(), "s", Some("c"), 9, Some("m"));
    let params = parse_json(r#"{"sessionId": "s"}"#).unwrap();
    adapter.handle_session_load(Json::Null, &params, &store);
    let loaded = Some((Some("c".to_string()), 9, Some("m".to_string())));
    assert_eq!(in_memory(&adapter, "s"), loaded);
    adapter.handle_session_load(Json::Null, &params, &store);
    assert_eq!(in_memory(&adapter, "s"), loaded);
    assert_eq!(adapter.sessions.len(), 1);
}

#[test]
fn selecting_a_model_needs_all_parameters() {
    for params in [
        r#"{}"#,
        r#"{"configId":"model","value":"m"}"#,
        r#"{"sessionId":"s","value":"m"}"#,
        r#"{"sessionId":"s","configId":"mode","value":"m"}"#,
        r#"{"sessionId":"s","configId":"model","value":""}"#,
        r#"{"sessionId":"s","configId":"model","value":7}"#,
    ] {
        let mut adapter = adapter();
        adapter.open_session(Json::Null, "s", &no_models());
        let params = parse_json(params).unwrap();
        assert!(!adapter.accepts_config_option(&params, &SessionStore::new()));
        let (response, persist) = adapter.handle_session_set_config_option(
            Json::number("2"),
            &params,
            &SessionStore::new(),
            &no_models(),
        );
        assert_eq!(code(&response), Some(&Json::number("-32602")));
        assert_eq!(message(&response), Some("missing sessionId, configId, or value"));
        assert!(persist.is_none());
        assert_eq!(in_memory(&adapter, "s"), Some((None, -1, None)));
    }
}

#[test]
fn selecting_a_model_needs_a_session() {
    let mut adapter = adapter();
    let params = parse_json(r#"{"sessionId":"s","configId":"model","value":"m"}"#).unwrap();
    let store = Adapter::persist_session(SessionStore::new(), "s", None, 2, None);
    assert!(!adapter.accepts_config_option(&params, &store));
    let (response, persist) =
        adapter.handle_session_set_config_option(Json::Null, &params, &store, &no_models());
    assert_eq!(code(&response), Some(&Json::number("-32000")));
    assert_eq!(message(&response), Some("unknown sessionId: s"));
    assert!(persist.is_none());
    assert_eq!(adapter.sessions.len(), 0);
}

#[test]
fn a_selected_model_survives() {
    let mut adapter = adapter();
    adapter.available_models = Some(vec!["a".to_string()]);
    let params = parse_json(r#"{"sessionId":"s","configId":"model","value":"m"}"#).unwrap();
    let store = Adapter::persist_session(SessionStore::new(), "s", Some("c"), 2, Some("old"));
    assert!(adapter.accepts_config_option(&params, &store));
    let (response, persist) =
        adapter.handle_session_set_config_option(Json::Null, &params, &store, &no_models());
    let result = response.result.unwrap();
    let Some(Json::Array(options)) = result.get("configOptions") else {
        panic!("not a list");
    };
    assert_eq!(options[0].text_member("currentValue"), Some("m"));
    assert_eq!(
        in_memory(&adapter, "s"),
        Some((Some("c".to_string()), 2, Some("m".to_string())))
    );
    let store = written(store, &persist.unwrap());
    assert_eq!(
        Adapter::restore_session(&store, "s"),
        Some(("c".to_string(), 2, Some("m".to_string())))
    );
}

#[test]
fn a_session_in_memory_is_not_looked_for() {
    let mut adapter = adapter();
    assert!(adapter.needs_restore("s"));
    assert!(!adapter.needs_restore(""));
    adapter.open_session(Json::Null, "s", &no_models());
    assert!(!adapter.needs_restore("s"));
    let store = Adapter::persist_session(SessionStore::new(), "s", Some("c"), 2, None);
    let params = parse_json(r#"{"sessionId":"s","configId":"model","value":"m"}"#).unwrap();
    assert!(adapter.accepts_config_option(&params, &SessionStore::new()));
    let (_, persist) =
        adapter.handle_session_set_config_option(Json::Null, &params, &store, &no_models());
    assert_eq!(in_memory(&adapter, "s"), Some((None, -1, Some("m".to_string()))));
    let persist = persist.unwrap();
    assert_eq!(persist.conversation_id, None);
    assert_eq!(persist.model_id, Some("m".to_string()));
}

#[test]
fn tables_keep_one_value_for_each_key() {
    let mut store = SessionStore::new();
    for i in 0..5 {
        store = Adapter::persist_session(store, "x", Some(&format!("c{i}")), i, None);
        store = Adapter::persist_session(store, &format!("y{i}"), Some("d"), i, None);
    }
    assert_eq!(store.sessions.len(), 6);
    let mut keys = store.sessions.keys();
    keys.sort();
    assert_eq!(keys, vec!["x", "y0", "y1", "y2", "y3", "y4"]);
    store.sessions.remove("x");
    store.sessions.remove("nothing");
    assert_eq!(store.sessions.len(), 5);
    assert!(!store.sessions.contains_key("x"));
    assert!(store.sessions.contains_key("y3"));
}
