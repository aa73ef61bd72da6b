use agy_acp::adapter::Adapter;
use agy_acp::dispatch::route;
use agy_acp::dispatch::Action;
use agy_acp::dispatch::EventLoop;
use agy_acp::dispatch::Input;
use agy_acp::dispatch::Output;
use agy_acp::dispatch::Reaction;
use agy_acp::dispatch::RunningPrompts;
use agy_acp::dispatch::Wait;
use agy_acp::json::parse_json;
use agy_acp::json::Json;
use agy_acp::rpc::JsonRpcRequest;
use agy_acp::rpc::JsonRpcResponse;
use agy_acp::table::Table;

fn adapter() -> Adapter {
    Adapter {
        sessions: Table::new(),
        working_dir: "/tmp".to_string(),
        conversations_dir: "/tmp".to_string(),
        state_file: "/tmp/sessions.json".to_string(),
        available_models: Some(vec![]),
    }
}

fn request(id: Option<Json>, method: Option<&str>, params: Option<&str>) -> JsonRpcRequest {
    JsonRpcRequest {
        id,
        method: method.map(|m| m.to_string()),
        params: params.map(|p| parse_json(p).unwrap()),
    }
}

fn error_of(response: &JsonRpcResponse) -> (Option<&Json>, Option<&str>) {
    let error = response.error.as_ref().unwrap();
    (error.get("code"), error.text_member("message"))
}

#[test]
fn test_initialize_advertises_load_session_support() {
    let response = adapter().handle_initialize(Json::number("1"), "0.1.0");
    assert_eq!(
        response
            .result
            .as_ref()
            .and_then(|r| r.get("agentCapabilities"))
            .and_then(|c| c.get("loadSession"))
            .and_then(|v| v.as_bool()),
        Some(true)
    );
}

#[test]
fn initialize_describes_the_agent() {
    let response = adapter().handle_initialize(Json::text("a"), "7.8.9");
    assert_eq!(response.jsonrpc, "2.0");
    assert_eq!(response.id, Json::text("a"));
    assert!(response.error.is_none());
    let expected = r#"{"protocolVersion":1,"agentInfo":{"name":"agy","version":"7.8.9"},
        "agentCapabilities":{"streaming":true,"loadSession":true}}"#;
    let result = response.result.unwrap();
    let expected = parse_json(expected).unwrap();
    for name in ["protocolVersion", "agentInfo", "agentCapabilities"] {
        assert!(result.get(name).is_some());
    }
    assert_eq!(result.get("protocolVersion"), expected.get("protocolVersion"));
    assert_eq!(result.get("agentInfo").unwrap().text_member("name"), Some("agy"));
    assert_eq!(result.get("agentInfo").unwrap().text_member("version"), Some("7.8.9"));
    let streaming = result.get("agentCapabilities").unwrap().get("streaming").unwrap();
    assert_eq!(streaming.as_bool(), Some(true));
}

fn request_of(json_str: &str) -> JsonRpcRequest {
    let mut req = JsonRpcRequest { id: None, method: None, params: None };
    let Some(Json::Object(members)) = parse_json(json_str) else {
        panic!("not an object");
    };
    for (name, value) in members {
        match name.as_str() {
            "id" => req.id = Some(value),
            "method" => req.method = value.as_str().map(|m| m.to_string()),
            "params" => req.params = Some(value),
            _ => {}
        }
    }
    req
}

#[test]
fn test_json_rpc_id_as_string() {
    let json_str = r#"{"jsonrpc":"2.0","id":"abc-123","method":"initialize","params":{}}"#;
    let req = request_of(json_str);
    assert_eq!(req.id, Some(Json::text("abc-123")));
    let Action::Initialize { id } = route(req) else {
        panic!("not routed");
    };
    assert_eq!(adapter().handle_initialize(id, "0.1.0").id, Json::text("abc-123"));
}

#[test]
fn test_json_rpc_id_as_number() {
    let json_str = r#"{"jsonrpc":"2.0","id":42,"method":"initialize","params":{}}"#;
    let req = request_of(json_str);
    assert_eq!(req.id, Some(Json::number("42")));
    let Action::Initialize { id } = route(req) else {
        panic!("not routed");
    };
    assert_eq!(adapter().handle_initialize(id, "0.1.0").id, Json::number("42"));
}

#[test]
fn json_values_are_read_one_for_one() {
    let text = r#" {"n":null,"b":true,"i":-7,"f":1.5,"s":"a\nß","l":[1,[],{}],"o":{"x":false}} "#;
    let value = parse_json(text).unwrap();
    assert_eq!(value.get("n"), Some(&Json::Null));
    assert_eq!(value.get("b"), Some(&Json::Bool(true)));
    assert_eq!(value.get("i"), Some(&Json::number("-7")));
    assert_eq!(value.get("f"), Some(&Json::number("1.5")));
    assert_eq!(value.text_member("s"), Some("a\nß"));
    assert_eq!(
        value.get("l"),
        Some(&Json::array(vec![Json::number("1"), Json::array(vec![]), Json::object()]))
    );
    assert_eq!(value.get("o").unwrap().get("x").unwrap().as_bool(), Some(false));
    assert_eq!(value.get("missing"), None);
    assert_eq!(value.text_member("b"), None);
    assert_eq!(Json::text("x").get("x"), None);
    assert_eq!(parse_json("{"), None);
    assert_eq!(parse_json("1 2"), None);
    assert_eq!(parse_json(""), None);
}

#[test]
fn members_are_found_under_their_names() {
    let value = Json::object().with("a", Json::Null).with("b", Json::text("1")).with(
        "b",
        Json::text("2"),
    );
    assert_eq!(value.get("a"), Some(&Json::Null));
    assert_eq!(value.text_member("b"), Some("1"));
    assert_eq!(Json::Null.with("a", Json::Null), Json::Null);
}

#[test]
fn calls_are_routed_by_their_method() {
    let id = || Some(Json::number("5"));
    let params = Some(r#"{"sessionId":"s1","x":1}"#);
    assert!(matches!(
        route(request(id(), Some("initialize"), params)),
        Action::Initialize { id } if id == Json::number("5")
    ));
    assert!(matches!(
        route(request(id(), Some("session/new"), None)),
        Action::NewSession { id } if id == Json::number("5")
    ));
    match route(request(id(), Some("session/load"), params)) {
        Action::LoadSession { id, params } => {
            assert_eq!(id, Json::number("5"));
            assert_eq!(params.text_member("sessionId"), Some("s1"));
            assert_eq!(params.get("x"), Some(&Json::number("1")));
        }
        _ => panic!("not routed"),
    }
    match route(request(id(), Some("session/prompt"), params)) {
        Action::Prompt { id, params, session_id } => {
            assert_eq!(id, Json::number("5"));
            assert_eq!(params.text_member("sessionId"), Some("s1"));
            assert_eq!(session_id, "s1");
        }
        _ => panic!("not routed"),
    }
    for method in ["session/setConfigOption", "session/set_config_option"] {
        match route(request(id(), Some(method), None)) {
            Action::SetConfigOption { id, params } => {
                assert_eq!(id, Json::number("5"));
                assert_eq!(params, Json::object());
            }
            _ => panic!("not routed"),
        }
    }
}

#[test]
fn prompts_without_a_session_have_an_empty_one() {
    match route(request(Some(Json::Null), Some("session/prompt"), Some(r#"{"sessionId":3}"#))) {
        Action::Prompt { session_id, .. } => assert_eq!(session_id, ""),
        _ => panic!("not routed"),
    }
}

#[test]
fn cancelling_is_answered_with_an_empty_result() {
    let params = Some(r#"{"sessionId":"s1"}"#);
    match route(request(Some(Json::text("c")), Some("session/cancel"), params)) {
        Action::Reply { cancel, response } => {
            assert_eq!(cancel, Some("s1".to_string()));
            assert_eq!(response.jsonrpc, "2.0");
            assert_eq!(response.id, Json::text("c"));
            assert_eq!(response.result, Some(Json::object()));
            assert_eq!(response.error, None);
        }
        _ => panic!("not routed"),
    }
    match route(request(Some(Json::text("c")), Some("session/cancel"), None)) {
        Action::Reply { cancel, response } => {
            assert_eq!(cancel, None);
            assert_eq!(response.result, Some(Json::object()));
        }
        _ => panic!("not routed"),
    }
}

#[test]
fn unknown_methods_are_refused() {
    match route(request(Some(Json::number("3")), Some("bogus/method"), Some("{}"))) {
        Action::Reply { cancel, response } => {
            assert_eq!(cancel, None);
            assert_eq!(response.id, Json::number("3"));
            assert_eq!(response.result, None);
            assert_eq!(
                error_of(&response),
                (Some(&Json::number("-32601")), Some("method not found: bogus/method"))
            );
        }
        _ => panic!("not routed"),
    }
}

#[test]
fn notifications_only_cancel() {
    let params = Some(r#"{"sessionId":"s1"}"#);
    assert!(matches!(
        route(request(None, Some("session/cancel"), params)),
        Action::Cancel { session_id } if session_id == "s1"
    ));
    assert!(matches!(route(request(None, Some("session/cancel"), None)), Action::Skip));
    assert!(matches!(route(request(None, Some("session/new"), params)), Action::Skip));
    assert!(matches!(route(request(None, None, None)), Action::Skip));
    assert!(matches!(route(request(Some(Json::Null), None, params)), Action::Skip));
}

#[test]
fn the_adapter_runs_until_everything_is_answered() {
    let mut events = EventLoop::new();
    assert!(matches!(events.wait(), Wait::Any));
    let call = request(Some(Json::number("1")), Some("session/new"), None);
    assert!(matches!(events.input(Input::Request(call)), Action::NewSession { .. }));
    assert_eq!(events.pending_prompts, 1);
    let call = request(Some(Json::number("2")), Some("session/prompt"), None);
    assert!(matches!(events.input(Input::Request(call)), Action::Prompt { .. }));
    assert_eq!(events.pending_prompts, 2);
    let call = request(Some(Json::number("3")), Some("bogus"), None);
    assert!(matches!(events.input(Input::Request(call)), Action::Reply { .. }));
    assert!(matches!(events.input(Input::Malformed), Action::Skip));
    assert_eq!(events.pending_prompts, 2);
    assert!(matches!(events.output(Output::Closed), Reaction::Continue));
    assert!(matches!(events.input(Input::Closed), Action::Skip));
    assert!(matches!(events.wait(), Wait::Output));
    match events.output(Output::Line("x".to_string())) {
        Reaction::Write(line) => assert_eq!(line, "x"),
        _ => panic!("not written"),
    }
    assert!(matches!(events.output(Output::Finished), Reaction::Continue));
    assert!(matches!(events.wait(), Wait::Output));
    assert!(matches!(events.output(Output::Finished), Reaction::Continue));
    assert!(matches!(events.wait(), Wait::Stop));
    assert!(matches!(events.output(Output::Finished), Reaction::Continue));
    assert_eq!(events.pending_prompts, 0);
    assert!(matches!(events.output(Output::Closed), Reaction::Stop));
}

#[test]
fn cancelling_reaches_the_latest_prompt_of_a_session() {
    let mut running = RunningPrompts::new();
    assert_eq!(running.cancelled("s"), None);
    running.begin("s", 1);
    running.begin("t", 2);
    running.begin("", 3);
    assert_eq!(running.cancelled("s"), Some(1));
    assert_eq!(running.cancelled("t"), Some(2));
    assert_eq!(running.cancelled(""), None);
    running.begin("s", 4);
    assert_eq!(running.cancelled("s"), Some(4));
    running.end("");
    running.end("s");
    assert_eq!(running.cancelled("s"), None);
    assert_eq!(running.cancelled("t"), Some(2));
    running.end("s");
    running.end("t");
    assert_eq!(running.cancelled("t"), None);
}
