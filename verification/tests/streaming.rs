use agy_acp::adapter::Adapter;
use agy_acp::json::Json;
use agy_acp::rpc::JsonRpcNotification;
use agy_acp::stream::tool_updates;
use agy_acp::stream::StepRow;
use agy_acp::stream::StreamingState;

fn varint(mut n: usize) -> Vec<u8> {
    let mut bytes = Vec::new();
    loop {
        if n < 128 {
            bytes.push(n as u8);
            break;
        }
        bytes.push((n as u8 & 0x7F) | 0x80);
        n >>= 7;
    }
    bytes
}

fn field(number: usize, content: &[u8]) -> Vec<u8> {
    let mut bytes = varint(number * 8 + 2);
    bytes.extend(varint(content.len()));
    bytes.extend_from_slice(content);
    bytes
}

fn make_payload(text: &str) -> Vec<u8> {
    field(20, &field(1, text.as_bytes()))
}

fn tool_payload(name_field: usize, name: &str, input: Option<&str>) -> Vec<u8> {
    let mut call = field(name_field, name.as_bytes());
    if let Some(input) = input {
        call.extend(field(3, input.as_bytes()));
    }
    field(5, &field(4, &call))
}

fn text_row(idx: i64, text: &str) -> StepRow {
    StepRow { idx, step_type: 15, payload: make_payload(text) }
}

fn update(note: &JsonRpcNotification) -> &Json {
    assert_eq!(note.jsonrpc, "2.0");
    assert_eq!(note.method, "session/update");
    assert_eq!(note.params.text_member("sessionId"), Some("sess-1"));
    note.params.get("update").unwrap()
}

fn chunk(note: &JsonRpcNotification) -> String {
    let update = update(note);
    assert_eq!(update.text_member("sessionUpdate"), Some("agent_message_chunk"));
    let content = update.get("content").unwrap();
    assert_eq!(content.text_member("type"), Some("text"));
    content.text_member("text").unwrap().to_string()
}

fn chunks(state: &mut StreamingState, rows: Vec<StepRow>, show: bool) -> Vec<String> {
    let notes = state.poll_streaming_delta("sess-1", &rows, show).unwrap();
    notes.iter().map(chunk).collect()
}

fn rows_after(all: &[(i64, i64, Vec<u8>)], after: i64) -> Vec<(i64, Vec<u8>)> {
    all.iter()
        .filter(|(idx, step_type, _)| *idx > after && *step_type == 15)
        .map(|(idx, _, payload)| (*idx, payload.clone()))
        .collect()
}

#[test]
fn test_streaming_poll_emits_delta() {
    let mut state = StreamingState::new(Some("stream-conv".to_string()), -1);

    let lines = chunks(&mut state, vec![text_row(1, "hello")], false);
    assert_eq!(lines, vec!["hello"]);

    let lines = chunks(&mut state, vec![text_row(1, "hello")], false);
    assert!(lines.is_empty());

    let lines = chunks(&mut state, vec![text_row(1, "hello world")], false);
    assert_eq!(lines, vec![" world"]);

    assert_eq!(state.last_step_idx, 1);
    assert!(state.had_updates);
    assert_eq!(state.base_step_idx, -1);
    assert_eq!(state.conversation_id, Some("stream-conv".to_string()));
}

#[test]
fn test_read_response_from_db() {
    let mut inner = Vec::new();
    inner.push(0x0A);
    inner.push(11);
    inner.extend_from_slice(b"hello world");
    let mut payload = Vec::new();
    payload.push(0x08);
    payload.push(0x0F);
    payload.push(0xA2);
    payload.push(0x01);
    payload.push(inner.len() as u8);
    payload.extend_from_slice(&inner);
    let steps = vec![(1, 15, payload), (2, 14, vec![0x08u8, 0x0E])];
    let result = Adapter::read_response_from_db(&rows_after(&steps, -1), -1, false);
    assert_eq!(result, Some(("hello world".to_string(), 1)));

    let result = Adapter::read_response_from_db(&rows_after(&steps, 1), 1, false);
    assert_eq!(result, None);
}

#[test]
fn test_read_response_multi_step_no_skip_no_duplicate() {
    let steps = vec![
        (1, 0, vec![0x08, 0x01]),
        (2, 15, make_payload("hello")),
        (3, 0, vec![0x08, 0x02]),
        (4, 15, make_payload("world")),
        (5, 15, make_payload("line1\nline2\nline3")),
    ];
    let read = |after: i64| Adapter::read_response_from_db(&rows_after(&steps, after), after, false);
    assert_eq!(read(-1), Some(("hello\nworld\nline1\nline2\nline3".to_string(), 5)));
    assert_eq!(read(2), Some(("world\nline1\nline2\nline3".to_string(), 5)));
    assert_eq!(read(4), Some(("line1\nline2\nline3".to_string(), 5)));
    assert_eq!(read(5), None);
}

#[test]
fn steps_without_text_count_for_the_last_step() {
    let rows = vec![(3, make_payload("a")), (9, make_payload("")), (7, vec![0x08, 0x01])];
    assert_eq!(Adapter::read_response_from_db(&rows, 0, false), Some(("a".to_string(), 9)));
    assert_eq!(Adapter::read_response_from_db(&rows, 20, false), Some(("a".to_string(), 20)));
    let silent = vec![(3, make_payload("")), (4, vec![0xFF])];
    assert_eq!(Adapter::read_response_from_db(&silent, 0, false), None);
    assert_eq!(Adapter::read_response_from_db(&vec![], 0, false), None);
}

#[test]
fn responses_leave_out_narration() {
    let rows = vec![(1, make_payload("I will look.")), (2, make_payload("Done."))];
    assert_eq!(Adapter::read_response_from_db(&rows, 0, false), Some(("Done.".to_string(), 2)));
    assert_eq!(
        Adapter::read_response_from_db(&rows, 0, true),
        Some(("I will look.\nDone.".to_string(), 2))
    );
}

#[test]
fn growing_texts_arrive_whole() {
    let whole = "größer ✅ and 𝄞 more\nlines";
    let mut state = StreamingState::new(None, 0);
    let mut received = String::new();
    for (end, _) in whole.char_indices().chain(vec![(whole.len(), ' ')]) {
        for piece in chunks(&mut state, vec![text_row(4, &whole[..end])], true) {
            received.push_str(&piece);
        }
        assert_eq!(received, whole[..end]);
    }
}

#[test]
fn several_texts_are_sent_in_their_order() {
    let mut state = StreamingState::new(None, 0);
    assert_eq!(chunks(&mut state, vec![text_row(1, "a"), text_row(3, "b")], false), ["a", "b"]);
    assert_eq!(
        chunks(&mut state, vec![text_row(1, "a"), text_row(3, "bc"), text_row(2, "d")], false),
        ["c", "d"]
    );
    assert_eq!(state.last_step_idx, 3);
    assert!(chunks(&mut state, vec![text_row(3, "b"), text_row(1, "")], false).is_empty());
}

#[test]
fn narration_is_passed_over_and_not_sent_later() {
    let mut state = StreamingState::new(None, 0);
    assert!(chunks(&mut state, vec![text_row(1, "I will look.")], false).is_empty());
    assert!(!state.had_updates);
    assert_eq!(state.last_step_idx, 1);
    assert_eq!(
        chunks(&mut state, vec![text_row(1, "I will look.\nDone.")], false),
        ["\nDone."]
    );
    assert!(state.had_updates);
    let mut shown = StreamingState::new(None, 0);
    assert_eq!(chunks(&mut shown, vec![text_row(1, "I will look.")], true), ["I will look."]);
}

#[test]
fn a_text_is_not_cut_inside_a_character() {
    let mut state = StreamingState::new(None, 0);
    assert_eq!(chunks(&mut state, vec![text_row(1, "ab")], true), ["ab"]);
    let rows = vec![text_row(2, "x"), text_row(1, "a✅")];
    assert!(state.poll_streaming_delta("sess-1", &rows, true).is_none());
}

#[test]
fn tool_calls_are_announced_once_with_their_title() {
    let mut state = StreamingState::new(None, 0);
    let row = |payload: Vec<u8>| vec![StepRow { idx: 6, step_type: 21, payload }];
    let payload = tool_payload(2, "view_file", Some(r#"{"AbsolutePath":"/a/b"}"#));
    let rows = row(payload.clone());
    let notes = state.poll_streaming_delta("sess-1", &rows, false).unwrap();
    assert_eq!(notes.len(), 2);
    let start = update(&notes[0]);
    assert_eq!(start.text_member("sessionUpdate"), Some("tool_call"));
    assert_eq!(start.text_member("toolCallId"), Some("agy-6-21"));
    assert_eq!(start.text_member("title"), Some("view_file: /a/b"));
    assert_eq!(
        start.get("rawInput").unwrap().text_member("AbsolutePath"),
        Some("/a/b")
    );
    let end = update(&notes[1]);
    assert_eq!(end.text_member("sessionUpdate"), Some("tool_call_update"));
    assert_eq!(end.text_member("toolCallId"), Some("agy-6-21"));
    assert_eq!(end.text_member("title"), Some("view_file: /a/b"));
    assert_eq!(end.text_member("status"), Some("completed"));
    assert!(state.had_updates);

    let changed = row(tool_payload(2, "other", None));
    assert!(state.poll_streaming_delta("sess-1", &changed, false).unwrap().is_empty());
    assert_eq!(state.last_step_idx, 6);
}

#[test]
fn tool_calls_wait_for_their_name() {
    let mut state = StreamingState::new(None, -1);
    let row = |payload: Vec<u8>| vec![StepRow { idx: -2, step_type: 5, payload }];
    assert!(state.poll_streaming_delta("sess-1", &row(vec![]), false).unwrap().is_empty());
    let unnamed = row(tool_payload(2, "", None));
    assert!(state.poll_streaming_delta("sess-1", &unnamed, false).unwrap().is_empty());
    let named = row(tool_payload(9, "run", Some("not json")));
    let notes = state.poll_streaming_delta("sess-1", &named, false).unwrap();
    assert_eq!(notes.len(), 2);
    assert_eq!(update(&notes[0]).text_member("title"), Some("run"));
    assert_eq!(update(&notes[0]).text_member("toolCallId"), Some("agy--2-5"));
    assert!(update(&notes[0]).get("rawInput").is_none());
    assert_eq!(state.last_step_idx, -1);
}

#[test]
fn other_steps_are_not_sent() {
    let mut state = StreamingState::new(None, 0);
    let rows = vec![StepRow { idx: 4, step_type: 14, payload: make_payload("x") }];
    assert!(state.poll_streaming_delta("sess-1", &rows, true).unwrap().is_empty());
    assert_eq!(state.last_step_idx, 4);
    assert!(!state.had_updates);
}

#[test]
fn a_prompt_is_bound_to_the_only_new_conversation() {
    let names = |list: &[&str]| {
        let files: Vec<String> = list.iter().map(|n| format!("{n}.db")).collect();
        Adapter::conversation_snapshot(&files)
    };
    let before = names(&["a"]);
    let mut state = StreamingState::new(None, 3);
    state.bind_conversation(Some(&before), &names(&["a"]));
    assert_eq!(state.conversation_id, None);
    state.bind_conversation(Some(&before), &names(&["a", "b", "c"]));
    assert_eq!(state.conversation_id, None);
    state.bind_conversation(None, &names(&["a", "b"]));
    assert_eq!(state.conversation_id, None);
    state.bind_conversation(Some(&before), &names(&["b", "a"]));
    assert_eq!(state.conversation_id, Some("b".to_string()));
    state.bind_conversation(Some(&before), &names(&["c"]));
    assert_eq!(state.conversation_id, Some("b".to_string()));
    assert_eq!(state.base_step_idx, 3);
}

#[test]
fn titles_say_what_a_tool_works_on() {
    let title = |input: &str| Adapter::tool_call_title("t", &agy_acp::json::parse_json(input));
    assert_eq!(title(r#"{"path":"p","file":"f","query":"q"}"#), "t: p");
    assert_eq!(title(r#"{"path":1,"file":"f"}"#), "t: f");
    assert_eq!(title(r#"{"FilePath":"y","AbsolutePath":"x"}"#), "t: x");
    assert_eq!(title(r#"{"FilePath":"y","command":"c"}"#), "t: y");
    assert_eq!(title(r#"{"text":"x","command":"c","query":"q"}"#), "t: q");
    assert_eq!(title(r#"{"text":"x","command":"c"}"#), "t: c");
    assert_eq!(title(r#"{"text":"x"}"#), "t: x");
    assert_eq!(title(r#"{"other":"x"}"#), "t");
    assert_eq!(title(r#"["path"]"#), "t");
    assert_eq!(title(""), "t");
    let long = "ß".repeat(61);
    assert_eq!(title(&format!(r#"{{"query":"{long}"}}"#)), format!("t: {}", "ß".repeat(60)));
    assert_eq!(title(&format!(r#"{{"path":"{long}"}}"#)), format!("t: {long}"));
}

#[test]
fn tool_calls_are_read_from_payloads() {
    let read = Adapter::extract_tool_from_step_payload;
    let payload = tool_payload(2, "ls", Some("{\"path\":\".\"}"));
    assert_eq!(
        read(&payload),
        Some(("ls".to_string(), Some(Json::object().with("path", Json::text(".")))))
    );
    assert_eq!(read(&tool_payload(9, "ls", None)), Some(("ls".to_string(), None)));
    assert_eq!(read(&tool_payload(4, "ls", None)), None);
    assert_eq!(read(&[]), None);
    assert_eq!(read(&make_payload("x")), None);
}

#[test]
fn tool_updates_carry_the_input_of_the_call() {
    let row = StepRow { idx: 12, step_type: 138, payload: vec![] };
    let input = || Json::object().with("command", Json::text("ls -l"));
    let (start, end) = tool_updates(&row, "run", Some(input()));
    assert_eq!(
        start,
        Json::object()
            .with("sessionUpdate", Json::text("tool_call"))
            .with("toolCallId", Json::text("agy-12-138"))
            .with("title", Json::text("run: ls -l"))
            .with("rawInput", input())
    );
    assert_eq!(
        end,
        Json::object()
            .with("sessionUpdate", Json::text("tool_call_update"))
            .with("toolCallId", Json::text("agy-12-138"))
            .with("title", Json::text("run: ls -l"))
            .with("status", Json::text("completed"))
    );
    let (start, end) = tool_updates(&row, "run", None);
    assert_eq!(start.text_member("title"), Some("run"));
    assert_eq!(start.get("rawInput"), None);
    assert_eq!(end.text_member("title"), Some("run"));
}
