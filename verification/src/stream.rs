//! Streaming: turning the steps of a conversation into updates for the client.

use std::collections::HashMap;
use std::collections::HashSet;
use vstd::prelude::*;
use vstd::std_specs::hash::*;
use vstd::utf8::*;
use crate::adapter::Adapter;
use crate::json::opt_tree;
use crate::json::Json;
use crate::json::JsonTree;
use crate::narration::narrates;
use crate::proto::step_text;
use crate::proto::tool_step_type;
use crate::rpc::JsonRpcNotification;
use crate::rpc::NotificationView;
use crate::table::NameSet;
use crate::text;
use crate::tools::step_tool;
use crate::tools::tool_title;
use crate::tools::ToolCallView;

verus! {

/// The type of the steps that carry the text of a response.
pub const TEXT_STEP: i64 = 15;

/// A step of a conversation.
pub struct StepRow {
    pub idx: i64,
    pub step_type: i64,
    pub payload: Vec<u8>,
}

pub struct RowView {
    pub idx: i64,
    pub step_type: i64,
    pub payload: Seq<u8>,
}

impl View for StepRow {
    type V = RowView;

    open spec fn view(&self) -> RowView {
        RowView { idx: self.idx, step_type: self.step_type, payload: self.payload@ }
    }
}

/// What the rows of a list say.
pub open spec fn row_views(rows: Seq<StepRow>) -> Seq<RowView> {
    rows.map_values(|row: StepRow| row@)
}

/// How far the updates of a prompt have come.
pub struct StreamingState {
    pub conversation_id: Option<String>,
    pub base_step_idx: i64,
    pub last_step_idx: i64,
    /// How many bytes of the text of each step have been emitted.
    pub emitted_len: HashMap<i64, usize>,
    /// The tool steps that have been emitted.
    pub emitted_tool_steps: HashSet<i64>,
    pub had_updates: bool,
}

pub struct StreamView {
    pub conversation_id: Option<Seq<char>>,
    pub base_step_idx: i64,
    pub last_step_idx: i64,
    pub emitted_len: Map<i64, usize>,
    pub emitted_tool_steps: Set<i64>,
    pub had_updates: bool,
}

impl View for StreamingState {
    type V = StreamView;

    open spec fn view(&self) -> StreamView {
        StreamView {
            conversation_id: text::opt_text(self.conversation_id),
            base_step_idx: self.base_step_idx,
            last_step_idx: self.last_step_idx,
            emitted_len: self.emitted_len@,
            emitted_tool_steps: self.emitted_tool_steps@,
            had_updates: self.had_updates,
        }
    }
}

/// The number of bytes of the step's text that have been emitted.
pub open spec fn emitted(state: StreamView, idx: i64) -> usize {
    if state.emitted_len.contains_key(idx) {
        state.emitted_len[idx]
    } else {
        0
    }
}

/// What follows the first `n` bytes of a text.
pub open spec fn text_after(t: Seq<char>, n: int) -> Seq<char> {
    decode_utf8(encode_utf8(t).skip(n))
}

/// The text that a step adds to what has been emitted of it.
pub open spec fn grown_text(state: StreamView, row: RowView) -> Option<Seq<char>> {
    if row.step_type == TEXT_STEP {
        match step_text(row.payload) {
            Some(t) => if encode_utf8(t).len() > emitted(state, row.idx) {
                Some(t)
            } else {
                None
            },
            None => None,
        }
    } else {
        None
    }
}

/// The step is a tool call that has not been emitted yet.
pub open spec fn fresh_tool(state: StreamView, row: RowView) -> bool {
    &&& tool_step_type(row.step_type)
    &&& !state.emitted_tool_steps.contains(row.idx)
    &&& step_tool(row.payload) is Some
}

/// The text of the step is passed over as narration.
pub open spec fn passed_over(t: Seq<char>, show_narration: bool) -> bool {
    !show_narration && narrates(t)
}

/// The state once a step has been looked at.
pub open spec fn advanced(state: StreamView, row: RowView) -> StreamView {
    StreamView {
        last_step_idx: if row.idx > state.last_step_idx {
            row.idx
        } else {
            state.last_step_idx
        },
        emitted_len: match grown_text(state, row) {
            Some(t) => state.emitted_len.insert(row.idx, encode_utf8(t).len() as usize),
            None => state.emitted_len,
        },
        emitted_tool_steps: if fresh_tool(state, row) {
            state.emitted_tool_steps.insert(row.idx)
        } else {
            state.emitted_tool_steps
        },
        ..state
    }
}

/// The state once all these steps have been looked at in their order.
pub open spec fn advanced_all(state: StreamView, rows: Seq<RowView>) -> StreamView
    decreases rows.len(),
{
    if rows.len() == 0 {
        state
    } else {
        advanced(advanced_all(state, rows.drop_last()), rows.last())
    }
}

/// The notification of a session update.
pub open spec fn session_update(session_id: Seq<char>, update: JsonTree) -> NotificationView {
    NotificationView {
        jsonrpc: "2.0"@,
        method: "session/update"@,
        params: JsonTree::object().with("sessionId"@, JsonTree::Text(session_id)).with(
            "update"@,
            update,
        ),
    }
}

/// The update that carries a piece of the response.
pub open spec fn message_chunk(t: Seq<char>) -> JsonTree {
    JsonTree::object().with("sessionUpdate"@, JsonTree::Text("agent_message_chunk"@)).with(
        "content"@,
        JsonTree::object().with("type"@, JsonTree::Text("text"@)).with("text"@, JsonTree::Text(t)),
    )
}

/// The id of the tool call of a step.
pub open spec fn tool_call_id(row: RowView) -> Seq<char> {
    "agy-"@ + text::decimal(row.idx as int) + "-"@ + text::decimal(row.step_type as int)
}

/// The update that announces a tool call.
pub open spec fn tool_call(row: RowView, call: ToolCallView) -> JsonTree {
    let update = JsonTree::object().with("sessionUpdate"@, JsonTree::Text("tool_call"@)).with(
        "toolCallId"@,
        JsonTree::Text(tool_call_id(row)),
    ).with("title"@, JsonTree::Text(tool_title(call.name, call.input)));
    match call.input {
        Some(input) => update.with("rawInput"@, input),
        None => update,
    }
}

/// The update that ends a tool call.
pub open spec fn tool_call_completed(row: RowView, call: ToolCallView) -> JsonTree {
    JsonTree::object().with("sessionUpdate"@, JsonTree::Text("tool_call_update"@)).with(
        "toolCallId"@,
        JsonTree::Text(tool_call_id(row)),
    ).with("title"@, JsonTree::Text(tool_title(call.name, call.input))).with(
        "status"@,
        JsonTree::Text("completed"@),
    )
}

/// The notifications of a step: the text it adds, unless that is narration to be passed
/// over, or the start and the end of its tool call.
pub open spec fn row_notes(
    state: StreamView,
    session_id: Seq<char>,
    row: RowView,
    show_narration: bool,
) -> Seq<NotificationView> {
    match grown_text(state, row) {
        Some(t) => if passed_over(t, show_narration) {
            seq![]
        } else {
            seq![
                session_update(
                    session_id,
                    message_chunk(text_after(t, emitted(state, row.idx) as int)),
                ),
            ]
        },
        None => if fresh_tool(state, row) {
            let call = step_tool(row.payload)->0;
            seq![
                session_update(session_id, tool_call(row, call)),
                session_update(session_id, tool_call_completed(row, call)),
            ]
        } else {
            seq![]
        },
    }
}

/// The notifications of all these steps in their order.
pub open spec fn notes(
    state: StreamView,
    session_id: Seq<char>,
    rows: Seq<RowView>,
    show_narration: bool,
) -> Seq<NotificationView>
    decreases rows.len(),
{
    if rows.len() == 0 {
        seq![]
    } else {
        notes(state, session_id, rows.drop_last(), show_narration) + row_notes(
            advanced_all(state, rows.drop_last()),
            session_id,
            rows.last(),
            show_narration,
        )
    }
}

/// The text that the step adds, where it is emitted, begins with a whole character.
pub open spec fn row_ready(state: StreamView, row: RowView, show_narration: bool) -> bool {
    match grown_text(state, row) {
        Some(t) => passed_over(t, show_narration) || is_char_boundary(
            encode_utf8(t),
            emitted(state, row.idx) as int,
        ),
        None => true,
    }
}

/// The step at `k` is ready when its turn comes.
pub open spec fn ready_at(
    state: StreamView,
    rows: Seq<RowView>,
    k: int,
    show_narration: bool,
) -> bool {
    row_ready(advanced_all(state, rows.take(k)), rows[k], show_narration)
}

/// Each step is ready when its turn comes.
pub open spec fn rows_ready(
    state: StreamView,
    rows: Seq<RowView>,
    show_narration: bool,
) -> bool {
    forall|k: int| 0 <= k < rows.len() ==> #[trigger] ready_at(state, rows, k, show_narration)
}

/// The state after a poll that found these steps.
pub open spec fn polled(
    state: StreamView,
    session_id: Seq<char>,
    rows: Seq<RowView>,
    show_narration: bool,
) -> StreamView {
    StreamView {
        had_updates: state.had_updates || notes(
            state,
            session_id,
            rows,
            show_narration,
        ).len() > 0,
        ..advanced_all(state, rows)
    }
}

/// What the notifications of a list say.
pub open spec fn note_views(list: Seq<JsonRpcNotification>) -> Seq<NotificationView> {
    list.map_values(|n: JsonRpcNotification| n@)
}

/// The notification of a session update.
fn update_notification(session_id: &str, update: Json) -> (r: JsonRpcNotification)
    ensures
        r@ == session_update(session_id@, update@),
{
    JsonRpcNotification {
        jsonrpc: "2.0",
        method: "session/update".to_owned(),
        params: Json::object().with("sessionId", Json::text(session_id)).with("update", update),
    }
}

/// The updates of a tool call: the one that announces it and the one that ends it.
pub fn tool_updates(row: &StepRow, name: &str, input: Option<Json>) -> (r: (Json, Json))
    ensures
        r.0@ == tool_call(row@, ToolCallView { name: name@, input: opt_tree(input) }),
        r.1@ == tool_call_completed(row@, ToolCallView { name: name@, input: opt_tree(input) }),
{
    let title = Adapter::tool_call_title(name, &input);
    let mut id = text::concat("agy-", text::numeral_of(row.idx).as_str());
    id.append("-");
    id.append(text::numeral_of(row.step_type).as_str());
    assert(id@ == tool_call_id(row@));
    let mut start = Json::object().with("sessionUpdate", Json::text("tool_call")).with(
        "toolCallId",
        Json::text(id.as_str()),
    ).with("title", Json::text(title.as_str()));
    if let Some(v) = input {
        start = start.with("rawInput", v);
    }
    let end = Json::object().with("sessionUpdate", Json::text("tool_call_update")).with(
        "toolCallId",
        Json::text(id.as_str()),
    ).with("title", Json::text(title.as_str())).with("status", Json::text("completed"));
    (start, end)
}

impl StreamingState {
    /// The state at the start of a prompt.
    pub fn new(conversation_id: Option<String>, step_idx: i64) -> (r: StreamingState)
        ensures
            r@ == (StreamView {
                conversation_id: text::opt_text(conversation_id),
                base_step_idx: step_idx,
                last_step_idx: step_idx,
                emitted_len: Map::empty(),
                emitted_tool_steps: Set::empty(),
                had_updates: false,
            }),
    {
        StreamingState {
            conversation_id,
            base_step_idx: step_idx,
            last_step_idx: step_idx,
            emitted_len: HashMap::new(),
            emitted_tool_steps: HashSet::new(),
            had_updates: false,
        }
    }

    /// Binds the prompt to the conversation that it created, where it is not bound and the
    /// conversation is the only new one.
    pub fn bind_conversation(&mut self, before: Option<&NameSet>, after: &NameSet)
        ensures
            ({
                let now = final(self)@;
                let was = old(self)@;
                &&& now == StreamView { conversation_id: now.conversation_id, ..was }
                &&& if was.conversation_id is None && before is Some {
                    match now.conversation_id {
                        Some(c) => after@.difference(before->0@) == set![c],
                        None => forall|c: Seq<char>|
                            after@.difference(before->0@) != #[trigger] set![c],
                    }
                } else {
                    now.conversation_id == was.conversation_id
                }
            }),
    {
        if self.conversation_id.is_none() {
            if let Some(b) = before {
                self.conversation_id = Adapter::new_conversation_id(b, after);
            }
        }
    }

    /// The number of bytes of the step's text that have been emitted.
    fn emitted(&self, idx: i64) -> (r: usize)
        ensures
            r == emitted(self@, idx),
    {
        broadcast use group_hash_axioms;

        match self.emitted_len.get(&idx) {
            Some(n) => *n,
            None => 0,
        }
    }

    /// The text of a step that has grown since it was last looked at.
    fn grown(&self, row: &StepRow) -> (r: Option<String>)
        ensures
            text::opt_text(r) == grown_text(self@, row@),
    {
        if row.step_type != TEXT_STEP {
            return None;
        }
        match Adapter::extract_text_from_step_payload(row.payload.as_slice()) {
            Some(t) => if text::byte_length(t.as_str()) > self.emitted(row.idx) {
                Some(t)
            } else {
                None
            },
            None => None,
        }
    }

    /// Looks at a text step: emits what its text has grown by.
    fn text_row(
        &mut self,
        session_id: &str,
        row: &StepRow,
        t: String,
        show_narration: bool,
        out: &mut Vec<JsonRpcNotification>,
    ) -> (r: bool)
        requires
            grown_text(old(self)@, row@) == Some(t@),
        ensures
            r == row_ready(old(self)@, row@, show_narration),
            r ==> final(self)@ == (StreamView {
                last_step_idx: old(self)@.last_step_idx,
                ..advanced(old(self)@, row@)
            }),
            r ==> note_views(final(out)@) == note_views(old(out)@) + row_notes(
                old(self)@,
                session_id@,
                row@,
                show_narration,
            ),
            !r ==> final(self)@ == old(self)@,
    {
        broadcast use group_hash_axioms;

        let from = self.emitted(row.idx);
        let size = text::byte_length(t.as_str());
        if !show_narration && Adapter::is_narration(t.as_str()) {
            self.emitted_len.insert(row.idx, size);
            assert(self@.emitted_tool_steps =~= advanced(old(self)@, row@).emitted_tool_steps);
            assert(note_views(out@) =~= note_views(old(out)@) + row_notes(
                old(self)@,
                session_id@,
                row@,
                show_narration,
            ));
            return true;
        }
        if !t.as_str().is_char_boundary(from) {
            return false;
        }
        let (_, new_text) = t.as_str().split_at(from);
        proof {
            encode_utf8_decode_utf8(new_text@);
            assert(encode_utf8(t@).skip(from as int) == encode_utf8(t@).subrange(
                from as int,
                encode_utf8(t@).len() as int,
            ));
        }
        self.emitted_len.insert(row.idx, size);
        let content = Json::object().with("type", Json::text("text")).with(
            "text",
            Json::text(new_text),
        );
        let update = Json::object().with("sessionUpdate", Json::text("agent_message_chunk")).with(
            "content",
            content,
        );
        let ghost added = session_update(session_id@, update@);
        out.push(update_notification(session_id, update));
        assert(note_views(out@) =~= note_views(old(out)@) + seq![added]);
        true
    }

    /// Looks at a tool step that has not been emitted: emits its start and its end.
    fn tool_row(&mut self, session_id: &str, row: &StepRow, out: &mut Vec<JsonRpcNotification>)
        requires
            row.step_type != TEXT_STEP,
            tool_step_type(row.step_type),
            !old(self)@.emitted_tool_steps.contains(row.idx),
        ensures
            final(self)@ == (StreamView {
                last_step_idx: old(self)@.last_step_idx,
                ..advanced(old(self)@, row@)
            }),
            forall|show: bool|
                note_views(final(out)@) == note_views(old(out)@) + #[trigger] row_notes(
                    old(self)@,
                    session_id@,
                    row@,
                    show,
                ),
    {
        broadcast use group_hash_axioms;

        match Adapter::extract_tool_from_step_payload(row.payload.as_slice()) {
            None => {
                assert forall|show: bool| note_views(out@) == note_views(old(out)@)
                    + #[trigger] row_notes(old(self)@, session_id@, row@, show) by {
                    assert(note_views(out@) =~= note_views(old(out)@) + row_notes(
                        old(self)@,
                        session_id@,
                        row@,
                        show,
                    ));
                }
            },
            Some((name, input)) => {
                self.emitted_tool_steps.insert(row.idx);
                let (start, end) = tool_updates(row, name.as_str(), input);
                let ghost first = session_update(session_id@, start@);
                let ghost second = session_update(session_id@, end@);
                out.push(update_notification(session_id, start));
                out.push(update_notification(session_id, end));
                assert(note_views(out@) =~= note_views(old(out)@) + seq![first, second]);
            },
        }
    }

    /// Looks at a step and adds its notifications to `out`; whether the step was ready.
    fn row(
        &mut self,
        session_id: &str,
        row: &StepRow,
        show_narration: bool,
        out: &mut Vec<JsonRpcNotification>,
    ) -> (r: bool)
        ensures
            r == row_ready(old(self)@, row@, show_narration),
            r ==> final(self)@ == advanced(old(self)@, row@),
            r ==> note_views(final(out)@) == note_views(old(out)@) + row_notes(
                old(self)@,
                session_id@,
                row@,
                show_narration,
            ),
            !r ==> final(self)@ == old(self)@,
    {
        broadcast use group_hash_axioms;

        assert(note_views(out@) =~= note_views(out@) + Seq::<NotificationView>::empty());
        match self.grown(row) {
            Some(t) => {
                if !self.text_row(session_id, row, t, show_narration, out) {
                    return false;
                }
            },
            None => {
                if row.step_type != TEXT_STEP && Adapter::is_tool_step_type(row.step_type)
                    && !self.emitted_tool_steps.contains(&row.idx) {
                    self.tool_row(session_id, row, out);
                }
            },
        }
        if row.idx > self.last_step_idx {
            self.last_step_idx = row.idx;
        }
        true
    }

    /// Looks at the steps that a poll found, and returns the notifications to send. Nothing
    /// is returned where the text of a step, when its turn comes, would be cut inside a
    /// character; the steps before it have been looked at then.
    pub fn poll_streaming_delta(
        &mut self,
        session_id: &str,
        rows: &Vec<StepRow>,
        show_narration: bool,
    ) -> (r: Option<Vec<JsonRpcNotification>>)
        ensures
            match r {
                Some(list) => {
                    &&& rows_ready(old(self)@, row_views(rows@), show_narration)
                    &&& note_views(list@) == notes(
                        old(self)@,
                        session_id@,
                        row_views(rows@),
                        show_narration,
                    )
                    &&& final(self)@ == polled(
                        old(self)@,
                        session_id@,
                        row_views(rows@),
                        show_narration,
                    )
                },
                None => {
                    &&& !rows_ready(old(self)@, row_views(rows@), show_narration)
                    &&& exists|k: int|
                        0 <= k < rows@.len() && !#[trigger] ready_at(
                            old(self)@,
                            row_views(rows@),
                            k,
                            show_narration,
                        ) && final(self)@ == advanced_all(old(self)@, row_views(rows@).take(k))
                },
            },
    {
        let ghost all = row_views(rows@);
        let ghost start = self@;
        let mut out: Vec<JsonRpcNotification> = Vec::new();
        let mut i: usize = 0;
        proof {
            reveal(looked_at);
            assert(note_views(out@) =~= Seq::<NotificationView>::empty());
            assert(all.take(0) =~= Seq::<RowView>::empty());
        }
        while i < rows.len()
            invariant
                i <= rows@.len(),
                all == row_views(rows@),
                start == old(self)@,
                looked_at(
                    start,
                    session_id@,
                    all,
                    i as int,
                    show_narration,
                    self@,
                    note_views(out@),
                ),
            decreases rows@.len() - i,
        {
            if !self.next_row(Ghost(start), session_id, rows, i, show_narration, &mut out) {
                return None;
            }
            i += 1;
        }
        proof {
            reveal(looked_at);
            assert(all.take(i as int) =~= all);
            lemma_advanced_all_frame(start, all);
            assert(note_views(out@).len() == out@.len());
        }
        if out.len() > 0 {
            self.had_updates = true;
        }
        Some(out)
    }

    /// Looks at the step at `i`, where those before it have been looked at.
    #[verifier::rlimit(30)]
    fn next_row(
        &mut self,
        Ghost(start): Ghost<StreamView>,
        session_id: &str,
        rows: &Vec<StepRow>,
        i: usize,
        show_narration: bool,
        out: &mut Vec<JsonRpcNotification>,
    ) -> (r: bool)
        requires
            i < rows@.len(),
            looked_at(
                start,
                session_id@,
                row_views(rows@),
                i as int,
                show_narration,
                old(self)@,
                note_views(old(out)@),
            ),
        ensures
            r ==> looked_at(
                start,
                session_id@,
                row_views(rows@),
                i + 1,
                show_narration,
                final(self)@,
                note_views(final(out)@),
            ),
            !r ==> !ready_at(start, row_views(rows@), i as int, show_narration),
            !r ==> final(self)@ == advanced_all(start, row_views(rows@).take(i as int)),
    {
        let ghost all = row_views(rows@);
        proof {
            reveal(looked_at);
            assert(all[i as int] == rows@[i as int]@);
            lemma_one_more(start, session_id@, all, i as int, show_narration);
        }
        self.row(session_id, &rows[i], show_narration, out)
    }
}

/// The steps before `k` were ready, and looking at them has led to this state and these
/// notifications.
#[verifier::opaque]
spec fn looked_at(
    start: StreamView,
    session_id: Seq<char>,
    rows: Seq<RowView>,
    k: int,
    show_narration: bool,
    state: StreamView,
    list: Seq<NotificationView>,
) -> bool {
    &&& state == advanced_all(start, rows.take(k))
    &&& list == notes(start, session_id, rows.take(k), show_narration)
    &&& forall|j: int| 0 <= j < k ==> #[trigger] ready_at(start, rows, j, show_narration)
}

proof fn lemma_one_more(
    state: StreamView,
    session_id: Seq<char>,
    rows: Seq<RowView>,
    i: int,
    show_narration: bool,
)
    requires
        0 <= i < rows.len(),
    ensures
        advanced_all(state, rows.take(i + 1)) == advanced(
            advanced_all(state, rows.take(i)),
            rows[i],
        ),
        notes(state, session_id, rows.take(i + 1), show_narration) == notes(
            state,
            session_id,
            rows.take(i),
            show_narration,
        ) + row_notes(advanced_all(state, rows.take(i)), session_id, rows[i], show_narration),
{
    assert(rows.take(i + 1).drop_last() =~= rows.take(i));
    assert(rows.take(i + 1).last() == rows[i]);
}

/// Looking at steps changes neither the conversation, nor where the prompt began, nor
/// whether there were updates.
pub(crate) proof fn lemma_advanced_all_frame(state: StreamView, rows: Seq<RowView>)
    ensures
        advanced_all(state, rows).conversation_id == state.conversation_id,
        advanced_all(state, rows).base_step_idx == state.base_step_idx,
        advanced_all(state, rows).had_updates == state.had_updates,
    decreases rows.len(),
{
    if rows.len() > 0 {
        lemma_advanced_all_frame(state, rows.drop_last());
    }
}

} // verus!
