//! What the client receives over the polls of a prompt.

use vstd::prelude::*;
use vstd::utf8::*;
use crate::json::added_members_are_found;
use crate::json::lemma_added_member;
use crate::json::lemma_other_member;
use crate::json::members_count;
use crate::json::JsonTree;
use crate::narration::narrates;
use crate::proto::after;
use crate::proto::lemma_varint_length;
use crate::proto::leading_field;
use crate::proto::proto_field;
use crate::proto::step_text;
use crate::proto::tool_step_type;
use crate::rpc::JsonRpcNotification;
use crate::rpc::NotificationView;
use crate::stream::advanced;
use crate::stream::advanced_all;
use crate::stream::emitted;
use crate::stream::fresh_tool;
use crate::stream::grown_text;
use crate::stream::lemma_advanced_all_frame;
use crate::stream::message_chunk;
use crate::stream::note_views;
use crate::stream::notes;
use crate::stream::polled;
use crate::stream::ready_at;
use crate::stream::row_notes;
use crate::stream::row_ready;
use crate::stream::row_views;
use crate::stream::rows_ready;
use crate::stream::session_update;
use crate::stream::text_after;
use crate::stream::tool_call;
use crate::stream::tool_call_completed;
use crate::stream::tool_call_id;
use crate::stream::RowView;
use crate::stream::StepRow;
use crate::stream::StreamView;
use crate::stream::StreamingState;
use crate::stream::TEXT_STEP;
use crate::text::decimal;
use crate::tools::step_tool;
use crate::tools::tool_title;
use crate::tools::ToolCallView;
use crate::wording::numerals_differ;

verus! {

/// The payloads of these steps fit in memory.
pub open spec fn payloads_fit(rows: Seq<RowView>) -> bool {
    forall|i: int| 0 <= i < rows.len() ==> (#[trigger] rows[i]).payload.len() <= usize::MAX
}

/// The piece of the response that a notification carries, empty where it carries none.
pub open spec fn chunk_text(note: NotificationView) -> Seq<char> {
    match note.params.get("update"@) {
        Some(update) => match update.get("content"@) {
            Some(content) => match content.text_member("text"@) {
                Some(t) => t,
                None => seq![],
            },
            None => seq![],
        },
        None => seq![],
    }
}

/// The text that a client puts together from the notifications.
pub open spec fn client_text(list: Seq<NotificationView>) -> Seq<char>
    decreases list.len(),
{
    if list.len() == 0 {
        seq![]
    } else {
        client_text(list.drop_last()) + chunk_text(list.last())
    }
}

proof fn lemma_states_append(state: StreamView, a: Seq<RowView>, b: Seq<RowView>)
    ensures
        advanced_all(state, a + b) == advanced_all(advanced_all(state, a), b),
    decreases b.len(),
{
    if b.len() == 0 {
        assert(a + b =~= a);
    } else {
        assert((a + b).drop_last() =~= a + b.drop_last());
        assert((a + b).last() == b.last());
        lemma_states_append(state, a, b.drop_last());
    }
}

proof fn lemma_notes_append(
    state: StreamView,
    session_id: Seq<char>,
    a: Seq<RowView>,
    b: Seq<RowView>,
    show_narration: bool,
)
    ensures
        notes(state, session_id, a + b, show_narration) == notes(
            state,
            session_id,
            a,
            show_narration,
        ) + notes(advanced_all(state, a), session_id, b, show_narration),
    decreases b.len(),
{
    let first = notes(state, session_id, a, show_narration);
    if b.len() == 0 {
        assert(a + b =~= a);
        assert(first + Seq::<NotificationView>::empty() =~= first);
    } else {
        let c = b.drop_last();
        assert((a + b).drop_last() =~= a + c);
        assert((a + b).last() == b.last());
        lemma_notes_append(state, session_id, a, c, show_narration);
        lemma_states_append(state, a, c);
        lemma_three(
            first,
            notes(advanced_all(state, a), session_id, c, show_narration),
            row_notes(
                advanced_all(advanced_all(state, a), c),
                session_id,
                b.last(),
                show_narration,
            ),
        );
    }
}

proof fn lemma_three(
    x: Seq<NotificationView>,
    y: Seq<NotificationView>,
    z: Seq<NotificationView>,
)
    ensures
        (x + y) + z == x + (y + z),
{
    assert((x + y) + z =~= x + (y + z));
}

/// That there were updates has no bearing on what is emitted.
proof fn lemma_updates_aside(
    state: StreamView,
    had_updates: bool,
    session_id: Seq<char>,
    rows: Seq<RowView>,
    show_narration: bool,
)
    ensures
        advanced_all(StreamView { had_updates, ..state }, rows) == (StreamView {
            had_updates,
            ..advanced_all(state, rows)
        }),
        notes(StreamView { had_updates, ..state }, session_id, rows, show_narration) == notes(
            state,
            session_id,
            rows,
            show_narration,
        ),
    decreases rows.len(),
{
    if rows.len() > 0 {
        lemma_updates_aside(state, had_updates, session_id, rows.drop_last(), show_narration);
    }
}

/// Two polls, one after the other, send what one poll sends that finds the steps of both.
pub proof fn polls_add_up(
    state: StreamView,
    session_id: Seq<char>,
    first: Seq<RowView>,
    second: Seq<RowView>,
    show_narration: bool,
)
    ensures
        ({
            let between = polled(state, session_id, first, show_narration);
            &&& notes(state, session_id, first + second, show_narration) == notes(
                state,
                session_id,
                first,
                show_narration,
            ) + notes(between, session_id, second, show_narration)
            &&& polled(state, session_id, first + second, show_narration) == polled(
                between,
                session_id,
                second,
                show_narration,
            )
        }),
{
    lemma_notes_append(state, session_id, first, second, show_narration);
    lemma_states_append(state, first, second);
    let between = polled(state, session_id, first, show_narration);
    lemma_updates_aside(
        advanced_all(state, first),
        between.had_updates,
        session_id,
        second,
        show_narration,
    );
    lemma_advanced_all_frame(state, first);
    lemma_advanced_all_frame(between, second);
    lemma_advanced_all_frame(state, first + second);
}

/// A poll leaves the prompt with its conversation and its first step, and there were updates
/// exactly if there were some before or it sends some.
pub proof fn polls_keep_the_conversation(
    state: StreamView,
    session_id: Seq<char>,
    rows: Seq<RowView>,
    show_narration: bool,
)
    ensures
        ({
            let next = polled(state, session_id, rows, show_narration);
            &&& next.conversation_id == state.conversation_id
            &&& next.base_step_idx == state.base_step_idx
            &&& next.had_updates <==> state.had_updates || notes(
                state,
                session_id,
                rows,
                show_narration,
            ).len() > 0
        }),
{
    lemma_advanced_all_frame(state, rows);
}

/// There is nothing to emit of this step any more.
spec fn seen(state: StreamView, row: RowView) -> bool {
    &&& grown_text(state, row) is None
    &&& !fresh_tool(state, row)
    &&& row.idx <= state.last_step_idx
}

proof fn lemma_content_fits(blob: Seq<u8>, target: u64)
    ensures
        proto_field(blob, target) matches Some(content) ==> content.len() <= blob.len(),
    decreases blob.len(),
{
    if blob.len() > 0 {
        lemma_varint_length(blob, 0);
        if let Some(field) = leading_field(blob) {
            lemma_content_fits(after(blob, field.length), target);
        }
    }
}

/// The text of a step is no longer than its payload.
proof fn lemma_text_fits(payload: Seq<u8>)
    ensures
        step_text(payload) matches Some(t) ==> encode_utf8(t).len() <= payload.len(),
{
    lemma_content_fits(payload, 20);
    if let Some(inner) = proto_field(payload, 20) {
        lemma_content_fits(inner, 1);
        if let Some(bytes) = proto_field(inner, 1) {
            if valid_utf8(bytes) {
                decode_utf8_encode_utf8(bytes);
            }
        }
    }
}

proof fn lemma_seen_after(state: StreamView, row: RowView)
    requires
        row.payload.len() <= usize::MAX,
    ensures
        seen(advanced(state, row), row),
{
    lemma_text_fits(row.payload);
}

proof fn lemma_seen_stays(state: StreamView, row: RowView, next: RowView)
    requires
        next.payload.len() <= usize::MAX,
        seen(state, row),
    ensures
        seen(advanced(state, next), row),
{
    lemma_text_fits(next.payload);
}

proof fn lemma_all_seen(state: StreamView, rows: Seq<RowView>, i: int)
    requires
        payloads_fit(rows),
        0 <= i < rows.len(),
    ensures
        seen(advanced_all(state, rows), rows[i]),
    decreases rows.len(),
{
    let before = advanced_all(state, rows.drop_last());
    assert(rows.last().payload.len() <= usize::MAX);
    if i == rows.len() - 1 {
        lemma_seen_after(before, rows.last());
    } else {
        assert forall|j: int| 0 <= j < rows.drop_last().len() implies (
        #[trigger] rows.drop_last()[j]).payload.len() <= usize::MAX by {
            assert(rows.drop_last()[j] == rows[j]);
        }
        lemma_all_seen(state, rows.drop_last(), i);
        assert(rows.drop_last()[i] == rows[i]);
        lemma_seen_stays(before, rows[i], rows.last());
    }
}

proof fn lemma_nothing_left(
    state: StreamView,
    session_id: Seq<char>,
    rows: Seq<RowView>,
    show_narration: bool,
)
    requires
        forall|i: int| 0 <= i < rows.len() ==> seen(state, #[trigger] rows[i]),
    ensures
        advanced_all(state, rows) == state,
        notes(state, session_id, rows, show_narration) == Seq::<NotificationView>::empty(),
    decreases rows.len(),
{
    if rows.len() > 0 {
        assert forall|i: int| 0 <= i < rows.drop_last().len() implies seen(
            state,
            #[trigger] rows.drop_last()[i],
        ) by {
            assert(rows.drop_last()[i] == rows[i]);
        }
        lemma_nothing_left(state, session_id, rows.drop_last(), show_narration);
        assert(seen(state, rows[rows.len() - 1]));
        assert(notes(state, session_id, rows, show_narration) =~= Seq::<
            NotificationView,
        >::empty());
    }
}

/// A poll that finds the steps of the poll before it, unchanged, sends nothing and changes
/// nothing.
pub proof fn nothing_is_sent_twice(
    state: StreamView,
    session_id: Seq<char>,
    rows: Seq<RowView>,
    show_narration: bool,
)
    requires
        payloads_fit(rows),
    ensures
        ({
            let next = polled(state, session_id, rows, show_narration);
            &&& rows_ready(next, rows, show_narration)
            &&& notes(next, session_id, rows, show_narration) == Seq::<NotificationView>::empty()
            &&& polled(next, session_id, rows, show_narration) == next
        }),
{
    let next = polled(state, session_id, rows, show_narration);
    assert forall|i: int| 0 <= i < rows.len() implies seen(next, #[trigger] rows[i]) by {
        lemma_all_seen(state, rows, i);
    }
    lemma_nothing_left(next, session_id, rows, show_narration);
    assert forall|k: int| 0 <= k < rows.len() implies #[trigger] ready_at(
        next,
        rows,
        k,
        show_narration,
    ) by {
        let part = rows.take(k);
        assert forall|i: int| 0 <= i < part.len() implies seen(next, #[trigger] part[i]) by {
            assert(part[i] == rows[i]);
        }
        lemma_nothing_left(next, session_id, part, show_narration);
        assert(seen(next, rows[k]));
    }
}

/// The last step never goes back: it is the greatest of what it was and the steps found.
pub proof fn last_step_is_the_greatest(
    state: StreamView,
    session_id: Seq<char>,
    rows: Seq<RowView>,
    show_narration: bool,
)
    ensures
        ({
            let last = polled(state, session_id, rows, show_narration).last_step_idx;
            &&& last >= state.last_step_idx
            &&& forall|i: int| 0 <= i < rows.len() ==> (#[trigger] rows[i]).idx <= last
            &&& last == state.last_step_idx || exists|i: int|
                0 <= i < rows.len() && (#[trigger] rows[i]).idx == last
        }),
    decreases rows.len(),
{
    if rows.len() > 0 {
        let before = rows.drop_last();
        last_step_is_the_greatest(state, session_id, before, show_narration);
        let was = advanced_all(state, before).last_step_idx;
        let last = advanced_all(state, rows).last_step_idx;
        assert forall|i: int| 0 <= i < rows.len() implies (#[trigger] rows[i]).idx <= last by {
            if i < before.len() {
                assert(before[i] == rows[i]);
            }
        }
        if last != state.last_step_idx {
            if last == was {
                let i = choose|i: int| 0 <= i < before.len() && (#[trigger] before[i]).idx == was;
                assert(rows[i].idx == last);
            } else {
                assert(rows[rows.len() - 1].idx == last);
            }
        }
    }
}

proof fn lemma_tools_stay(state: StreamView, rows: Seq<RowView>, idx: i64)
    requires
        state.emitted_tool_steps.contains(idx),
    ensures
        advanced_all(state, rows).emitted_tool_steps.contains(idx),
    decreases rows.len(),
{
    if rows.len() > 0 {
        lemma_tools_stay(state, rows.drop_last(), idx);
    }
}

/// A tool call is announced once: after the poll that announced it, its step sends nothing
/// more, whatever its payload has become.
pub proof fn tool_calls_are_announced_once(
    state: StreamView,
    session_id: Seq<char>,
    rows: Seq<RowView>,
    k: int,
    later: RowView,
    show_narration: bool,
)
    requires
        0 <= k < rows.len(),
        fresh_tool(advanced_all(state, rows.take(k)), rows[k]),
        later.idx == rows[k].idx,
        later.step_type != TEXT_STEP,
    ensures
        row_notes(
            polled(state, session_id, rows, show_narration),
            session_id,
            later,
            show_narration,
        ) == Seq::<NotificationView>::empty(),
{
    let to = rows.take(k + 1);
    assert(to.drop_last() =~= rows.take(k));
    assert(to.last() == rows[k]);
    assert(advanced_all(state, to).emitted_tool_steps.contains(later.idx));
    let rest = rows.skip(k + 1);
    assert(to + rest =~= rows);
    lemma_states_append(state, to, rest);
    lemma_tools_stay(advanced_all(state, to), rest, later.idx);
}

proof fn lemma_encode_append(a: Seq<char>, b: Seq<char>)
    ensures
        encode_utf8(a + b) == encode_utf8(a) + encode_utf8(b),
    decreases a.len(),
{
    if a.len() == 0 {
        assert(a + b =~= b);
        assert(encode_utf8(a) + encode_utf8(b) =~= encode_utf8(b));
    } else {
        assert((a + b).drop_first() =~= a.drop_first() + b);
        lemma_encode_append(a.drop_first(), b);
        assert(encode_utf8(a + b) =~= encode_utf8(a) + encode_utf8(b));
    }
}

/// A text that has grown can be cut where it ended before, and the piece that is cut off,
/// added to what there was, is the text.
pub proof fn grown_text_is_cut_whole(before: Seq<char>, now: Seq<char>)
    requires
        before.is_prefix_of(now),
    ensures
        is_char_boundary(encode_utf8(now), encode_utf8(before).len() as int),
        before + text_after(now, encode_utf8(before).len() as int) == now,
        encode_utf8(now).len() > encode_utf8(before).len() <==> now.len() > before.len(),
{
    let rest = now.skip(before.len() as int);
    let head = encode_utf8(before);
    let tail = encode_utf8(rest);
    let bytes = encode_utf8(now);
    assert(now =~= before + rest);
    lemma_encode_append(before, rest);
    assert(bytes.skip(head.len() as int) =~= tail);
    encode_utf8_decode_utf8(rest);
    encode_utf8_valid_utf8(now);
    encode_utf8_valid_utf8(rest);
    if rest.len() == 0 {
        assert(tail.len() == 0);
        is_char_boundary_start_end_of_seq(bytes);
    } else {
        encode_utf8_first_scalar(rest);
        assert(tail.len() > 0);
        is_char_boundary_start_end_of_seq(tail);
        is_char_boundary_iff_not_is_continuation_byte(tail, 0);
        assert(bytes[head.len() as int] == tail[0]);
        is_char_boundary_iff_not_is_continuation_byte(bytes, head.len() as int);
    }
}

proof fn lemma_chunk(session_id: Seq<char>, t: Seq<char>)
    ensures
        chunk_text(session_update(session_id, message_chunk(t))) == t,
{
    reveal_strlit("sessionId");
    reveal_strlit("update");
    reveal_strlit("sessionUpdate");
    reveal_strlit("content");
    reveal_strlit("type");
    reveal_strlit("text");
    let params = session_update(session_id, message_chunk(t)).params;
    lemma_second_member("sessionId"@, JsonTree::Text(session_id), "update"@, message_chunk(t));
    let content = JsonTree::object().with("type"@, JsonTree::Text("text"@)).with(
        "text"@,
        JsonTree::Text(t),
    );
    lemma_second_member(
        "sessionUpdate"@,
        JsonTree::Text("agent_message_chunk"@),
        "content"@,
        content,
    );
    lemma_second_member("type"@, JsonTree::Text("text"@), "text"@, JsonTree::Text(t));
    assert("sessionId"@[0] != "update"@[0]);
    assert("sessionUpdate"@[0] != "content"@[0]);
    assert("type"@[1] != "text"@[1]);
    assert(params.get("update"@) == Some(message_chunk(t)));
}

proof fn lemma_second_member(a: Seq<char>, v: JsonTree, b: Seq<char>, w: JsonTree)
    ensures
        a != b ==> JsonTree::object().with(a, v).with(b, w).get(b) == Some(w),
{
    added_members_are_found(JsonTree::object(), a, v, b);
    added_members_are_found(JsonTree::object().with(a, v), b, w, a);
}

/// The text that the last of these rows for a step finds in it, empty where none does.
pub open spec fn latest_text(rows: Seq<RowView>, idx: i64) -> Seq<char>
    decreases rows.len(),
{
    if rows.len() == 0 {
        seq![]
    } else if rows.last().idx == idx && step_text(rows.last().payload) is Some {
        step_text(rows.last().payload)->0
    } else {
        latest_text(rows.drop_last(), idx)
    }
}

/// What is sent of the text of a step while these rows are looked at.
pub open spec fn sent_of(
    state: StreamView,
    session_id: Seq<char>,
    rows: Seq<RowView>,
    idx: i64,
    show_narration: bool,
) -> Seq<char>
    decreases rows.len(),
{
    if rows.len() == 0 {
        seq![]
    } else {
        let before = sent_of(state, session_id, rows.drop_last(), idx, show_narration);
        if rows.last().idx == idx {
            before + client_text(
                row_notes(
                    advanced_all(state, rows.drop_last()),
                    session_id,
                    rows.last(),
                    show_narration,
                ),
            )
        } else {
            before
        }
    }
}

/// The row finds this text in the step.
pub open spec fn finds(row: RowView, idx: i64, t: Seq<char>) -> bool {
    row.idx == idx && step_text(row.payload) == Some(t)
}

/// The step is a text step, and the text that these rows find in it only grows: what one
/// row finds begins with what the rows before it found. It is no narration, unless narration
/// is shown.
pub open spec fn grows(rows: Seq<RowView>, idx: i64, show_narration: bool) -> bool {
    &&& forall|k: int|
        0 <= k < rows.len() && (#[trigger] rows[k]).idx == idx ==> rows[k].step_type == TEXT_STEP
    &&& forall|k: int, t: Seq<char>|
        0 <= k < rows.len() && #[trigger] finds(rows[k], idx, t) ==> show_narration || !narrates(
            t,
        )
    &&& forall|j: int, k: int, t: Seq<char>, u: Seq<char>|
        0 <= j <= k < rows.len() && #[trigger] finds(rows[j], idx, t) && #[trigger] finds(
            rows[k],
            idx,
            u,
        ) ==> t.is_prefix_of(u)
}

/// One step of a growing text: what it sends and what it is then known to have sent.
proof fn lemma_grows_once(
    state: StreamView,
    session_id: Seq<char>,
    row: RowView,
    before: Seq<char>,
    now: Seq<char>,
    show_narration: bool,
)
    requires
        row.step_type == TEXT_STEP,
        row.payload.len() <= usize::MAX,
        step_text(row.payload) == Some(now),
        show_narration || !narrates(now),
        before.is_prefix_of(now),
        emitted(state, row.idx) == encode_utf8(before).len(),
    ensures
        row_ready(state, row, show_narration),
        emitted(advanced(state, row), row.idx) == encode_utf8(now).len(),
        before + client_text(row_notes(state, session_id, row, show_narration)) == now,
{
    grown_text_is_cut_whole(before, now);
    lemma_text_fits(row.payload);
    let none = Seq::<NotificationView>::empty();
    assert(client_text(none) == Seq::<char>::empty());
    if now.len() > before.len() {
        let piece = text_after(now, encode_utf8(before).len() as int);
        let note = session_update(session_id, message_chunk(piece));
        let sent = row_notes(state, session_id, row, show_narration);
        assert(sent =~= seq![note]);
        assert(sent.drop_last() =~= none);
        lemma_chunk(session_id, piece);
        assert(client_text(sent) =~= piece);
    } else {
        assert(now =~= before);
        assert(before + Seq::<char>::empty() =~= before);
    }
}

proof fn lemma_client_text_append(a: Seq<NotificationView>, b: Seq<NotificationView>)
    ensures
        client_text(a + b) == client_text(a) + client_text(b),
    decreases b.len(),
{
    if b.len() == 0 {
        assert(a + b =~= a);
        assert(client_text(a) + client_text(b) =~= client_text(a));
    } else {
        assert((a + b).drop_last() =~= a + b.drop_last());
        assert((a + b).last() == b.last());
        lemma_client_text_append(a, b.drop_last());
        assert((client_text(a) + client_text(b.drop_last())) + chunk_text(b.last())
            =~= client_text(a) + (client_text(b.drop_last()) + chunk_text(b.last())));
    }
}

proof fn lemma_grows_before(rows: Seq<RowView>, idx: i64, show_narration: bool)
    requires
        rows.len() > 0,
        payloads_fit(rows),
        grows(rows, idx, show_narration),
    ensures
        payloads_fit(rows.drop_last()),
        grows(rows.drop_last(), idx, show_narration),
{
    let before = rows.drop_last();
    assert forall|k: int| 0 <= k < before.len() implies #[trigger] before[k] == rows[k] by {}
    assert forall|j: int, k: int, t: Seq<char>, u: Seq<char>|
        0 <= j <= k < before.len() && #[trigger] finds(before[j], idx, t) && #[trigger] finds(
            before[k],
            idx,
            u,
        ) implies t.is_prefix_of(u) by {
        assert(finds(rows[j], idx, t) && finds(rows[k], idx, u));
    }
    assert forall|k: int, t: Seq<char>|
        0 <= k < before.len() && #[trigger] finds(before[k], idx, t) implies show_narration
        || !narrates(t) by {
        assert(finds(rows[k], idx, t));
    }
}

/// The latest text was found by one of the rows, unless it is empty.
proof fn lemma_latest_was_found(rows: Seq<RowView>, idx: i64)
    ensures
        latest_text(rows, idx).len() == 0 || exists|j: int|
            0 <= j < rows.len() && #[trigger] finds(rows[j], idx, latest_text(rows, idx)),
    decreases rows.len(),
{
    if rows.len() > 0 {
        let before = rows.drop_last();
        if rows.last().idx == idx && step_text(rows.last().payload) is Some {
            assert(finds(rows[rows.len() - 1], idx, latest_text(rows, idx)));
        } else {
            lemma_latest_was_found(before, idx);
            if latest_text(before, idx).len() > 0 {
                let j = choose|j: int|
                    0 <= j < before.len() && #[trigger] finds(
                        before[j],
                        idx,
                        latest_text(before, idx),
                    );
                assert(before[j] == rows[j]);
                assert(finds(rows[j], idx, latest_text(rows, idx)));
            }
        }
    }
}

proof fn lemma_latest_is_prefix(rows: Seq<RowView>, idx: i64, show_narration: bool)
    requires
        rows.len() > 0,
        grows(rows, idx, show_narration),
        rows.last().idx == idx,
        step_text(rows.last().payload) is Some,
    ensures
        latest_text(rows.drop_last(), idx).is_prefix_of(latest_text(rows, idx)),
{
    let before = rows.drop_last();
    let was = latest_text(before, idx);
    let now = latest_text(rows, idx);
    lemma_latest_was_found(before, idx);
    assert(finds(rows[rows.len() - 1], idx, now));
    if was.len() > 0 {
        let j = choose|j: int| 0 <= j < before.len() && #[trigger] finds(before[j], idx, was);
        assert(before[j] == rows[j]);
        assert(finds(rows[j], idx, was));
    }
}

proof fn lemma_arrives(
    state: StreamView,
    session_id: Seq<char>,
    rows: Seq<RowView>,
    idx: i64,
    show_narration: bool,
)
    requires
        payloads_fit(rows),
        grows(rows, idx, show_narration),
        emitted(state, idx) == 0,
    ensures
        sent_of(state, session_id, rows, idx, show_narration) == latest_text(rows, idx),
        emitted(advanced_all(state, rows), idx) == encode_utf8(latest_text(rows, idx)).len(),
        rows.len() > 0 && rows.last().idx == idx ==> row_ready(
            advanced_all(state, rows.drop_last()),
            rows.last(),
            show_narration,
        ),
    decreases rows.len(),
{
    if rows.len() > 0 {
        let before = rows.drop_last();
        let row = rows.last();
        let reached = advanced_all(state, before);
        lemma_grows_before(rows, idx, show_narration);
        lemma_arrives(state, session_id, before, idx, show_narration);
        assert(rows[rows.len() - 1] == row);
        if row.idx == idx {
            let none = Seq::<NotificationView>::empty();
            assert(client_text(none) == Seq::<char>::empty());
            match step_text(row.payload) {
                Some(now) => {
                    assert(finds(rows[rows.len() - 1], idx, now));
                    lemma_latest_is_prefix(rows, idx, show_narration);
                    lemma_grows_once(
                        reached,
                        session_id,
                        row,
                        latest_text(before, idx),
                        now,
                        show_narration,
                    );
                },
                None => {
                    assert(row_notes(reached, session_id, row, show_narration) =~= none);
                    let sent = sent_of(state, session_id, before, idx, show_narration);
                    assert(sent + Seq::<char>::empty() =~= sent);
                },
            }
        }
    }
}

/// A text that grows from row to row arrives whole, whatever other steps are found between
/// its rows: none of it is sent twice, none of it is left out, and it is never cut inside a
/// character. Since polls add up, the rows may be those of several polls.
pub proof fn growing_text_arrives_whole(
    state: StreamView,
    session_id: Seq<char>,
    rows: Seq<RowView>,
    idx: i64,
    show_narration: bool,
)
    requires
        payloads_fit(rows),
        grows(rows, idx, show_narration),
        emitted(state, idx) == 0,
    ensures
        sent_of(state, session_id, rows, idx, show_narration) == latest_text(rows, idx),
        forall|k: int|
            0 <= k < rows.len() && rows[k].idx == idx ==> #[trigger] ready_at(
                state,
                rows,
                k,
                show_narration,
            ),
{
    lemma_arrives(state, session_id, rows, idx, show_narration);
    assert forall|k: int| 0 <= k < rows.len() && rows[k].idx == idx implies #[trigger] ready_at(
        state,
        rows,
        k,
        show_narration,
    ) by {
        let part = rows.take(k + 1);
        lemma_grows_upto(rows, idx, show_narration, k + 1);
        lemma_arrives(state, session_id, part, idx, show_narration);
        assert(part.drop_last() =~= rows.take(k));
        assert(part.last() == rows[k]);
    }
}

proof fn lemma_grows_upto(rows: Seq<RowView>, idx: i64, show_narration: bool, n: int)
    requires
        0 <= n <= rows.len(),
        payloads_fit(rows),
        grows(rows, idx, show_narration),
    ensures
        payloads_fit(rows.take(n)),
        grows(rows.take(n), idx, show_narration),
    decreases rows.len() - n,
{
    if n == rows.len() {
        assert(rows.take(n) =~= rows);
    } else {
        lemma_grows_upto(rows, idx, show_narration, n + 1);
        lemma_grows_before(rows.take(n + 1), idx, show_narration);
        assert(rows.take(n + 1).drop_last() =~= rows.take(n));
    }
}

/// Where the rows are all of one step whose text grows, a client that appends the pieces it
/// is sent has the text.
pub proof fn clients_put_the_text_together(
    state: StreamView,
    session_id: Seq<char>,
    rows: Seq<RowView>,
    idx: i64,
    show_narration: bool,
)
    requires
        payloads_fit(rows),
        grows(rows, idx, show_narration),
        forall|k: int| 0 <= k < rows.len() ==> (#[trigger] rows[k]).idx == idx,
        emitted(state, idx) == 0,
    ensures
        rows_ready(state, rows, show_narration),
        client_text(notes(state, session_id, rows, show_narration)) == latest_text(rows, idx),
{
    growing_text_arrives_whole(state, session_id, rows, idx, show_narration);
    lemma_all_of_one_step(state, session_id, rows, idx, show_narration);
}

proof fn lemma_all_of_one_step(
    state: StreamView,
    session_id: Seq<char>,
    rows: Seq<RowView>,
    idx: i64,
    show_narration: bool,
)
    requires
        forall|k: int| 0 <= k < rows.len() ==> (#[trigger] rows[k]).idx == idx,
    ensures
        client_text(notes(state, session_id, rows, show_narration)) == sent_of(
            state,
            session_id,
            rows,
            idx,
            show_narration,
        ),
    decreases rows.len(),
{
    if rows.len() > 0 {
        let before = rows.drop_last();
        assert forall|k: int| 0 <= k < before.len() implies (#[trigger] before[k]).idx == idx by {
            assert(before[k] == rows[k]);
        }
        lemma_all_of_one_step(state, session_id, before, idx, show_narration);
        assert(rows[rows.len() - 1].idx == idx);
        lemma_client_text_append(
            notes(state, session_id, before, show_narration),
            row_notes(advanced_all(state, before), session_id, rows.last(), show_narration),
        );
    }
}

/// The notification is an update of this session, and carries this.
pub open spec fn updates(note: NotificationView, session_id: Seq<char>, update: JsonTree) -> bool {
    &&& note.jsonrpc == "2.0"@
    &&& note.method == "session/update"@
    &&& note.params.text_member("sessionId"@) == Some(session_id)
    &&& note.params.get("update"@) == Some(update)
    &&& members_count(note.params, 2)
}

proof fn lemma_update(session_id: Seq<char>, update: JsonTree)
    ensures
        updates(session_update(session_id, update), session_id, update),
{
    broadcast use {lemma_added_member, lemma_other_member};

    reveal_strlit("sessionId");
    reveal_strlit("update");
    assert("sessionId"@.len() == 9 && "update"@.len() == 6);
    let params = session_update(session_id, update).params;
    assert(params.get("sessionId"@) == Some(JsonTree::Text(session_id)));
    assert(params.get("update"@) == Some(update));
}

/// Every notification that a poll sends is an update of the session that it polls for.
pub proof fn updates_reach_their_session(
    state: StreamView,
    session_id: Seq<char>,
    rows: Seq<RowView>,
    show_narration: bool,
    i: int,
)
    requires
        0 <= i < notes(state, session_id, rows, show_narration).len(),
    ensures
        ({
            let note = notes(state, session_id, rows, show_narration)[i];
            &&& note.jsonrpc == "2.0"@
            &&& note.method == "session/update"@
            &&& note.params.text_member("sessionId"@) == Some(session_id)
            &&& note.params.get("update"@) is Some
            &&& members_count(note.params, 2)
        }),
    decreases rows.len(),
{
    let before = rows.drop_last();
    let first = notes(state, session_id, before, show_narration);
    let reached = advanced_all(state, before);
    if i < first.len() {
        updates_reach_their_session(state, session_id, before, show_narration, i);
    } else {
        let last = row_notes(reached, session_id, rows.last(), show_narration);
        let note = last[i - first.len()];
        assert(notes(state, session_id, rows, show_narration)[i] == note);
        if let Some(t) = grown_text(reached, rows.last()) {
            let from = emitted(reached, rows.last().idx) as int;
            lemma_update(session_id, message_chunk(text_after(t, from)));
        } else {
            let call = step_tool(rows.last().payload)->0;
            lemma_update(session_id, tool_call(rows.last(), call));
            lemma_update(session_id, tool_call_completed(rows.last(), call));
        }
    }
}

proof fn lemma_chunk_members(t: Seq<char>)
    ensures
        message_chunk(t).text_member("sessionUpdate"@) == Some("agent_message_chunk"@),
        message_chunk(t).get("content"@) is Some,
        message_chunk(t).get("content"@)->0.text_member("type"@) == Some("text"@),
        message_chunk(t).get("content"@)->0.text_member("text"@) == Some(t),
        members_count(message_chunk(t), 2),
        members_count(message_chunk(t).get("content"@)->0, 2),
{
    broadcast use {lemma_added_member, lemma_other_member};

    reveal_strlit("sessionUpdate");
    reveal_strlit("content");
    reveal_strlit("type");
    reveal_strlit("text");
    assert("sessionUpdate"@.len() == 13 && "content"@.len() == 7);
    assert("type"@[1] != "text"@[1]);
    let content = JsonTree::object().with("type"@, JsonTree::Text("text"@)).with(
        "text"@,
        JsonTree::Text(t),
    );
    assert(message_chunk(t).get("content"@) == Some(content));
    assert(content.get("text"@) == Some(JsonTree::Text(t)));
    assert(content.get("type"@) == Some(JsonTree::Text("text"@)));
    assert(message_chunk(t).get("sessionUpdate"@) == Some(JsonTree::Text("agent_message_chunk"@)));
}

/// A text step sends one update with what its text has grown by, all of it; it sends nothing
/// where the text has not grown, has none, or is narration that is not shown. Either way the
/// whole text is known to have been looked at.
pub proof fn text_steps_send_their_text(
    state: StreamView,
    session_id: Seq<char>,
    row: RowView,
    t: Seq<char>,
    show_narration: bool,
)
    requires
        row.step_type == 15,
        row.payload.len() <= usize::MAX,
    ensures
        ({
            let sent = row_notes(state, session_id, row, show_narration);
            let from = emitted(state, row.idx) as int;
            let grown = encode_utf8(t).len() > from;
            &&& step_text(row.payload) is None ==> sent.len() == 0
            &&& step_text(row.payload) == Some(t) ==> {
                &&& sent.len() == if grown && (show_narration || !narrates(t)) {
                    1nat
                } else {
                    0nat
                }
                &&& sent.len() == 1 ==> {
                    let update = sent[0].params.get("update"@)->0;
                    &&& update.text_member("sessionUpdate"@) == Some("agent_message_chunk"@)
                    &&& update.get("content"@)->0.text_member("type"@) == Some("text"@)
                    &&& members_count(update, 2)
                    &&& members_count(update.get("content"@)->0, 2)
                    &&& chunk_text(sent[0]) == decode_utf8(
                        encode_utf8(t).subrange(from, encode_utf8(t).len() as int),
                    )
                    &&& from == 0 ==> chunk_text(sent[0]) == t
                }
                &&& emitted(advanced(state, row), row.idx) == if grown {
                    encode_utf8(t).len()
                } else {
                    from as nat
                }
            }
        }),
{
    lemma_text_fits(row.payload);
    if step_text(row.payload) == Some(t) {
        let bytes = encode_utf8(t);
        let from = emitted(state, row.idx) as int;
        if bytes.len() > from {
            let piece = text_after(t, from);
            assert(bytes.skip(from) =~= bytes.subrange(from, bytes.len() as int));
            if from == 0 {
                assert(bytes.subrange(0, bytes.len() as int) =~= bytes);
                encode_utf8_decode_utf8(t);
            }
            lemma_chunk(session_id, piece);
            lemma_chunk_members(piece);
            lemma_update(session_id, message_chunk(piece));
        }
    }
}

/// The update belongs to the tool call of this step: its id is made of the index and the
/// type of the step, and its title is that of the call.
pub open spec fn belongs(update: JsonTree, row: RowView, call: ToolCallView) -> bool {
    &&& update.text_member("toolCallId"@) == Some(
        "agy-"@ + decimal(row.idx as int) + "-"@ + decimal(row.step_type as int),
    )
    &&& update.text_member("title"@) == Some(tool_title(call.name, call.input))
}

proof fn lemma_tool_members(row: RowView, call: ToolCallView)
    ensures
        belongs(tool_call(row, call), row, call),
        tool_call(row, call).text_member("sessionUpdate"@) == Some("tool_call"@),
        tool_call(row, call).get("rawInput"@) == call.input,
        members_count(tool_call(row, call), if call.input is Some {
            4
        } else {
            3
        }),
        members_count(tool_call_completed(row, call), 4),
        belongs(tool_call_completed(row, call), row, call),
        tool_call_completed(row, call).text_member("sessionUpdate"@) == Some(
            "tool_call_update"@,
        ),
        tool_call_completed(row, call).text_member("status"@) == Some("completed"@),
{
    broadcast use {lemma_added_member, lemma_other_member};

    reveal_strlit("sessionUpdate");
    reveal_strlit("toolCallId");
    reveal_strlit("title");
    reveal_strlit("rawInput");
    reveal_strlit("status");
    assert("sessionUpdate"@.len() == 13 && "toolCallId"@.len() == 10 && "title"@.len() == 5);
    assert("rawInput"@.len() == 8 && "status"@.len() == 6);
    let id = JsonTree::Text(tool_call_id(row));
    let title = JsonTree::Text(tool_title(call.name, call.input));
    let start = tool_call(row, call);
    assert(start.get("sessionUpdate"@) == Some(JsonTree::Text("tool_call"@)));
    assert(start.get("toolCallId"@) == Some(id));
    assert(start.get("title"@) == Some(title));
    assert(start.get("rawInput"@) == call.input);
    let end = tool_call_completed(row, call);
    assert(end.get("sessionUpdate"@) == Some(JsonTree::Text("tool_call_update"@)));
    assert(end.get("toolCallId"@) == Some(id));
    assert(end.get("title"@) == Some(title));
    assert(end.get("status"@) == Some(JsonTree::Text("completed"@)));
}

/// A tool step that names its tool, and was not reported before, sends two updates: the
/// start of the call with its input, and its end. Any other step that is no text step sends
/// nothing.
pub proof fn tool_steps_send_their_calls(
    state: StreamView,
    session_id: Seq<char>,
    row: RowView,
    show_narration: bool,
)
    requires
        row.step_type != 15,
    ensures
        ({
            let sent = row_notes(state, session_id, row, show_narration);
            let reported = tool_step_type(row.step_type) && step_tool(row.payload) is Some
                && !state.emitted_tool_steps.contains(row.idx);
            let call = step_tool(row.payload)->0;
            &&& !reported ==> sent.len() == 0 && advanced(state, row).emitted_tool_steps
                == state.emitted_tool_steps
            &&& reported ==> {
                let start = sent[0].params.get("update"@)->0;
                let end = sent[1].params.get("update"@)->0;
                &&& sent.len() == 2
                &&& start.text_member("sessionUpdate"@) == Some("tool_call"@)
                &&& start.get("rawInput"@) == call.input
                &&& belongs(start, row, call)
                &&& members_count(start, if call.input is Some {
                    4
                } else {
                    3
                })
                &&& members_count(end, 4)
                &&& end.text_member("sessionUpdate"@) == Some("tool_call_update"@)
                &&& end.text_member("status"@) == Some("completed"@)
                &&& belongs(end, row, call)
                &&& advanced(state, row).emitted_tool_steps == state.emitted_tool_steps.insert(
                    row.idx,
                )
            }
            &&& advanced(state, row).emitted_len == state.emitted_len
        }),
{
    let call = step_tool(row.payload)->0;
    lemma_tool_members(row, call);
    lemma_update(session_id, tool_call(row, call));
    lemma_update(session_id, tool_call_completed(row, call));
}

/// The two updates of a tool call carry the same id, and the calls of two steps, which differ
/// in their index or in their type, carry different ones.
pub proof fn tool_calls_have_their_own_ids(
    a: RowView,
    first: ToolCallView,
    b: RowView,
    second: ToolCallView,
)
    ensures
        tool_call(a, first).text_member("toolCallId"@) is Some,
        tool_call(a, first).text_member("toolCallId"@) == tool_call_completed(
            a,
            first,
        ).text_member("toolCallId"@),
        a.idx != b.idx || a.step_type != b.step_type ==> tool_call(a, first).text_member(
            "toolCallId"@,
        ) != tool_call(b, second).text_member("toolCallId"@),
{
    lemma_tool_members(a, first);
    lemma_tool_members(b, second);
    reveal_strlit("agy-");
    reveal_strlit("-");
    let m = decimal(a.idx as int);
    let n = decimal(b.idx as int);
    let p = decimal(a.step_type as int);
    let q = decimal(b.step_type as int);
    numerals_differ(a.idx as int, b.idx as int);
    numerals_differ(b.idx as int, a.idx as int);
    numerals_differ(a.step_type as int, b.step_type as int);
    let x = "agy-"@ + m + "-"@ + p;
    let y = "agy-"@ + n + "-"@ + q;
    if x == y {
        if m.len() < n.len() {
            assert(x[4 + m.len() as int] == '-');
            assert(y[4 + m.len() as int] == n[m.len() as int]);
        } else if n.len() < m.len() {
            assert(y[4 + n.len() as int] == '-');
            assert(x[4 + n.len() as int] == m[n.len() as int]);
        }
        assert(m =~= x.subrange(4, 4 + m.len() as int));
        assert(n =~= y.subrange(4, 4 + n.len() as int));
        assert(p =~= x.skip(5 + m.len() as int));
        assert(q =~= y.skip(5 + n.len() as int));
    }
}

/// A step is ready unless its text has grown, is sent, and would be cut inside a character.
pub proof fn steps_wait_only_for_whole_characters(
    state: StreamView,
    row: RowView,
    t: Seq<char>,
    show_narration: bool,
)
    ensures
        row.step_type != 15 || step_text(row.payload) is None ==> row_ready(
            state,
            row,
            show_narration,
        ),
        row.step_type == 15 && step_text(row.payload) == Some(t) ==> (row_ready(
            state,
            row,
            show_narration,
        ) <==> encode_utf8(t).len() <= emitted(state, row.idx) || (!show_narration && narrates(t))
            || is_char_boundary(encode_utf8(t), emitted(state, row.idx) as int)),
{
}

/// A step says its index, its type and its payload, and a list of steps says each of them
/// in its place; so does a list of notifications.
pub proof fn steps_say_their_parts(
    rows: Seq<StepRow>,
    list: Seq<JsonRpcNotification>,
    i: int,
)
    ensures
        row_views(rows).len() == rows.len(),
        0 <= i < rows.len() ==> {
            &&& row_views(rows)[i].idx == rows[i].idx
            &&& row_views(rows)[i].step_type == rows[i].step_type
            &&& row_views(rows)[i].payload == rows[i].payload@
        },
        note_views(list).len() == list.len(),
        0 <= i < list.len() ==> note_views(list)[i] == list[i]@,
{
}

/// The state of a prompt says each of its parts.
pub proof fn states_say_their_parts(state: StreamingState)
    ensures
        state@.conversation_id is Some <==> state.conversation_id is Some,
        state.conversation_id is Some ==> state@.conversation_id == Some(
            state.conversation_id->0@,
        ),
        state@.base_step_idx == state.base_step_idx,
        state@.last_step_idx == state.last_step_idx,
        state@.emitted_len == state.emitted_len@,
        state@.emitted_tool_steps == state.emitted_tool_steps@,
        state@.had_updates == state.had_updates,
{
}

} // verus!
