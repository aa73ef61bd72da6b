//! The response of a conversation, put together from its text steps.

use vstd::prelude::*;
use crate::adapter::Adapter;
use crate::narration::without_narration;
use crate::proto::step_text;
use crate::text;

verus! {

/// The index and the payload of each row.
pub open spec fn payloads(rows: Seq<(i64, Vec<u8>)>) -> Seq<(i64, Seq<u8>)> {
    rows.map_values(|row: (i64, Vec<u8>)| (row.0, row.1@))
}

/// The texts of the steps that carry one which is not empty.
pub open spec fn response_parts(rows: Seq<(i64, Seq<u8>)>) -> Seq<Seq<char>>
    decreases rows.len(),
{
    if rows.len() == 0 {
        seq![]
    } else {
        let before = response_parts(rows.drop_last());
        match step_text(rows.last().1) {
            Some(t) => if t.len() > 0 {
                before.push(t)
            } else {
                before
            },
            None => before,
        }
    }
}

/// The greatest index of the steps, or `floor` where that is greater.
pub open spec fn last_index(rows: Seq<(i64, Seq<u8>)>, floor: i64) -> i64
    decreases rows.len(),
{
    if rows.len() == 0 {
        floor
    } else {
        let before = last_index(rows.drop_last(), floor);
        if rows.last().0 > before {
            rows.last().0
        } else {
            before
        }
    }
}

impl Adapter {
    /// The response that the text steps after `after_step_idx` make up, and the index of
    /// the last of these steps; nothing where no step carries a text.
    pub fn read_response_from_db(
        rows: &Vec<(i64, Vec<u8>)>,
        after_step_idx: i64,
        show_narration: bool,
    ) -> (r: Option<(String, i64)>)
        ensures
            ({
                let parts = response_parts(payloads(rows@));
                match r {
                    Some((response, max_idx)) => {
                        &&& parts.len() > 0
                        &&& response@ == without_narration(parts, show_narration)
                        &&& max_idx == last_index(payloads(rows@), after_step_idx)
                    },
                    None => parts.len() == 0,
                }
            }),
    {
        let ghost all = payloads(rows@);
        let mut max_idx: i64 = after_step_idx;
        let mut parts: Vec<String> = Vec::new();
        let mut i: usize = 0;
        assert(text::texts(parts@) =~= Seq::<Seq<char>>::empty());
        while i < rows.len()
            invariant
                i <= rows@.len(),
                all == payloads(rows@),
                max_idx == last_index(all.take(i as int), after_step_idx),
                text::texts(parts@) == response_parts(all.take(i as int)),
            decreases rows@.len() - i,
        {
            let ghost before = text::texts(parts@);
            assert(all.take(i + 1).drop_last() =~= all.take(i as int));
            assert(all.take(i + 1).last() == (rows@[i as int].0, rows@[i as int].1@));
            if rows[i].0 > max_idx {
                max_idx = rows[i].0;
            }
            if let Some(t) = Adapter::extract_text_from_step_payload(rows[i].1.as_slice()) {
                if !t.as_str().is_empty() {
                    parts.push(t);
                    assert(text::texts(parts@) =~= before.push(t@));
                }
            }
            i += 1;
        }
        assert(all.take(i as int) =~= all);
        if parts.len() == 0 {
            return None;
        }
        Some((Adapter::filter_narration(parts.as_slice(), show_narration), max_idx))
    }
}

/// A response that is read in two goes, the second after the last step of the first, skips
/// no part and repeats none, and ends at the same step.
pub proof fn responses_continue(
    first: Seq<(i64, Seq<u8>)>,
    second: Seq<(i64, Seq<u8>)>,
    floor: i64,
)
    ensures
        response_parts(first + second) == response_parts(first) + response_parts(second),
        last_index(first + second, floor) == last_index(second, last_index(first, floor)),
    decreases second.len(),
{
    if second.len() == 0 {
        assert(first + second =~= first);
        assert(response_parts(first) + response_parts(second) =~= response_parts(first));
    } else {
        let shorter = second.drop_last();
        assert((first + second).drop_last() =~= first + shorter);
        assert((first + second).last() == second.last());
        responses_continue(first, shorter, floor);
        assert(response_parts(first + second) =~= response_parts(first) + response_parts(second));
    }
}

/// The last step of a response is none of those before the floor, and no step of the
/// response comes after it.
pub proof fn last_index_is_the_greatest(rows: Seq<(i64, Seq<u8>)>, floor: i64)
    ensures
        last_index(rows, floor) >= floor,
        forall|i: int| 0 <= i < rows.len() ==> (#[trigger] rows[i]).0 <= last_index(rows, floor),
        last_index(rows, floor) == floor || exists|i: int|
            0 <= i < rows.len() && (#[trigger] rows[i]).0 == last_index(rows, floor),
    decreases rows.len(),
{
    if rows.len() > 0 {
        let before = rows.drop_last();
        last_index_is_the_greatest(before, floor);
        let last = last_index(rows, floor);
        assert forall|i: int| 0 <= i < rows.len() implies (#[trigger] rows[i]).0 <= last by {
            if i < before.len() {
                assert(before[i] == rows[i]);
            }
        }
        if last != floor {
            if last == last_index(before, floor) {
                let i = choose|i: int| 0 <= i < before.len() && (#[trigger] before[i]).0 == last;
                assert(rows[i].0 == last);
            } else {
                assert(rows[rows.len() - 1].0 == last);
            }
        }
    }
}

/// A step adds its text to the response as it is, and nothing where it has none or an empty
/// one.
pub proof fn steps_add_their_texts(idx: i64, payload: Seq<u8>)
    ensures
        response_parts(Seq::<(i64, Seq<u8>)>::empty()) == Seq::<Seq<char>>::empty(),
        step_text(payload) is None || step_text(payload)->0.len() == 0 ==> response_parts(
            seq![(idx, payload)],
        ) == Seq::<Seq<char>>::empty(),
        step_text(payload) is Some && step_text(payload)->0.len() > 0 ==> response_parts(
            seq![(idx, payload)],
        ) == seq![step_text(payload)->0],
{
    let one = seq![(idx, payload)];
    assert(one.drop_last() =~= Seq::<(i64, Seq<u8>)>::empty());
    assert(response_parts(one.drop_last()) =~= Seq::<Seq<char>>::empty());
}

/// Each row gives its index and its payload, in their order.
pub proof fn rows_give_their_payloads(rows: Seq<(i64, Vec<u8>)>, i: int)
    ensures
        payloads(rows).len() == rows.len(),
        0 <= i < rows.len() ==> payloads(rows)[i].0 == rows[i].0 && payloads(rows)[i].1
            == rows[i].1@,
{
}

} // verus!
