//! Narration: what the agent says it is about to do.

use vstd::prelude::*;
use vstd::utf8::*;
use crate::adapter::Adapter;
use crate::text;
use crate::wording::lemma_split_at_newline;
use crate::wording::newlines_end_lines;
use crate::wording::one_line;
use crate::wording::stripped;
use crate::wording::trimming_the_start;

verus! {

/// A text is narration if it has a line that is not blank, and every such line begins
/// with "I will" after its leading white space.
pub open spec fn narrates(t: Seq<char>) -> bool {
    &&& exists|i: int| 0 <= i < text::lines(t).len() && !text::is_blank(#[trigger] text::lines(t)[i])
    &&& forall|i: int|
        0 <= i < text::lines(t).len() && !text::is_blank(#[trigger] text::lines(t)[i])
            ==> "I will"@.is_prefix_of(text::trim_start(text::lines(t)[i]))
}

/// The number of parts at the start that are narration.
pub open spec fn leading_narration(parts: Seq<Seq<char>>) -> nat
    decreases parts.len(),
{
    if parts.len() > 0 && narrates(parts[0]) {
        1 + leading_narration(parts.drop_first())
    } else {
        0
    }
}

/// What is kept of the parts of a response, joined by newlines. The leading narration
/// is dropped unless it is to be shown, but never the last part.
pub open spec fn without_narration(parts: Seq<Seq<char>>, show: bool) -> Seq<char> {
    let n = leading_narration(parts);
    if show || parts.len() <= 1 {
        text::join(parts, "\n"@)
    } else if n < parts.len() {
        text::join(parts.skip(n as int), "\n"@)
    } else {
        parts.last()
    }
}

/// Whether narration is shown, by the settings `OPENAB_SHOW_NARRATION` and, where that is
/// absent, `OPENAB_TOOL_DISPLAY`.
pub open spec fn narration_shown(
    show: Option<Seq<char>>,
    tool_display: Option<Seq<char>>,
) -> bool {
    match show {
        Some(v) => v == "1"@ || text::lowercase(v) == "true"@,
        None => match tool_display {
            Some(v) => text::lowercase(v) == "full"@,
            None => false,
        },
    }
}

proof fn lemma_leading_narration(parts: Seq<Seq<char>>, n: int)
    requires
        0 <= n <= parts.len(),
        forall|i: int| 0 <= i < n ==> narrates(#[trigger] parts[i]),
        n < parts.len() ==> !narrates(parts[n]),
    ensures
        leading_narration(parts) == n,
    decreases n,
{
    if n > 0 {
        assert(narrates(parts[0]));
        assert forall|i: int| 0 <= i < n - 1 implies narrates(
            #[trigger] parts.drop_first()[i],
        ) by {
            assert(parts.drop_first()[i] == parts[i + 1]);
        }
        lemma_leading_narration(parts.drop_first(), n - 1);
    }
}

impl Adapter {
    /// Whether narration is shown: where `OPENAB_SHOW_NARRATION` is set, if it is `1` or
    /// `true`; else where `OPENAB_TOOL_DISPLAY` is set, if it is `full`; else not.
    pub fn show_narration(show: Option<&str>, tool_display: Option<&str>) -> (r: bool)
        ensures
            r == narration_shown(text::opt_str(show), text::opt_str(tool_display)),
    {
        match show {
            Some(v) => text::same_text(v, "1") || text::same_text(
                text::lowercased(v).as_str(),
                "true",
            ),
            None => match tool_display {
                Some(v) => text::same_text(text::lowercased(v).as_str(), "full"),
                None => false,
            },
        }
    }

    /// Whether a part of a response is narration: every line that is not blank starts
    /// with "I will", and there is one.
    pub fn is_narration(t: &str) -> (r: bool)
        ensures
            r == narrates(t@),
    {
        let lines = text::split_lines(t);
        let ghost all = text::lines(t@);
        let mut found = false;
        let mut i: usize = 0;
        while i < lines.len()
            invariant
                i <= lines@.len(),
                all == text::lines(t@),
                text::texts(lines@) == all,
                found == exists|j: int| 0 <= j < i && !text::is_blank(#[trigger] all[j]),
                forall|j: int|
                    0 <= j < i && !text::is_blank(#[trigger] all[j]) ==> "I will"@.is_prefix_of(
                        text::trim_start(all[j]),
                    ),
            decreases lines@.len() - i,
        {
            let line = lines[i].as_str();
            assert(line@ == all[i as int]);
            if !text::blank(line) {
                let body = text::trimmed_start(line);
                if !text::begins_with(body.as_str(), "I will") {
                    return false;
                }
                found = true;
            }
            i += 1;
        }
        found
    }

    /// The response made of `parts`, without its leading narration unless that is shown.
    pub fn filter_narration(parts: &[String], show_narration: bool) -> (r: String)
        ensures
            r@ == without_narration(text::texts(parts@), show_narration),
    {
        let ghost all = text::texts(parts@);
        assert(all.skip(0) == all);
        if show_narration || parts.len() <= 1 {
            return text::joined(parts, 0, "\n");
        }
        let mut first: usize = 0;
        while first < parts.len() && Self::is_narration(parts[first].as_str())
            invariant
                first <= parts@.len(),
                all == text::texts(parts@),
                forall|i: int| 0 <= i < first ==> narrates(#[trigger] all[i]),
            ensures
                first <= parts@.len(),
                forall|i: int| 0 <= i < first ==> narrates(#[trigger] all[i]),
                first < parts@.len() ==> !narrates(all[first as int]),
            decreases parts@.len() - first,
        {
            assert(all[first as int] == parts@[first as int]@);
            first += 1;
        }
        proof {
            lemma_leading_narration(all, first as int);
        }
        if first == parts.len() {
            parts[parts.len() - 1].clone()
        } else {
            text::joined(parts, first, "\n")
        }
    }
}

/// The response is what is left of the parts after the first `n`, which are all narration.
pub open spec fn kept_from(parts: Seq<Seq<char>>, response: Seq<char>, n: int) -> bool {
    &&& 0 <= n < parts.len()
    &&& response == text::join(parts.skip(n), "\n"@)
    &&& forall|i: int| 0 <= i < n ==> narrates(#[trigger] parts[i])
}

proof fn lemma_leading_parts_narrate(parts: Seq<Seq<char>>, i: int)
    requires
        0 <= i < leading_narration(parts),
    ensures
        i < parts.len(),
        narrates(parts[i]),
    decreases parts.len(),
{
    if i > 0 {
        lemma_leading_parts_narrate(parts.drop_first(), i - 1);
        assert(parts.drop_first()[i - 1] == parts[i]);
    }
}

proof fn lemma_narration_ends(parts: Seq<Seq<char>>)
    ensures
        leading_narration(parts) <= parts.len(),
        leading_narration(parts) < parts.len() ==> !narrates(
            parts[leading_narration(parts) as int],
        ),
    decreases parts.len(),
{
    if parts.len() > 0 && narrates(parts[0]) {
        lemma_narration_ends(parts.drop_first());
        let n = leading_narration(parts.drop_first());
        if n < parts.drop_first().len() {
            assert(parts.drop_first()[n as int] == parts[n as int + 1]);
        }
    }
}

/// Only narration is dropped from a response, and only from its start, and never all of
/// it: what is left begins with the first part that is not narration or, where every part
/// is, with the last one. Nothing is dropped where narration is shown.
pub proof fn only_leading_narration_is_dropped(parts: Seq<Seq<char>>, show: bool)
    requires
        parts.len() > 0,
    ensures
        exists|n: int| #[trigger]
            kept_from(parts, without_narration(parts, show), n) && (show ==> n == 0) && (!show
                ==> n == parts.len() - 1 || !narrates(parts[n])),
{
    let response = without_narration(parts, show);
    let n = leading_narration(parts) as int;
    lemma_narration_ends(parts);
    assert forall|i: int| 0 <= i < n implies narrates(#[trigger] parts[i]) by {
        lemma_leading_parts_narrate(parts, i);
    }
    assert(parts.skip(0) =~= parts);
    if show || parts.len() <= 1 {
        assert(kept_from(parts, response, 0));
    } else if n < parts.len() {
        assert(kept_from(parts, response, n));
    } else {
        let last = parts.len() - 1;
        assert(parts.skip(last) =~= seq![parts.last()]);
        assert(text::join(parts.skip(last), "\n"@) == parts.last());
        assert(kept_from(parts, response, last));
    }
}

/// A response of one part is kept as it is, and one of none is empty.
pub proof fn single_parts_are_kept(part: Seq<char>, show: bool)
    ensures
        without_narration(seq![part], show) == part,
        without_narration(Seq::empty(), show) == Seq::<char>::empty(),
{
}

/// One of the lines is not blank.
spec fn some_said(lines: Seq<Seq<char>>) -> bool {
    exists|i: int| 0 <= i < lines.len() && !text::is_blank(#[trigger] lines[i])
}

/// Every line that is not blank begins with "I will".
spec fn all_intended(lines: Seq<Seq<char>>) -> bool {
    forall|i: int|
        0 <= i < lines.len() && !text::is_blank(#[trigger] lines[i]) ==> "I will"@.is_prefix_of(
            text::trim_start(lines[i]),
        )
}

proof fn lemma_one_more_line(first: Seq<char>, rest: Seq<Seq<char>>)
    ensures
        some_said(seq![first] + rest) == (!text::is_blank(first) || some_said(rest)),
        all_intended(seq![first] + rest) == ((!text::is_blank(first) ==> "I will"@.is_prefix_of(
            text::trim_start(first),
        )) && all_intended(rest)),
{
    let all = seq![first] + rest;
    assert(all[0] == first);
    assert forall|i: int| 0 <= i < rest.len() implies #[trigger] rest[i] == all[i + 1] by {}
    if some_said(rest) {
        let i = choose|i: int| 0 <= i < rest.len() && !text::is_blank(#[trigger] rest[i]);
        assert(!text::is_blank(all[i + 1]));
    }
    if some_said(all) && text::is_blank(first) {
        let i = choose|i: int| 0 <= i < all.len() && !text::is_blank(#[trigger] all[i]);
        assert(rest[i - 1] == all[i]);
    }
    if all_intended(all) {
        assert forall|i: int| 0 <= i < rest.len() && !text::is_blank(#[trigger] rest[i]) implies
            "I will"@.is_prefix_of(text::trim_start(rest[i])) by {
            assert(all[i + 1] == rest[i]);
        }
    }
    if all_intended(rest) {
        assert forall|i: int| 1 <= i < all.len() && !text::is_blank(#[trigger] all[i]) implies
            "I will"@.is_prefix_of(text::trim_start(all[i])) by {
            assert(rest[i - 1] == all[i]);
        }
    }
}

proof fn lemma_carriage_return(line: Seq<char>)
    ensures
        text::is_blank(line.push('\r')) == text::is_blank(line),
        !text::is_blank(line) ==> text::trim_start(line.push('\r')) == text::trim_start(
            line,
        ).push('\r'),
    decreases line.len(),
{
    let longer = line.push('\r');
    assert forall|i: int| 0 <= i < line.len() implies #[trigger] line[i] == longer[i] by {}
    if text::is_blank(line) {
        assert(text::is_blank(longer));
    } else {
        let k = choose|k: int| 0 <= k < line.len() && !text::is_white_space(#[trigger] line[k]);
        assert(!text::is_white_space(longer[k]));
        assert(longer[0] == line[0]);
        if text::is_white_space(line[0]) {
            let rest = line.drop_first();
            assert(longer.drop_first() =~= rest.push('\r'));
            assert(rest[k - 1] == line[k]);
            lemma_carriage_return(rest);
        }
    }
}

/// A carriage return at the end of a line makes no difference.
proof fn lemma_line_end(line: Seq<char>)
    ensures
        text::is_blank(line.push('\r')) == text::is_blank(line),
        !text::is_blank(line) ==> "I will"@.is_prefix_of(text::trim_start(line.push('\r')))
            == "I will"@.is_prefix_of(text::trim_start(line)),
{
    lemma_carriage_return(line);
    reveal_strlit("I will");
    if !text::is_blank(line) {
        let body = text::trim_start(line);
        let longer = body.push('\r');
        if "I will"@.is_prefix_of(longer) {
            assert(longer.subrange(0, 6)[5] == 'l');
            assert(longer[5] == 'l');
            assert(body.subrange(0, 6) =~= longer.subrange(0, 6));
        }
        if "I will"@.is_prefix_of(body) {
            assert(body.subrange(0, 6) =~= longer.subrange(0, 6));
        }
    }
}

/// The first line of a text of several lines, without its end.
proof fn lemma_peel(head: Seq<char>, a: Seq<char>, b: Seq<char>) -> (x: Seq<char>)
    requires
        one_line(head),
    ensures
        text::lines(head.push('\n') + a) == seq![x] + text::lines(a),
        text::lines(head.push('\n') + b) == seq![x] + text::lines(b),
        text::is_blank(x) == text::is_blank(head),
        !text::is_blank(x) ==> "I will"@.is_prefix_of(text::trim_start(x))
            == "I will"@.is_prefix_of(text::trim_start(head)),
{
    if head.len() > 0 && head.last() == '\r' {
        let x = head.drop_last();
        assert(x.push('\r') =~= head);
        assert forall|i: int| 0 <= i < x.len() implies #[trigger] x[i] != '\n' by {
            assert(x[i] == head[i]);
        }
        newlines_end_lines(x, a);
        newlines_end_lines(x, b);
        lemma_line_end(x);
        x
    } else {
        newlines_end_lines(head, a);
        newlines_end_lines(head, b);
        head
    }
}

proof fn lemma_two_texts(a: Seq<char>, b: Seq<char>)
    ensures
        ({
            let both = text::lines(a.push('\n') + b);
            let first = text::lines(a);
            let second = text::lines(b);
            &&& some_said(both) == (some_said(first) || some_said(second))
            &&& all_intended(both) == (all_intended(first) && all_intended(second))
        }),
    decreases a.len(),
{
    let none = Seq::<Seq<char>>::empty();
    let n = lemma_split_at_newline(a);
    let head = a.take(n);
    if n == a.len() {
        assert(head =~= a);
        let x = lemma_peel(a, b, b);
        newlines_end_lines(a, b);
        lemma_one_more_line(x, text::lines(b));
        lemma_one_more_line(a, none);
        assert(seq![a] + none =~= seq![a]);
    } else {
        let tail = a.skip(n + 1);
        let rest = tail.push('\n') + b;
        assert(a =~= head.push('\n') + tail);
        assert(a.push('\n') + b =~= head.push('\n') + rest);
        let x = lemma_peel(head, tail, rest);
        lemma_two_texts(tail, b);
        lemma_one_more_line(x, text::lines(tail));
        lemma_one_more_line(x, text::lines(rest));
    }
}

proof fn lemma_blank_text(t: Seq<char>)
    ensures
        some_said(text::lines(t)) == !text::is_blank(t),
    decreases t.len(),
{
    let none = Seq::<Seq<char>>::empty();
    let n = lemma_split_at_newline(t);
    let head = t.take(n);
    if n == t.len() {
        assert(head =~= t);
        newlines_end_lines(t, Seq::empty());
        lemma_one_more_line(t, none);
        assert(seq![t] + none =~= seq![t]);
    } else {
        let tail = t.skip(n + 1);
        assert(t =~= head.push('\n') + tail);
        let x = lemma_peel(head, tail, tail);
        lemma_one_more_line(x, text::lines(tail));
        lemma_blank_text(tail);
        assert forall|i: int| 0 <= i < head.len() implies #[trigger] head[i] == t[i] by {}
        assert forall|i: int| 0 <= i < tail.len() implies #[trigger] tail[i] == t[i + n + 1] by {}
        if text::is_blank(head) && text::is_blank(tail) {
            assert forall|i: int| 0 <= i < t.len() implies text::is_white_space(
                #[trigger] t[i],
            ) by {
                if i < n {
                    assert(head[i] == t[i]);
                } else if i > n {
                    assert(tail[i - n - 1] == t[i]);
                }
            }
        }
    }
}

/// A line is narration exactly if it begins with "I will" after its leading white space.
pub proof fn narration_begins_with_i_will(line: Seq<char>)
    requires
        one_line(line),
    ensures
        narrates(line) <==> "I will"@.is_prefix_of(text::trim_start(line)),
{
    reveal_strlit("I will");
    newlines_end_lines(line, Seq::empty());
    trimming_the_start(line);
    let kept = text::trim_start(line);
    if text::is_blank(line) && kept.len() > 0 {
        let left = choose|left: int| #[trigger]
            stripped(line, kept, left) && left + kept.len() == line.len();
        assert(line[left] == kept[0]);
    }
    if line.len() > 0 {
        assert(text::lines(line)[0] == line);
    }
    if !text::is_blank(line) {
        assert(text::lines(line)[0] == line);
    }
}

/// Two texts, one after the other, are narration exactly if each of them is narration or
/// blank, and one of them is narration.
pub proof fn narration_adds_up(a: Seq<char>, b: Seq<char>)
    ensures
        narrates(a.push('\n') + b) <==> (narrates(a) || text::is_blank(a)) && (narrates(b)
            || text::is_blank(b)) && (narrates(a) || narrates(b)),
        text::is_blank(a) ==> !narrates(a),
{
    lemma_two_texts(a, b);
    lemma_blank_text(a);
    lemma_blank_text(b);
    lemma_narrates(a);
    lemma_narrates(b);
    lemma_narrates(a.push('\n') + b);
    if text::is_blank(a) {
        assert(all_intended(text::lines(a)));
    }
    if text::is_blank(b) {
        assert(all_intended(text::lines(b)));
    }
}

proof fn lemma_narrates(t: Seq<char>)
    ensures
        narrates(t) == (some_said(text::lines(t)) && all_intended(text::lines(t))),
{
    let all = text::lines(t);
    if some_said(all) && all_intended(all) {
        let i = choose|i: int| 0 <= i < all.len() && !text::is_blank(#[trigger] all[i]);
        assert(!text::is_blank(text::lines(t)[i]));
    }
}

/// A text with a line that says something else is never narration, whatever stands before
/// and after that line.
pub proof fn content_is_never_narration(before: Seq<char>, line: Seq<char>, after: Seq<char>)
    requires
        one_line(line),
        !text::is_blank(line),
        !"I will"@.is_prefix_of(text::trim_start(line)),
    ensures
        !narrates(line),
        !narrates(before.push('\n') + line),
        !narrates(line.push('\n') + after),
        !narrates(before.push('\n') + line.push('\n') + after),
{
    narration_begins_with_i_will(line);
    narration_adds_up(before, line);
    narration_adds_up(line, after);
    narration_adds_up(before, line.push('\n') + after);
    lemma_blank_text(line);
    let k = choose|k: int| 0 <= k < line.len() && !text::is_white_space(#[trigger] line[k]);
    assert((line.push('\n') + after)[k] == line[k]);
    assert(before.push('\n') + line.push('\n') + after =~= before.push('\n') + (line.push('\n')
        + after));
}

/// The text is this word, whatever the case of its letters.
pub open spec fn spells(v: Seq<char>, lower: Seq<char>, upper: Seq<char>) -> bool {
    &&& v.len() == lower.len()
    &&& forall|i: int| 0 <= i < v.len() ==> #[trigger] v[i] == lower[i] || v[i] == upper[i]
}

/// Where the first setting is there, it alone decides: narration is shown if it is `1` or
/// spells `true`. Else the second one decides: narration is shown if it spells `full`. Where
/// neither is there, it is not shown.
pub proof fn settings_show_narration(v: Seq<char>, other: Option<Seq<char>>)
    requires
        is_ascii_chars(v),
    ensures
        narration_shown(Some(v), other) <==> v == "1"@ || spells(v, "true"@, "TRUE"@),
        narration_shown(None, Some(v)) <==> spells(v, "full"@, "FULL"@),
        !narration_shown(None, None),
{
    reveal_strlit("true");
    reveal_strlit("TRUE");
    reveal_strlit("full");
    reveal_strlit("FULL");
    let low = text::lowercase(v);
    assert(low.len() == v.len());
    assert forall|i: int| 0 <= i < v.len() implies #[trigger] low[i] == text::ascii_lower(v[i]) by {}
    if spells(v, "true"@, "TRUE"@) {
        assert(low =~= "true"@);
    }
    if low == "true"@ {
        assert forall|i: int| 0 <= i < v.len() implies #[trigger] v[i] == "true"@[i] || v[i]
            == "TRUE"@[i] by {
            assert(low[i] == "true"@[i]);
        }
    }
    if spells(v, "full"@, "FULL"@) {
        assert(low =~= "full"@);
    }
    if low == "full"@ {
        assert forall|i: int| 0 <= i < v.len() implies #[trigger] v[i] == "full"@[i] || v[i]
            == "FULL"@[i] by {
            assert(low[i] == "full"@[i]);
        }
    }
}

} // verus!
