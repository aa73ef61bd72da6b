//! What holds of text: trimming, lines, joining and numerals.

use vstd::prelude::*;
use crate::text::decimal;
use crate::text::decimal_nat;
use crate::text::digit;
use crate::text::is_blank;
use crate::text::is_white_space;
use crate::text::join;
use crate::text::line_length;
use crate::text::lines;
use crate::text::opt_str;
use crate::text::opt_text;
use crate::text::texts;
use crate::text::trim;
use crate::text::trim_end;
use crate::text::trim_start;

verus! {

/// `kept` is what is left of `s` once `left` characters are dropped in front and what
/// follows is dropped behind, all of it white space.
pub open spec fn stripped(s: Seq<char>, kept: Seq<char>, left: int) -> bool {
    &&& 0 <= left
    &&& left + kept.len() <= s.len()
    &&& kept == s.subrange(left, left + kept.len())
    &&& is_blank(s.take(left))
    &&& is_blank(s.skip(left + kept.len()))
}

/// Trimming the start drops white space there, all of it, and nothing else.
pub proof fn trimming_the_start(s: Seq<char>)
    ensures
        exists|left: int| #[trigger]
            stripped(s, trim_start(s), left) && left + trim_start(s).len() == s.len(),
        trim_start(s).len() > 0 ==> !is_white_space(trim_start(s)[0]),
    decreases s.len(),
{
    if s.len() > 0 && is_white_space(s[0]) {
        let rest = s.drop_first();
        trimming_the_start(rest);
        let n = choose|left: int| #[trigger]
            stripped(rest, trim_start(rest), left) && left + trim_start(rest).len() == rest.len();
        let kept = trim_start(s);
        assert forall|i: int| 0 <= i < n + 1 implies is_white_space(
            #[trigger] s.take(n + 1)[i],
        ) by {
            if i > 0 {
                assert(rest.take(n)[i - 1] == s[i]);
            }
        }
        assert(kept =~= s.subrange(n + 1, n + 1 + kept.len()));
        assert(stripped(s, kept, n + 1));
    } else {
        assert(s =~= s.subrange(0, s.len() as int));
        assert(stripped(s, trim_start(s), 0));
    }
}

/// Trimming the end drops white space there, all of it, and nothing else.
pub proof fn trimming_the_end(s: Seq<char>)
    ensures
        stripped(s, trim_end(s), 0),
        trim_end(s).len() > 0 ==> !is_white_space(trim_end(s).last()),
    decreases s.len(),
{
    if s.len() > 0 && is_white_space(s.last()) {
        let rest = s.drop_last();
        trimming_the_end(rest);
        let kept = trim_end(s);
        assert forall|i: int| 0 <= i < s.skip(kept.len() as int).len() implies is_white_space(
            #[trigger] s.skip(kept.len() as int)[i],
        ) by {
            if i < rest.len() - kept.len() {
                assert(rest.skip(kept.len() as int)[i] == s[i + kept.len()]);
            }
        }
        assert(kept =~= s.subrange(0, kept.len() as int));
    } else {
        assert(s =~= s.subrange(0, s.len() as int));
    }
}

/// Trimming drops the white space at both ends, all of it, and nothing else.
pub proof fn trimming_drops_white_space_only(s: Seq<char>)
    ensures
        exists|left: int| #[trigger] stripped(s, trim(s), left),
        trim(s).len() > 0 ==> !is_white_space(trim(s)[0]) && !is_white_space(trim(s).last()),
        trim(s).len() == 0 <==> is_blank(s),
        is_blank(s) <==> !exists|i: int| 0 <= i < s.len() && !is_white_space(#[trigger] s[i]),
{
    let middle = trim_start(s);
    let kept = trim(s);
    trimming_the_start(s);
    trimming_the_end(middle);
    let n = choose|left: int| #[trigger]
        stripped(s, middle, left) && left + middle.len() == s.len();
    assert(kept =~= s.subrange(n, n + kept.len()));
    let tail = s.skip(n + kept.len());
    assert forall|i: int| 0 <= i < tail.len() implies is_white_space(#[trigger] tail[i]) by {
        assert(middle.skip(kept.len() as int)[i] == tail[i]);
    }
    assert(stripped(s, kept, n));
    if kept.len() > 0 {
        assert(kept[0] == middle[0]);
        assert(s[n] == kept[0]);
    } else {
        assert forall|i: int| 0 <= i < s.len() implies is_white_space(#[trigger] s[i]) by {
            if i < n {
                assert(s.take(n)[i] == s[i]);
            } else {
                assert(tail[i - n] == s[i]);
            }
        }
    }
}

/// The text has no newline.
pub open spec fn one_line(s: Seq<char>) -> bool {
    forall|i: int| 0 <= i < s.len() ==> #[trigger] s[i] != '\n'
}

proof fn lemma_first_line(line: Seq<char>, rest: Seq<char>)
    requires
        one_line(line),
        rest.len() > 0 ==> rest[0] == '\n',
    ensures
        line_length(line + rest) == line.len(),
    decreases line.len(),
{
    let s = line + rest;
    if line.len() == 0 {
        assert(s =~= rest);
    } else {
        assert(s[0] == line[0]);
        assert(s.drop_first() =~= line.drop_first() + rest);
        assert forall|i: int| 0 <= i < line.drop_first().len() implies
            #[trigger] line.drop_first()[i] != '\n' by {
            assert(line.drop_first()[i] == line[i + 1]);
        }
        lemma_first_line(line.drop_first(), rest);
    }
}

/// A text without a newline is its only line, and an empty one has none; a newline ends the
/// line before it, and a carriage return before the newline belongs to the end.
pub proof fn newlines_end_lines(line: Seq<char>, rest: Seq<char>)
    requires
        one_line(line),
    ensures
        lines(line) == if line.len() == 0 {
            Seq::<Seq<char>>::empty()
        } else {
            seq![line]
        },
        line.len() == 0 || line.last() != '\r' ==> lines(line.push('\n') + rest) == seq![line]
            + lines(rest),
        lines(line.push('\r').push('\n') + rest) == seq![line] + lines(rest),
{
    lemma_first_line(line, Seq::empty());
    assert(line + Seq::<char>::empty() =~= line);
    let s = line.push('\n') + rest;
    lemma_first_line(line, seq!['\n'] + rest);
    assert(s =~= line + (seq!['\n'] + rest));
    assert(s.take(line.len() as int) =~= line);
    assert(s.skip(line.len() as int + 1) =~= rest);
    let longer = line.push('\r');
    let t = longer.push('\n') + rest;
    lemma_first_line(longer, seq!['\n'] + rest);
    assert(t =~= longer + (seq!['\n'] + rest));
    assert(t.take(longer.len() as int) =~= longer);
    assert(longer.drop_last() =~= line);
    assert(t.skip(longer.len() as int + 1) =~= rest);
}

/// Where the first newline of a text stands, or its end.
pub(crate) proof fn lemma_split_at_newline(s: Seq<char>) -> (n: int)
    ensures
        0 <= n <= s.len(),
        one_line(s.take(n)),
        n < s.len() ==> s[n] == '\n',
    decreases s.len(),
{
    if s.len() == 0 || s[0] == '\n' {
        0
    } else {
        let m = lemma_split_at_newline(s.drop_first());
        assert forall|i: int| 0 <= i < m + 1 implies #[trigger] s.take(m + 1)[i] != '\n' by {
            if i > 0 {
                assert(s.drop_first().take(m)[i - 1] == s[i]);
            }
        }
        m + 1
    }
}

/// Joining one part gives the part; joining two lists of parts gives what each gives, with
/// the separator between.
pub proof fn joining_adds_up(a: Seq<Seq<char>>, b: Seq<Seq<char>>, separator: Seq<char>)
    ensures
        a.len() == 1 ==> join(a, separator) == a[0],
        a.len() == 0 ==> join(a, separator) == Seq::<char>::empty(),
        a.len() > 0 && b.len() > 0 ==> join(a + b, separator) == join(a, separator) + separator
            + join(b, separator),
    decreases b.len(),
{
    if a.len() > 0 && b.len() > 0 {
        let c = b.drop_last();
        let left = join(a, separator);
        assert((a + b).drop_last() =~= a + c);
        assert((a + b).last() == b.last());
        joining_adds_up(a, c, separator);
        if c.len() == 0 {
            assert(a + c =~= a);
        } else {
            let middle = join(c, separator);
            assert((left + separator + middle) + separator + b.last() =~= left + separator + (middle
                + separator + b.last()));
        }
    }
}

/// The number that decimal digits stand for.
pub open spec fn digits_value(s: Seq<char>) -> int
    decreases s.len(),
{
    if s.len() == 0 {
        0
    } else {
        digits_value(s.drop_last()) * 10 + (s.last() as int - '0' as int)
    }
}

/// A numeral is made of decimal digits, without a leading zero, and stands for its number.
pub proof fn numerals_stand_for_their_numbers(n: nat)
    ensures
        decimal_nat(n).len() > 0,
        forall|i: int| 0 <= i < decimal_nat(n).len() ==> '0' <= #[trigger] decimal_nat(n)[i] <= '9',
        digits_value(decimal_nat(n)) == n,
        decimal_nat(n)[0] == '0' ==> n == 0 && decimal_nat(n).len() == 1,
    decreases n,
{
    reveal_with_fuel(digits_value, 2);
    let d = n % 10;
    assert('0' <= digit(d) <= '9' && digit(d) as int - '0' as int == d);
    if n < 10 {
        assert(decimal_nat(n).drop_last() =~= Seq::<char>::empty());
    } else {
        numerals_stand_for_their_numbers(n / 10);
        assert(decimal_nat(n).drop_last() =~= decimal_nat(n / 10));
        assert(decimal_nat(n)[0] == decimal_nat(n / 10)[0]);
    }
}

/// A negative number has a minus sign before the numeral of its opposite, and no other sign
/// occurs; so two numbers have different numerals.
pub proof fn numerals_differ(a: int, b: int)
    ensures
        decimal(a).len() > 0,
        a >= 0 ==> digits_value(decimal(a)) == a,
        a < 0 ==> decimal(a)[0] == '-' && digits_value(decimal(a).skip(1)) == -a,
        forall|i: int| 0 < i < decimal(a).len() ==> '0' <= #[trigger] decimal(a)[i] <= '9',
        decimal(a) == decimal(b) ==> a == b,
{
    lemma_numeral(a);
    lemma_numeral(b);
}

proof fn lemma_numeral(a: int)
    ensures
        decimal(a).len() > 0,
        a >= 0 ==> digits_value(decimal(a)) == a && decimal(a)[0] != '-',
        a < 0 ==> decimal(a)[0] == '-' && digits_value(decimal(a).skip(1)) == -a,
        forall|i: int| 0 < i < decimal(a).len() ==> '0' <= #[trigger] decimal(a)[i] <= '9',
{
    if a < 0 {
        let m = (-a) as nat;
        numerals_stand_for_their_numbers(m);
        assert(decimal(a).skip(1) =~= decimal_nat(m));
        assert forall|i: int| 0 < i < decimal(a).len() implies '0' <= #[trigger] decimal(a)[i]
            <= '9' by {
            assert(decimal(a)[i] == decimal_nat(m)[i - 1]);
        }
    } else {
        numerals_stand_for_their_numbers(a as nat);
        assert('0' <= decimal_nat(a as nat)[0]);
    }
}

/// A list of strings says the text of each, in its place, and a string that may be absent
/// says its text where it is there.
pub proof fn strings_say_their_texts(list: Seq<String>, i: int, s: String, t: &str)
    ensures
        texts(list).len() == list.len(),
        0 <= i < list.len() ==> texts(list)[i] == list[i]@,
        opt_text(None) is None,
        opt_text(Some(s)) == Some(s@),
        opt_str(None) is None,
        opt_str(Some(t)) == Some(t@),
{
}

} // verus!
