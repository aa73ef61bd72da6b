//! Text: white space, trimming, lines, joining and decimal numerals.
//!
//! Every function here works on the characters of a string, and states its result
//! as a function of those characters.

use vstd::prelude::*;
use vstd::utf8::*;

verus! {

/// The characters with the Unicode property `White_Space`.
pub open spec fn is_white_space(c: char) -> bool {
    ||| '\u{9}' <= c <= '\u{d}'
    ||| c == ' '
    ||| c == '\u{85}'
    ||| c == '\u{a0}'
    ||| c == '\u{1680}'
    ||| '\u{2000}' <= c <= '\u{200a}'
    ||| c == '\u{2028}'
    ||| c == '\u{2029}'
    ||| c == '\u{202f}'
    ||| c == '\u{205f}'
    ||| c == '\u{3000}'
}

/// Every character is white space.
pub open spec fn is_blank(s: Seq<char>) -> bool {
    forall|i: int| 0 <= i < s.len() ==> is_white_space(#[trigger] s[i])
}

/// `s` without its leading white space.
pub open spec fn trim_start(s: Seq<char>) -> Seq<char>
    decreases s.len(),
{
    if s.len() > 0 && is_white_space(s[0]) {
        trim_start(s.drop_first())
    } else {
        s
    }
}

/// `s` without its trailing white space.
pub open spec fn trim_end(s: Seq<char>) -> Seq<char>
    decreases s.len(),
{
    if s.len() > 0 && is_white_space(s.last()) {
        trim_end(s.drop_last())
    } else {
        s
    }
}

/// `s` without the white space at either end.
pub open spec fn trim(s: Seq<char>) -> Seq<char> {
    trim_end(trim_start(s))
}

/// The number of characters of `s` before its first newline, or all of them.
pub open spec fn line_length(s: Seq<char>) -> nat
    decreases s.len(),
{
    if s.len() == 0 || s[0] == '\n' {
        0
    } else {
        1 + line_length(s.drop_first())
    }
}

/// `s` without a carriage return at its end, where it has one.
pub open spec fn strip_carriage_return(s: Seq<char>) -> Seq<char> {
    if s.len() > 0 && s.last() == '\r' {
        s.drop_last()
    } else {
        s
    }
}

/// The lines of `s`: each ends before a newline, or before a carriage return and a
/// newline, or at the end of a text whose last line is not ended.
pub open spec fn lines(s: Seq<char>) -> Seq<Seq<char>>
    decreases s.len(),
{
    let n = line_length(s);
    if s.len() == 0 {
        seq![]
    } else if n < s.len() {
        seq![strip_carriage_return(s.take(n as int))] + lines(s.skip(n as int + 1))
    } else {
        seq![s]
    }
}

/// The parts in their order, with `separator` between each two.
pub open spec fn join(parts: Seq<Seq<char>>, separator: Seq<char>) -> Seq<char>
    decreases parts.len(),
{
    if parts.len() == 0 {
        seq![]
    } else if parts.len() == 1 {
        parts[0]
    } else {
        join(parts.drop_last(), separator) + separator + parts.last()
    }
}

/// The texts of a list of strings.
pub open spec fn texts(list: Seq<String>) -> Seq<Seq<char>> {
    list.map_values(|s: String| s@)
}

/// The text of a string that may be absent.
pub open spec fn opt_text(o: Option<String>) -> Option<Seq<char>> {
    match o {
        Some(s) => Some(s@),
        None => None,
    }
}

/// The text of a string slice that may be absent.
pub open spec fn opt_str(o: Option<&str>) -> Option<Seq<char>> {
    match o {
        Some(s) => Some(s@),
        None => None,
    }
}

/// The decimal digit `d`.
pub open spec fn digit(d: nat) -> char {
    ('0' as u32 + d as u32) as char
}

/// The decimal numeral of `n`.
pub open spec fn decimal_nat(n: nat) -> Seq<char>
    decreases n,
{
    if n < 10 {
        seq![digit(n)]
    } else {
        decimal_nat(n / 10).push(digit(n % 10))
    }
}

/// The decimal numeral of `n`, with a minus sign where it is negative.
pub open spec fn decimal(n: int) -> Seq<char> {
    if n < 0 {
        seq!['-'] + decimal_nat((-n) as nat)
    } else {
        decimal_nat(n as nat)
    }
}

/// The lower-case letter of an ASCII capital; any other character as it is.
pub open spec fn ascii_lower(c: char) -> char {
    if 'A' <= c <= 'Z' {
        (c as u32 + 32) as char
    } else {
        c
    }
}

/// What `str::to_lowercase` makes of a text.
pub uninterp spec fn unicode_lowercase(s: Seq<char>) -> Seq<char>;

/// `s` in lower case: letter by letter where it is ASCII, else as Unicode has it.
pub open spec fn lowercase(s: Seq<char>) -> Seq<char> {
    if is_ascii_chars(s) {
        s.map_values(|c: char| ascii_lower(c))
    } else {
        unicode_lowercase(s)
    }
}

/// `str::to_lowercase`: an ASCII text letter by letter, and any other text by the Unicode
/// tables, of which nothing is said here but that the result is a function of the text.
#[verifier::external_body]
pub(crate) fn lowercased(s: &str) -> (r: String)
    ensures
        r@ == (if is_ascii_chars(s@) {
            s@.map_values(|c: char| ascii_lower(c))
        } else {
            unicode_lowercase(s@)
        }),
{
    s.to_lowercase()
}

/// `String::push`: the character is added at the end.
pub assume_specification[ String::push ](s: &mut String, c: char)
    ensures
        final(s)@ == old(s)@.push(c),
;

/// Whether `c` is white space.
pub fn white_space(c: char) -> (r: bool)
    ensures
        r == is_white_space(c),
{
    ('\u{9}' <= c && c <= '\u{d}') || c == ' ' || c == '\u{85}' || c == '\u{a0}' || c == '\u{1680}'
        || ('\u{2000}' <= c && c <= '\u{200a}') || c == '\u{2028}' || c == '\u{2029}'
        || c == '\u{202f}' || c == '\u{205f}' || c == '\u{3000}'
}

/// The characters of `s`.
pub fn chars_of(s: &str) -> (r: Vec<char>)
    ensures
        r@ == s@,
{
    let mut r: Vec<char> = Vec::new();
    for c in it: s.chars()
        invariant
            r@ == s@.take(it.index() as int),
            it.seq() == s@,
    {
        r.push(c);
        assert(s@.take(it.index() + 1) == s@.take(it.index() as int).push(c));
    }
    assert(s@.take(s@.len() as int) == s@);
    r
}

/// The characters from `from` up to `to` as a string.
pub fn string_of(chars: &Vec<char>, from: usize, to: usize) -> (r: String)
    requires
        from <= to <= chars@.len(),
    ensures
        r@ == chars@.subrange(from as int, to as int),
{
    let mut r = String::new();
    let mut i: usize = from;
    while i < to
        invariant
            from <= i <= to <= chars@.len(),
            r@ == chars@.subrange(from as int, i as int),
        decreases to - i,
    {
        r.push(chars[i]);
        i += 1;
        assert(chars@.subrange(from as int, i as int) == chars@.subrange(from as int, i - 1).push(
            chars@[i - 1],
        ));
    }
    r
}

proof fn lemma_trim_start_from(s: Seq<char>, n: int)
    requires
        0 <= n <= s.len(),
        forall|i: int| 0 <= i < n ==> is_white_space(#[trigger] s[i]),
    ensures
        trim_start(s) == trim_start(s.skip(n)),
    decreases n,
{
    if n == 0 {
        assert(s.skip(0) == s);
    } else {
        assert(is_white_space(s[0]));
        lemma_trim_start_from(s.drop_first(), n - 1);
        assert(s.drop_first().skip(n - 1) == s.skip(n));
    }
}

proof fn lemma_trim_end_upto(s: Seq<char>, n: int)
    requires
        0 <= n <= s.len(),
        forall|i: int| n <= i < s.len() ==> is_white_space(#[trigger] s[i]),
    ensures
        trim_end(s) == trim_end(s.take(n)),
    decreases s.len() - n,
{
    if n == s.len() {
        assert(s.take(n) == s);
    } else {
        assert(is_white_space(s.last()));
        lemma_trim_end_upto(s.drop_last(), n);
        assert(s.drop_last().take(n) == s.take(n));
    }
}

/// Whether `s` holds nothing but white space.
pub fn blank(s: &str) -> (r: bool)
    ensures
        r == is_blank(s@),
{
    let chars = chars_of(s);
    let mut i: usize = 0;
    while i < chars.len()
        invariant
            i <= chars@.len(),
            chars@ == s@,
            forall|j: int| 0 <= j < i ==> is_white_space(#[trigger] s@[j]),
        decreases chars@.len() - i,
    {
        if !white_space(chars[i]) {
            assert(!is_white_space(s@[i as int]));
            return false;
        }
        i += 1;
    }
    true
}

/// The number of white-space characters at the start.
fn leading_white_space(chars: &Vec<char>) -> (r: usize)
    ensures
        r <= chars@.len(),
        forall|j: int| 0 <= j < r ==> is_white_space(#[trigger] chars@[j]),
        r < chars@.len() ==> !is_white_space(chars@[r as int]),
{
    let mut i: usize = 0;
    while i < chars.len() && white_space(chars[i])
        invariant
            i <= chars@.len(),
            forall|j: int| 0 <= j < i ==> is_white_space(#[trigger] chars@[j]),
        decreases chars@.len() - i,
    {
        i += 1;
    }
    i
}

/// Where the white space at the end begins, not before `from`.
fn trailing_white_space(chars: &Vec<char>, from: usize) -> (r: usize)
    requires
        from <= chars@.len(),
    ensures
        from <= r <= chars@.len(),
        forall|j: int| r <= j < chars@.len() ==> is_white_space(#[trigger] chars@[j]),
        r > from ==> !is_white_space(chars@[r - 1]),
{
    let mut i: usize = chars.len();
    while i > from && white_space(chars[i - 1])
        invariant
            from <= i <= chars@.len(),
            forall|j: int| i <= j < chars@.len() ==> is_white_space(#[trigger] chars@[j]),
        decreases i,
    {
        i -= 1;
    }
    i
}

/// `s` without its leading white space.
pub fn trimmed_start(s: &str) -> (r: String)
    ensures
        r@ == trim_start(s@),
{
    let chars = chars_of(s);
    let from = leading_white_space(&chars);
    proof {
        lemma_trim_start_from(s@, from as int);
    }
    assert(s@.skip(from as int) == s@.subrange(from as int, s@.len() as int));
    string_of(&chars, from, chars.len())
}

/// `s` without its trailing white space.
pub fn trimmed_end(s: &str) -> (r: String)
    ensures
        r@ == trim_end(s@),
{
    let chars = chars_of(s);
    let to = trailing_white_space(&chars, 0);
    proof {
        lemma_trim_end_upto(s@, to as int);
    }
    assert(s@.take(to as int) == s@.subrange(0, to as int));
    string_of(&chars, 0, to)
}

/// `s` without the white space at either end.
pub fn trimmed(s: &str) -> (r: String)
    ensures
        r@ == trim(s@),
{
    let chars = chars_of(s);
    let from = leading_white_space(&chars);
    let to = trailing_white_space(&chars, from);
    proof {
        lemma_trim_start_from(s@, from as int);
        let rest = s@.skip(from as int);
        assert forall|j: int| to - from <= j < rest.len() implies is_white_space(
            #[trigger] rest[j],
        ) by {
            assert(rest[j] == chars@[j + from]);
        }
        lemma_trim_end_upto(rest, to - from);
        assert(rest.take(to - from) == s@.subrange(from as int, to as int));
    }
    string_of(&chars, from, to)
}

proof fn lemma_line_length(s: Seq<char>, n: int)
    requires
        0 <= n <= s.len(),
        forall|i: int| 0 <= i < n ==> #[trigger] s[i] != '\n',
        n == s.len() || s[n] == '\n',
    ensures
        line_length(s) == n,
    decreases n,
{
    if n > 0 {
        assert(s[0] != '\n');
        lemma_line_length(s.drop_first(), n - 1);
    }
}

/// The lines of `s`.
pub fn split_lines(s: &str) -> (r: Vec<String>)
    ensures
        texts(r@) == lines(s@),
{
    let chars = chars_of(s);
    let mut r: Vec<String> = Vec::new();
    let mut start: usize = 0;
    assert(s@.skip(0) == s@);
    while start < chars.len()
        invariant
            start <= chars@.len(),
            chars@ == s@,
            lines(s@) == texts(r@) + lines(s@.skip(start as int)),
        decreases chars@.len() - start,
    {
        let mut end: usize = start;
        while end < chars.len() && chars[end] != '\n'
            invariant
                start <= end <= chars@.len(),
                forall|i: int| start <= i < end ==> #[trigger] chars@[i] != '\n',
            decreases chars@.len() - end,
        {
            end += 1;
        }
        let ghost rest = s@.skip(start as int);
        proof {
            assert forall|i: int| 0 <= i < end - start implies #[trigger] rest[i] != '\n' by {
                assert(rest[i] == chars@[i + start]);
            }
            lemma_line_length(rest, end - start);
        }
        let ghost before = texts(r@);
        if end < chars.len() {
            assert(rest.take(end - start) == chars@.subrange(start as int, end as int));
            let line = if end > start && chars[end - 1] == '\r' {
                assert(chars@.subrange(start as int, end as int).drop_last() == chars@.subrange(
                    start as int,
                    end - 1,
                ));
                string_of(&chars, start, end - 1)
            } else {
                string_of(&chars, start, end)
            };
            assert(line@ == strip_carriage_return(rest.take(end - start)));
            r.push(line);
            assert(texts(r@) == before.push(line@));
            assert(rest.skip(end - start + 1) == s@.skip(end + 1));
            start = end + 1;
            assert(lines(s@) == texts(r@) + lines(s@.skip(start as int)));
        } else {
            let line = string_of(&chars, start, end);
            assert(line@ == rest);
            r.push(line);
            assert(texts(r@) == before.push(line@));
            start = end;
            assert(lines(s@.skip(start as int)) == Seq::<Seq<char>>::empty());
            assert(lines(s@) == texts(r@) + lines(s@.skip(start as int)));
        }
    }
    assert(lines(s@.skip(start as int)) == Seq::<Seq<char>>::empty());
    r
}

/// The parts from `from` on in their order, with `separator` between each two.
pub fn joined(parts: &[String], from: usize, separator: &str) -> (r: String)
    requires
        from <= parts@.len(),
    ensures
        r@ == join(texts(parts@).skip(from as int), separator@),
{
    let mut r = String::new();
    let mut i: usize = from;
    let ghost all = texts(parts@).skip(from as int);
    while i < parts.len()
        invariant
            from <= i <= parts@.len(),
            all == texts(parts@).skip(from as int),
            r@ == join(all.take(i - from), separator@),
        decreases parts@.len() - i,
    {
        if i > from {
            r.append(separator);
        }
        r.append(parts[i].as_str());
        i += 1;
        assert(all.take(i - from).drop_last() == all.take(i - from - 1));
        assert(all.take(i - from).last() == parts@[i - 1]@);
        if i == from + 1 {
            assert(r@ == parts@[i - 1]@);
        }
    }
    assert(all.take(i - from) == all);
    r
}

/// The number of bytes of `s` in UTF-8.
pub fn byte_length(s: &str) -> (r: usize)
    ensures
        r == encode_utf8(s@).len(),
{
    s.as_bytes().len()
}

/// Whether two strings hold the same characters.
pub fn same_text(a: &str, b: &str) -> (r: bool)
    ensures
        r == (a@ == b@),
{
    let x = a.as_bytes();
    let y = b.as_bytes();
    proof {
        encode_utf8_decode_utf8(a@);
        encode_utf8_decode_utf8(b@);
    }
    if x.len() != y.len() {
        return false;
    }
    let mut i: usize = 0;
    while i < x.len()
        invariant
            i <= x@.len(),
            x@.len() == y@.len(),
            x@ == encode_utf8(a@),
            y@ == encode_utf8(b@),
            forall|j: int| 0 <= j < i ==> x@[j] == y@[j],
        decreases x@.len() - i,
    {
        if x[i] != y[i] {
            return false;
        }
        i += 1;
    }
    assert(x@ == y@);
    true
}

/// Whether `s` begins with `prefix`.
pub fn begins_with(s: &str, prefix: &str) -> (r: bool)
    ensures
        r == prefix@.is_prefix_of(s@),
{
    let x = chars_of(s);
    let y = chars_of(prefix);
    if y.len() > x.len() {
        return false;
    }
    let mut i: usize = 0;
    while i < y.len()
        invariant
            i <= y@.len() <= x@.len(),
            x@ == s@,
            y@ == prefix@,
            forall|j: int| 0 <= j < i ==> x@[j] == y@[j],
        decreases y@.len() - i,
    {
        if x[i] != y[i] {
            assert(prefix@[i as int] != s@.subrange(0, prefix@.len() as int)[i as int]);
            return false;
        }
        i += 1;
    }
    assert(prefix@ == s@.subrange(0, prefix@.len() as int));
    true
}

/// The first `n` characters of `s`, or all of them where it has fewer.
pub fn first_chars(s: &str, n: usize) -> (r: String)
    ensures
        r@ == (if s@.len() <= n { s@ } else { s@.take(n as int) }),
{
    let chars = chars_of(s);
    let to = if chars.len() <= n { chars.len() } else { n };
    assert(s@.subrange(0, to as int) == (if s@.len() <= n { s@ } else { s@.take(n as int) }));
    string_of(&chars, 0, to)
}

/// `a` followed by `b`.
pub fn concat(a: &str, b: &str) -> (r: String)
    ensures
        r@ == a@ + b@,
{
    let mut r = a.to_owned();
    r.append(b);
    r
}

/// The decimal numeral of `n`.
fn numeral(n: u64) -> (r: String)
    ensures
        r@ == decimal_nat(n as nat),
    decreases n,
{
    let mut r = if n < 10 {
        String::new()
    } else {
        numeral(n / 10)
    };
    let d: u8 = (n % 10) as u8;
    let c: char = (48u8 + d) as char;
    r.push(c);
    assert(c == digit((n % 10) as nat));
    assert(n < 10 ==> r@ == seq![digit(n as nat)]);
    r
}

/// The decimal numeral of `n`, with a minus sign where it is negative.
pub fn numeral_of(n: i64) -> (r: String)
    ensures
        r@ == decimal(n as int),
{
    if n < 0 {
        let m: u64 = if n == i64::MIN {
            0x8000_0000_0000_0000
        } else {
            (-n) as u64
        };
        let mut r = String::new();
        r.push('-');
        r.append(numeral(m).as_str());
        assert(r@ == seq!['-'] + decimal_nat((-n) as nat));
        r
    } else {
        numeral(n as u64)
    }
}

/// A copy of a list of strings.
pub fn copied(list: &Vec<String>) -> (r: Vec<String>)
    ensures
        texts(r@) == texts(list@),
{
    let mut r: Vec<String> = Vec::new();
    let mut i: usize = 0;
    while i < list.len()
        invariant
            i <= list@.len(),
            r@.len() == i,
            forall|j: int| 0 <= j < i ==> #[trigger] r@[j]@ == list@[j]@,
        decreases list@.len() - i,
    {
        r.push(list[i].clone());
        i += 1;
    }
    assert(texts(r@) == texts(list@));
    r
}

/// A copy of a string that may be absent.
pub fn copied_opt(o: &Option<String>) -> (r: Option<String>)
    ensures
        opt_text(r) == opt_text(*o),
{
    match o {
        Some(s) => Some(s.clone()),
        None => None,
    }
}

/// An owned copy of a string slice that may be absent.
pub fn owned_opt(o: Option<&str>) -> (r: Option<String>)
    ensures
        opt_text(r) == opt_str(o),
{
    match o {
        Some(s) => Some(s.to_owned()),
        None => None,
    }
}

} // verus!
