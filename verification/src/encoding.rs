//! Step payloads as they are written: what is encoded is read back.

use vstd::arithmetic::power::*;
use vstd::prelude::*;
use vstd::utf8::*;
use crate::proto::after;
use crate::proto::leading_field;
use crate::proto::proto_field;
use crate::proto::proto_text;
use crate::proto::step_text;
use crate::proto::tool_step_type;
use crate::proto::varint;
use crate::proto::varint_length;
use crate::proto::varint_value;
use crate::proto::FieldView;

verus! {

/// The varint of `n`: seven bits in each byte, the lowest first, and the high bit set in
/// every byte but the last.
pub open spec fn varint_bytes(n: nat) -> Seq<u8>
    decreases n,
{
    if n < 128 {
        seq![n as u8]
    } else {
        seq![(n % 128 + 128) as u8] + varint_bytes(n / 128)
    }
}

/// The field with this number whose content is a varint.
pub open spec fn varint_field(number: nat, value: nat) -> Seq<u8> {
    varint_bytes(number * 8) + varint_bytes(value)
}

/// The length-delimited field with this number.
pub open spec fn delimited_field(number: nat, content: Seq<u8>) -> Seq<u8> {
    varint_bytes(number * 8 + 2) + varint_bytes(content.len()) + content
}

/// The payload of a step that carries this text.
pub open spec fn text_payload(t: Seq<char>) -> Seq<u8> {
    delimited_field(20, delimited_field(1, encode_utf8(t)))
}

/// The numbers of fields.
pub open spec fn field_number(n: nat) -> bool {
    n < 0x2000_0000_0000_0000
}

proof fn lemma_size(n: nat, k: nat)
    requires
        k > 0,
        n < pow(128, k),
    ensures
        1 <= varint_bytes(n).len() <= k,
    decreases k,
{
    lemma_pow1(128);
    if n >= 128 {
        if k == 1 {
            assert(false);
        }
        assert(pow(128, k) == 128 * pow(128, (k - 1) as nat)) by {
            lemma_pow_adds(128, 1, (k - 1) as nat);
        }
        lemma_size(n / 128, (k - 1) as nat);
    }
}

/// The bytes of a varint but the last ask for more.
proof fn lemma_shape(n: nat, i: int)
    requires
        0 <= i < varint_bytes(n).len(),
    ensures
        varint_bytes(n)[i] < 128 <==> i == varint_bytes(n).len() - 1,
    decreases n,
{
    if n >= 128 {
        lemma_some_bytes(n / 128);
        if i > 0 {
            lemma_shape(n / 128, i - 1);
        }
    }
}

proof fn lemma_some_bytes(n: nat)
    ensures
        varint_bytes(n).len() >= 1,
{
}

proof fn lemma_length_from(n: nat, rest: Seq<u8>, from: nat)
    requires
        from < varint_bytes(n).len() <= 10,
    ensures
        varint_length(varint_bytes(n) + rest, from) == Some(varint_bytes(n).len()),
    decreases varint_bytes(n).len() - from,
{
    let bytes = varint_bytes(n);
    lemma_shape(n, from as int);
    assert((bytes + rest)[from as int] == bytes[from as int]);
    if from + 1 < bytes.len() {
        lemma_length_from(n, rest, from + 1);
    }
}

proof fn lemma_value_of_first(b: u8, t: Seq<u8>)
    ensures
        varint_value(seq![b] + t) == b % 128 + 128 * varint_value(t),
    decreases t.len(),
{
    let s = seq![b] + t;
    lemma_pow0(128);
    if t.len() == 0 {
        assert(s.drop_last() =~= Seq::<u8>::empty());
        assert(s.last() == b);
        assert(varint_value(s.drop_last()) == 0);
        assert(varint_value(t) == 0);
    } else {
        assert(s.drop_last() =~= seq![b] + t.drop_last());
        lemma_value_of_first(b, t.drop_last());
        let k = (t.len() - 1) as nat;
        lemma_pow_adds(128, 1, k);
        lemma_pow1(128);
        lemma_pow_positive(128, k);
        let d = t.last() as int % 128;
        let p = pow(128, k);
        assert(pow(128, (s.len() - 1) as nat) == 128 * p);
        assert(d * (128 * p) == 128 * (d * p)) by (nonlinear_arith);
        assert(d * p >= 0) by (nonlinear_arith)
            requires
                d >= 0,
                p >= 0,
        ;
        assert(varint_value(t) == varint_value(t.drop_last()) + d * p);
        assert(varint_value(s) == varint_value(s.drop_last()) + d * (128 * p));
    }
}

proof fn lemma_value(n: nat)
    ensures
        varint_value(varint_bytes(n)) == n,
    decreases n,
{
    let rest = if n < 128 {
        Seq::<u8>::empty()
    } else {
        varint_bytes(n / 128)
    };
    assert(varint_value(Seq::<u8>::empty()) == 0);
    if n < 128 {
        lemma_value_of_first(n as u8, rest);
        assert(seq![n as u8] + rest =~= varint_bytes(n));
    } else {
        lemma_value_of_first((n % 128 + 128) as u8, rest);
        lemma_value(n / 128);
    }
}

/// A varint that was written is read back, whatever follows it.
pub proof fn varints_are_read_back(n: u64, rest: Seq<u8>)
    ensures
        varint(varint_bytes(n as nat) + rest) == Some((n, varint_bytes(n as nat).len())),
{
    let bytes = varint_bytes(n as nat);
    assert(pow(128, 10) >= 0x1_0000_0000_0000_0000) by {
        reveal_with_fuel(pow, 11);
    }
    lemma_size(n as nat, 10);
    lemma_length_from(n as nat, rest, 0);
    assert((bytes + rest).take(bytes.len() as int) =~= bytes);
    lemma_value(n as nat);
}

/// A length-delimited field that was written is found under its number, whatever follows
/// it; and under any other number, what follows it is searched.
pub proof fn delimited_fields_are_found(
    number: nat,
    content: Seq<u8>,
    rest: Seq<u8>,
    target: u64,
)
    requires
        field_number(number),
        content.len() <= u64::MAX,
    ensures
        target == number ==> proto_field(delimited_field(number, content) + rest, target) == Some(
            content,
        ),
        target != number ==> proto_field(delimited_field(number, content) + rest, target)
            == proto_field(rest, target),
{
    let tag = varint_bytes(number * 8 + 2);
    let size = varint_bytes(content.len());
    let blob = delimited_field(number, content) + rest;
    let tag_value = (number * 8 + 2) as u64;
    assert(blob =~= tag + (size + content + rest));
    varints_are_read_back(tag_value, size + content + rest);
    lemma_some_bytes(number * 8 + 2);
    lemma_some_bytes(content.len());
    assert(after(blob, tag.len()) =~= size + (content + rest));
    varints_are_read_back(content.len() as u64, content + rest);
    assert(after(size + (content + rest), size.len()) =~= content + rest);
    assert((content + rest).take(content.len() as int) =~= content);
    let length = tag.len() + size.len() + content.len();
    assert(leading_field(blob) == Some(
        FieldView { number: number as u64, content: Some(content), length },
    ));
    assert(after(blob, length) =~= rest);
}

/// A varint field is passed over.
pub proof fn varint_fields_are_passed_over(number: nat, value: u64, rest: Seq<u8>, target: u64)
    requires
        field_number(number),
    ensures
        proto_field(varint_field(number, value as nat) + rest, target) == proto_field(
            rest,
            target,
        ),
{
    let tag = varint_bytes(number * 8);
    let content = varint_bytes(value as nat);
    let blob = varint_field(number, value as nat) + rest;
    let tag_value = (number * 8) as u64;
    assert(blob =~= tag + (content + rest));
    varints_are_read_back(tag_value, content + rest);
    lemma_some_bytes(number * 8);
    lemma_some_bytes(value as nat);
    assert(after(blob, tag.len()) =~= content + rest);
    varints_are_read_back(value, rest);
    let length = tag.len() + content.len();
    assert(leading_field(blob) == Some(
        FieldView { number: number as u64, content: None, length },
    ));
    assert(after(blob, length) =~= rest);
}

/// The text that a payload was made to carry is the text that is read from it.
pub proof fn texts_are_read_back(t: Seq<char>)
    requires
        delimited_field(1, encode_utf8(t)).len() <= u64::MAX,
    ensures
        step_text(text_payload(t)) == Some(t),
{
    let none = Seq::<u8>::empty();
    let bytes = encode_utf8(t);
    let inner = delimited_field(1, bytes);
    delimited_fields_are_found(20, inner, none, 20);
    assert(text_payload(t) + none =~= text_payload(t));
    delimited_fields_are_found(1, bytes, none, 1);
    assert(inner + none =~= inner);
    encode_utf8_valid_utf8(t);
    encode_utf8_decode_utf8(t);
    assert(proto_text(inner, 1) == Some(t));
}

/// A varint that has just ended: every byte but the last has its high bit set.
pub open spec fn ended_varint(bytes: Seq<u8>) -> bool {
    &&& 1 <= bytes.len() <= 10
    &&& bytes.last() < 128
    &&& forall|i: int| 0 <= i < bytes.len() - 1 ==> #[trigger] bytes[i] >= 128
}

proof fn lemma_ended_varint(bytes: Seq<u8>, rest: Seq<u8>, from: nat)
    requires
        ended_varint(bytes),
        from < bytes.len(),
    ensures
        varint_length(bytes + rest, from) == Some(bytes.len()),
    decreases bytes.len() - from,
{
    assert((bytes + rest)[from as int] == bytes[from as int]);
    if from + 1 < bytes.len() {
        lemma_ended_varint(bytes, rest, from + 1);
    }
}

/// A varint ends with its first byte whose high bit is not set, however many bytes its
/// number would need; each byte stands for seven bits, the first one for the lowest; and
/// of the number the low 64 bits are taken.
pub proof fn varints_end_with_their_last_byte(bytes: Seq<u8>, rest: Seq<u8>)
    requires
        ended_varint(bytes),
    ensures
        varint(bytes + rest) == Some(
            ((varint_value(bytes) % 0x1_0000_0000_0000_0000) as u64, bytes.len()),
        ),
        varint_value(bytes) == bytes[0] % 128 + 128 * varint_value(bytes.drop_first()),
        varint_value(Seq::empty()) == 0,
{
    lemma_ended_varint(bytes, rest, 0);
    assert((bytes + rest).take(bytes.len() as int) =~= bytes);
    lemma_value_of_first(bytes[0], bytes.drop_first());
    assert(seq![bytes[0]] + bytes.drop_first() =~= bytes);
}

proof fn lemma_endless_varint(buf: Seq<u8>, from: nat)
    requires
        forall|i: int| 0 <= i < buf.len() && i < 10 ==> #[trigger] buf[i] >= 128,
    ensures
        varint_length(buf, from) is None,
    decreases 10 - from,
{
    if from < 10 && from < buf.len() {
        assert(buf[from as int] >= 128);
        lemma_endless_varint(buf, from + 1);
    }
}

/// There is no varint where neither the first ten bytes nor those that there are end one,
/// and then no field is found.
pub proof fn endless_varints_are_refused(buf: Seq<u8>, target: u64)
    requires
        forall|i: int| 0 <= i < buf.len() && i < 10 ==> #[trigger] buf[i] >= 128,
    ensures
        varint(buf) is None,
        proto_field(buf, target) is None,
{
    lemma_endless_varint(buf, 0);
}

/// Fields of eight and of four bytes are passed over.
pub proof fn fixed_fields_are_passed_over(
    number: nat,
    kind: nat,
    content: Seq<u8>,
    rest: Seq<u8>,
    target: u64,
)
    requires
        field_number(number),
        kind == 1 && content.len() == 8 || kind == 5 && content.len() == 4,
    ensures
        proto_field(varint_bytes(number * 8 + kind) + content + rest, target) == proto_field(
            rest,
            target,
        ),
{
    let tag = varint_bytes(number * 8 + kind);
    let blob = tag + content + rest;
    lemma_some_bytes(number * 8 + kind);
    assert(blob =~= tag + (content + rest));
    varints_are_read_back((number * 8 + kind) as u64, content + rest);
    let length = tag.len() + content.len();
    assert(leading_field(blob) == Some(FieldView { number: number as u64, content: None, length }));
    assert(after(blob, length) =~= rest);
}

/// A field of an unknown kind ends the search.
pub proof fn unknown_kinds_end_the_search(number: nat, kind: nat, rest: Seq<u8>, target: u64)
    requires
        field_number(number),
        kind == 3 || kind == 4 || kind == 6 || kind == 7,
    ensures
        proto_field(varint_bytes(number * 8 + kind) + rest, target) is None,
{
    let blob = varint_bytes(number * 8 + kind) + rest;
    lemma_some_bytes(number * 8 + kind);
    varints_are_read_back((number * 8 + kind) as u64, rest);
    assert(leading_field(blob) is None);
}

/// A length-delimited field that is longer than what is left ends the search.
pub proof fn cut_fields_end_the_search(number: nat, size: u64, content: Seq<u8>, target: u64)
    requires
        field_number(number),
        content.len() < size,
    ensures
        proto_field(
            varint_bytes(number * 8 + 2) + varint_bytes(size as nat) + content,
            target,
        ) is None,
{
    let tag = varint_bytes(number * 8 + 2);
    let length = varint_bytes(size as nat);
    let blob = tag + length + content;
    lemma_some_bytes(number * 8 + 2);
    lemma_some_bytes(size as nat);
    assert(blob =~= tag + (length + content));
    varints_are_read_back((number * 8 + 2) as u64, length + content);
    assert(after(blob, tag.len()) =~= length + content);
    varints_are_read_back(size, content);
    assert(after(length + content, length.len()) =~= content);
    assert(leading_field(blob) is None);
}

/// The text of a step is that of field 1 in its field 20; what is not valid UTF-8 is no
/// text, and an empty message has no field.
pub proof fn texts_are_read_from_their_fields(blob: Seq<u8>, inner: Seq<u8>, t: Seq<char>)
    ensures
        proto_field(Seq::empty(), 20) is None,
        proto_field(blob, 20) is None ==> step_text(blob) is None,
        proto_field(blob, 20) == Some(inner) && proto_field(inner, 1) is None ==> step_text(
            blob,
        ) is None,
        proto_field(blob, 20) == Some(inner) && proto_field(inner, 1) is Some && !valid_utf8(
            proto_field(inner, 1)->0,
        ) ==> step_text(blob) is None,
        proto_field(blob, 20) == Some(inner) && proto_field(inner, 1) == Some(encode_utf8(t))
            ==> step_text(blob) == Some(t),
{
    encode_utf8_valid_utf8(t);
    encode_utf8_decode_utf8(t);
}

/// The text of a field is the one that its bytes encode.
pub proof fn field_texts_are_decoded(blob: Seq<u8>, target: u64, t: Seq<char>)
    ensures
        proto_field(blob, target) is None ==> proto_text(blob, target) is None,
        proto_field(blob, target) is Some && !valid_utf8(proto_field(blob, target)->0)
            ==> proto_text(blob, target) is None,
        proto_field(blob, target) == Some(encode_utf8(t)) ==> proto_text(blob, target) == Some(t),
{
    encode_utf8_valid_utf8(t);
    encode_utf8_decode_utf8(t);
}

/// The step types that stand for a tool call are these nine.
pub proof fn tool_steps_are_nine(step_type: i64)
    ensures
        tool_step_type(step_type) <==> set![
            5i64,
            7i64,
            8i64,
            9i64,
            17i64,
            21i64,
            33i64,
            101i64,
            138i64,
        ].contains(step_type),
{
}

} // verus!
