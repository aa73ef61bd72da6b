//! Reading fields out of protobuf-encoded step payloads.

use vstd::arithmetic::power::*;
use vstd::prelude::*;
use vstd::slice::slice_subrange;
use vstd::slice::slice_to_vec;
use vstd::utf8::*;
use crate::adapter::Adapter;

verus! {

/// The number of bytes of the varint that `buf` begins with, of which the first `from`
/// ask for more: it ends with the first byte below 128, and has at most ten bytes.
pub open spec fn varint_length(buf: Seq<u8>, from: nat) -> Option<nat>
    decreases 10 - from,
{
    if from >= 10 || from >= buf.len() {
        None
    } else if buf[from as int] < 128 {
        Some(from + 1)
    } else {
        varint_length(buf, from + 1)
    }
}

/// The number that `bytes` hold, seven bits each, the lowest first.
pub open spec fn varint_value(bytes: Seq<u8>) -> nat
    decreases bytes.len(),
{
    if bytes.len() == 0 {
        0
    } else {
        (varint_value(bytes.drop_last()) + (bytes.last() as int % 128) * pow(
            128,
            (bytes.len() - 1) as nat,
        )) as nat
    }
}

/// The varint that `buf` begins with: its value, of which the low 64 bits count, and
/// the number of its bytes.
pub open spec fn varint(buf: Seq<u8>) -> Option<(u64, nat)> {
    match varint_length(buf, 0) {
        Some(n) => Some(((varint_value(buf.take(n as int)) % 0x1_0000_0000_0000_0000) as u64, n)),
        None => None,
    }
}

/// `s` without its first `n` bytes, of which it may have fewer.
pub open spec fn after(s: Seq<u8>, n: nat) -> Seq<u8> {
    if n < s.len() {
        s.skip(n as int)
    } else {
        seq![]
    }
}

/// A field of a message: its number, its content where it is length-delimited, and the
/// number of bytes it takes.
pub struct FieldView {
    pub number: u64,
    pub content: Option<Seq<u8>>,
    pub length: nat,
}

/// The field that `blob` begins with: a tag, and then what the wire type in the tag asks
/// for, which is a varint (0), eight bytes (1), a length and that many bytes (2) or four
/// bytes (5). Nothing is said of whether the eight or the four bytes are there.
pub open spec fn leading_field(blob: Seq<u8>) -> Option<FieldView> {
    match varint(blob) {
        None => None,
        Some((tag, tag_length)) => {
            let rest = after(blob, tag_length);
            let number = tag / 8;
            let wire_type = tag % 8;
            if wire_type == 0 {
                match varint(rest) {
                    None => None,
                    Some((_, n)) => Some(
                        FieldView { number, content: None, length: tag_length + n },
                    ),
                }
            } else if wire_type == 1 {
                Some(FieldView { number, content: None, length: tag_length + 8 })
            } else if wire_type == 2 {
                match varint(rest) {
                    None => None,
                    Some((size, n)) => {
                        let body = after(rest, n);
                        if size > body.len() {
                            None
                        } else {
                            Some(
                                FieldView {
                                    number,
                                    content: Some(body.take(size as int)),
                                    length: tag_length + n + size as nat,
                                },
                            )
                        }
                    },
                }
            } else if wire_type == 5 {
                Some(FieldView { number, content: None, length: tag_length + 4 })
            } else {
                None
            }
        },
    }
}

/// The content of the first length-delimited field of `blob` with the number `target`.
/// The search ends without a result where the message ends or stops being well formed.
pub open spec fn proto_field(blob: Seq<u8>, target: u64) -> Option<Seq<u8>>
    decreases blob.len(),
    via proto_field_shrinks
{
    if blob.len() == 0 {
        None
    } else {
        match leading_field(blob) {
            None => None,
            Some(field) => if field.content is Some && field.number == target {
                field.content
            } else {
                proto_field(after(blob, field.length), target)
            },
        }
    }
}

#[via_fn]
proof fn proto_field_shrinks(blob: Seq<u8>, target: u64) {
    lemma_varint_length(blob, 0);
}

/// The text of the first length-delimited field with the number `target`, where it is
/// valid UTF-8.
pub open spec fn proto_text(blob: Seq<u8>, target: u64) -> Option<Seq<char>> {
    match proto_field(blob, target) {
        Some(bytes) => if valid_utf8(bytes) {
            Some(decode_utf8(bytes))
        } else {
            None
        },
        None => None,
    }
}

/// The text that a step payload carries: field 1 of field 20.
pub open spec fn step_text(blob: Seq<u8>) -> Option<Seq<char>> {
    match proto_field(blob, 20) {
        Some(inner) => proto_text(inner, 1),
        None => None,
    }
}

/// The step types that stand for a tool call.
pub open spec fn tool_step_type(step_type: i64) -> bool {
    ||| step_type == 5
    ||| step_type == 7
    ||| step_type == 8
    ||| step_type == 9
    ||| step_type == 17
    ||| step_type == 21
    ||| step_type == 33
    ||| step_type == 101
    ||| step_type == 138
}

pub(crate) proof fn lemma_varint_length(buf: Seq<u8>, from: nat)
    ensures
        varint_length(buf, from) matches Some(n) ==> from < n <= 10 && n <= buf.len(),
    decreases 10 - from,
{
    if from < 10 && from < buf.len() {
        lemma_varint_length(buf, from + 1);
    }
}

/// `String::from_utf8`: the string with these bytes where they are valid UTF-8, else an
/// error, which is dropped here.
#[verifier::external_body]
fn string_from_utf8(bytes: Vec<u8>) -> (r: Option<String>)
    ensures
        match r {
            Some(s) => valid_utf8(bytes@) && s@ == decode_utf8(bytes@),
            None => !valid_utf8(bytes@),
        },
{
    String::from_utf8(bytes).ok()
}

impl Adapter {
    /// Reads a protobuf varint: its value and the number of bytes it takes.
    pub fn read_varint(buf: &[u8]) -> (r: Option<(u64, usize)>)
        ensures
            match r {
                Some((value, n)) => varint(buf@) == Some((value, n as nat)),
                None => varint(buf@) is None,
            },
    {
        let mut result: u128 = 0;
        let mut scale: u128 = 1;
        let mut i: usize = 0;
        proof {
            lemma_pow0(128);
        }
        while i < buf.len()
            invariant
                i <= buf@.len(),
                i <= 10,
                varint_length(buf@, 0) == varint_length(buf@, i as nat),
                result == varint_value(buf@.take(i as int)),
                scale == pow(128, i as nat),
                result < scale,
                scale <= 0x40_0000_0000_0000_0000,
                i < 10 ==> scale <= 0x8000_0000_0000_0000,
            decreases buf@.len() - i,
        {
            if i >= 10 {
                return None;
            }
            let byte = buf[i];
            let part: u128 = (byte % 128) as u128;
            proof {
                assert(part * scale <= 127 * scale) by (nonlinear_arith)
                    requires
                        part <= 127,
                        scale >= 0,
                ;
                let longer = buf@.take(i + 1);
                assert(longer.drop_last() == buf@.take(i as int));
                assert(varint_value(longer) == result + part * scale);
                lemma_pow_adds(128, i as nat, 1);
                lemma_pow1(128);
                lemma_pow_adds(128, 9, 1);
                if i < 9 {
                    lemma_pow_increases(128, (i + 1) as nat, 9);
                }
                assert(pow(128, 9) == 0x8000_0000_0000_0000) by {
                    reveal_with_fuel(pow, 10);
                }
            }
            result = result + part * scale;
            scale = scale * 128;
            i += 1;
            if byte < 128 {
                let value: u64 = (result % 0x1_0000_0000_0000_0000) as u64;
                return Some((value, i));
            }
        }
        None
    }

    /// Reads the field that `blob` begins with: its number, where its content stands if it
    /// is length-delimited, and the number of bytes it takes.
    fn read_field(blob: &[u8]) -> (r: Option<(u64, Option<(usize, usize)>, usize)>)
        ensures
            match r {
                Some((number, range, length)) => {
                    &&& leading_field(blob@) matches Some(field)
                    &&& field.number == number
                    &&& field.length == length
                    &&& length > 0
                    &&& match range {
                        Some((from, to)) => from <= to <= blob@.len() && field.content == Some(
                            blob@.subrange(from as int, to as int),
                        ),
                        None => field.content is None,
                    }
                },
                None => leading_field(blob@) is None,
            },
    {
        proof {
            lemma_varint_length(blob@, 0);
        }
        let (tag, tag_length) = match Self::read_varint(blob) {
            Some(t) => t,
            None => {
                return None;
            },
        };
        let rest = slice_subrange(blob, tag_length, blob.len());
        assert(rest@ == after(blob@, tag_length as nat));
        let number = tag / 8;
        let wire_type = tag % 8;
        if wire_type == 1 {
            return Some((number, None, tag_length + 8));
        }
        if wire_type == 5 {
            return Some((number, None, tag_length + 4));
        }
        if wire_type != 0 && wire_type != 2 {
            return None;
        }
        proof {
            lemma_varint_length(rest@, 0);
        }
        let (value, n) = match Self::read_varint(rest) {
            Some(v) => v,
            None => {
                return None;
            },
        };
        if wire_type == 0 {
            return Some((number, None, tag_length + n));
        }
        let ghost body = after(rest@, n as nat);
        let left: usize = rest.len() - n;
        assert(body.len() == left);
        if value > left as u64 {
            return None;
        }
        let size: usize = value as usize;
        let from: usize = tag_length + n;
        assert(body.take(size as int) == blob@.subrange(from as int, from + size));
        Some((number, Some((from, from + size)), from + size))
    }

    /// The content of the first length-delimited field with the number `target`.
    pub fn get_proto_field(blob: &[u8], target: u64) -> (r: Option<Vec<u8>>)
        ensures
            match r {
                Some(bytes) => proto_field(blob@, target) == Some(bytes@),
                None => proto_field(blob@, target) is None,
            },
    {
        let mut rest = blob;
        while rest.len() > 0
            invariant
                proto_field(blob@, target) == proto_field(rest@, target),
            decreases rest@.len(),
        {
            match Self::read_field(rest) {
                None => {
                    return None;
                },
                Some((number, range, length)) => {
                    if let Some((from, to)) = range {
                        if number == target {
                            return Some(slice_to_vec(slice_subrange(rest, from, to)));
                        }
                    }
                    if length >= rest.len() {
                        assert(after(rest@, length as nat) == Seq::<u8>::empty());
                        assert(proto_field(Seq::<u8>::empty(), target) is None);
                        return None;
                    }
                    assert(after(rest@, length as nat) == rest@.subrange(
                        length as int,
                        rest@.len() as int,
                    ));
                    rest = slice_subrange(rest, length, rest.len());
                },
            }
        }
        None
    }

    /// The text of the first length-delimited field with the number `target`.
    pub fn get_proto_text(blob: &[u8], target: u64) -> (r: Option<String>)
        ensures
            crate::text::opt_text(r) == proto_text(blob@, target),
    {
        match Self::get_proto_field(blob, target) {
            Some(bytes) => string_from_utf8(bytes),
            None => None,
        }
    }

    /// The text of a step payload: top-level field 20, a sub-message, and in it field 1,
    /// a string.
    pub fn extract_text_from_step_payload(blob: &[u8]) -> (r: Option<String>)
        ensures
            crate::text::opt_text(r) == step_text(blob@),
    {
        match Self::get_proto_field(blob, 20) {
            Some(inner) => Self::get_proto_text(inner.as_slice(), 1),
            None => None,
        }
    }

    /// Whether a step of this type is a tool call.
    pub fn is_tool_step_type(step_type: i64) -> (r: bool)
        ensures
            r == tool_step_type(step_type),
    {
        matches!(step_type, 5 | 7 | 8 | 9 | 17 | 21 | 33 | 101 | 138)
    }
}

} // verus!
