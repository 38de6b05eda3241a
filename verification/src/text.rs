//! Byte-level helpers for source text: comparing strings and cutting them at
//! positions that are known to lie between characters.

use vstd::prelude::*;
use vstd::string::StringSliceAdditionalSpecFns;
use vstd::utf8::{
    decode_utf8, encode_utf8, encode_utf8_decode_utf8, encode_utf8_valid_utf8, is_char_boundary,
    is_char_boundary_iff_not_is_continuation_byte, is_char_boundary_start_end_of_seq,
    is_continuation_byte, is_leading_byte_width_1, pop_first_scalar, valid_utf8, valid_utf8_split,
};

verus! {

/// Two texts with the same bytes are the same text.
pub proof fn lemma_bytes_determine_text(a: Seq<char>, b: Seq<char>)
    requires
        encode_utf8(a) == encode_utf8(b),
    ensures
        a == b,
{
    encode_utf8_decode_utf8(a);
    encode_utf8_decode_utf8(b);
}

/// Whether two byte slices hold the same bytes.
pub fn bytes_eq(a: &[u8], b: &[u8]) -> (same: bool)
    ensures
        same == (a@ == b@),
{
    if a.len() != b.len() {
        return false;
    }
    let mut i: usize = 0;
    while i < a.len()
        invariant
            i <= a.len(),
            a.len() == b.len(),
            a@.subrange(0, i as int) == b@.subrange(0, i as int),
        decreases a.len() - i,
    {
        if a[i] != b[i] {
            return false;
        }
        assert(a@.subrange(0, i + 1) == a@.subrange(0, i as int).push(a@[i as int]));
        assert(b@.subrange(0, i + 1) == b@.subrange(0, i as int).push(b@[i as int]));
        i = i + 1;
    }
    assert(a@ == a@.subrange(0, a.len() as int));
    assert(b@ == b@.subrange(0, b.len() as int));
    true
}

/// Whether two strings are the same text.
pub fn str_eq(a: &str, b: &str) -> (same: bool)
    ensures
        same == (a@ == b@),
        same == (a.spec_bytes() == b.spec_bytes()),
{
    proof {
        if a.spec_bytes() == b.spec_bytes() {
            lemma_bytes_determine_text(a@, b@);
        }
    }
    bytes_eq(a.as_bytes(), b.as_bytes())
}

/// A position in a text is a boundary between characters when it is an end
/// of the text or when the byte before it or at it is an ASCII byte.
pub proof fn lemma_ascii_boundary(bytes: Seq<u8>, index: int)
    requires
        valid_utf8(bytes),
        0 <= index <= bytes.len(),
        index == 0 || index == bytes.len() || bytes[index] < 0x80 || bytes[index - 1] < 0x80,
    ensures
        is_char_boundary(bytes, index),
{
    is_char_boundary_start_end_of_seq(bytes);
    if 0 < index < bytes.len() {
        if bytes[index] < 0x80 {
            lemma_ascii_not_continuation(bytes[index]);
            is_char_boundary_iff_not_is_continuation_byte(bytes, index);
        } else {
            let before = index - 1;
            lemma_ascii_not_continuation(bytes[before]);
            is_char_boundary_iff_not_is_continuation_byte(bytes, before);
            valid_utf8_split(bytes, before);
            let tail = bytes.subrange(before, bytes.len() as int);
            assert(tail[0] == bytes[before]);
            assert(tail[1] == bytes[index]);
            lemma_ascii_leads_one(tail[0]);
            reveal_with_fuel(is_char_boundary, 2);
            assert(is_char_boundary(tail, 1));
            is_char_boundary_iff_not_is_continuation_byte(tail, 1);
            is_char_boundary_iff_not_is_continuation_byte(bytes, index);
        }
    }
}

proof fn lemma_ascii_not_continuation(byte: u8)
    requires
        byte < 0x80,
    ensures
        !is_continuation_byte(byte),
{
    assert(byte < 0x80 ==> byte & 0xC0 != 0x80) by (bit_vector);
}

proof fn lemma_ascii_leads_one(byte: u8)
    requires
        byte < 0x80,
    ensures
        is_leading_byte_width_1(byte),
{
    assert(byte < 0x80 ==> byte & 0x80 == 0) by (bit_vector);
}

/// The part of `text` from byte `from` up to byte `to`.
pub fn slice<'a>(text: &'a str, from: usize, to: usize) -> (part: &'a str)
    requires
        from <= to <= text.spec_bytes().len(),
        is_char_boundary(text.spec_bytes(), from as int),
        is_char_boundary(text.spec_bytes(), to as int),
    ensures
        part.spec_bytes() == text.spec_bytes().subrange(from as int, to as int),
{
    proof {
        encode_utf8_valid_utf8(text@);
    }
    let (head, _) = text.split_at(to);
    proof {
        encode_utf8_valid_utf8(head@);
        assert(head.spec_bytes().len() == to);
        lemma_boundary_in_prefix(text.spec_bytes(), from as int, to as int);
    }
    let (_, part) = head.split_at(from);
    assert(part.spec_bytes() == text.spec_bytes().subrange(from as int, to as int));
    part
}

/// A boundary of a text is a boundary of each prefix that reaches it.
proof fn lemma_boundary_in_prefix(bytes: Seq<u8>, index: int, end: int)
    requires
        valid_utf8(bytes),
        0 <= index <= end <= bytes.len(),
        is_char_boundary(bytes, index),
        is_char_boundary(bytes, end),
    ensures
        is_char_boundary(bytes.subrange(0, end), index),
{
    let prefix = bytes.subrange(0, end);
    valid_utf8_split(bytes, end);
    is_char_boundary_start_end_of_seq(prefix);
    if 0 < index < end {
        is_char_boundary_iff_not_is_continuation_byte(bytes, index);
        is_char_boundary_iff_not_is_continuation_byte(prefix, index);
    }
}

/// `String::push`: the character is added at the end of the text.
#[verifier::external_body]
pub(crate) fn push_char(text: &mut String, c: char)
    ensures
        final(text)@ == old(text)@.push(c),
{
    text.push(c)
}

/// The position of the first line feed from `from` on, or the text's
/// length where there is none.
pub open spec fn line_end(code: Seq<u8>, from: int) -> int
    decreases code.len() - from,
{
    if from >= code.len() {
        code.len() as int
    } else if code[from] == 0x0A {
        from
    } else {
        line_end(code, from + 1)
    }
}

/// Where the text of the line that begins at `from` ends: before its line
/// feed, and before a carriage return that stands right before that.
pub open spec fn line_stop(code: Seq<u8>, from: int) -> int {
    let end = line_end(code, from);
    if end > from && code[end - 1] == 0x0D {
        end - 1
    } else {
        end
    }
}

/// A line ends within the text, at a line feed or at the text's end, and
/// its own text ends there or at the carriage return before.
pub proof fn lemma_line_end(code: Seq<u8>, from: int)
    requires
        0 <= from <= code.len(),
    ensures
        from <= line_stop(code, from) <= line_end(code, from) <= code.len(),
        line_end(code, from) < code.len() ==> code[line_end(code, from)] == 0x0A,
        line_stop(code, from) < line_end(code, from) ==> code[line_stop(code, from)] == 0x0D,
    decreases code.len() - from,
{
    if from < code.len() && code[from] != 0x0A {
        lemma_line_end(code, from + 1);
    }
}

/// The position of the first line feed from `from` on, or the text's
/// length.
pub fn find_line_end(bytes: &[u8], from: usize) -> (end: usize)
    requires
        from <= bytes@.len(),
    ensures
        end == line_end(bytes@, from as int),
        from <= end <= bytes@.len(),
{
    let mut at: usize = from;
    while at < bytes.len() && bytes[at] != 0x0A
        invariant
            from <= at <= bytes@.len(),
            line_end(bytes@, at as int) == line_end(bytes@, from as int),
        decreases bytes@.len() - at,
    {
        at = at + 1;
    }
    at
}

/// The text after its first byte, where that byte is an ASCII character.
pub fn after_first<'a>(text: &'a str) -> (rest: &'a str)
    requires
        text.spec_bytes().len() > 0,
        text.spec_bytes()[0] < 0x80,
    ensures
        rest@ == text@.skip(1),
        rest.spec_bytes() == text.spec_bytes().skip(1),
{
    let ghost bytes = text.spec_bytes();
    proof {
        encode_utf8_valid_utf8(text@);
        lemma_ascii_boundary(bytes, 1);
        lemma_ascii_boundary(bytes, bytes.len() as int);
    }
    let rest = slice(text, 1, text.as_bytes().len());
    proof {
        lemma_ascii_leads_one(bytes[0]);
        assert(vstd::utf8::length_of_first_scalar(bytes) == 1);
        assert(pop_first_scalar(bytes) =~= rest.spec_bytes());
        encode_utf8_decode_utf8(text@);
        encode_utf8_decode_utf8(rest@);
        assert(decode_utf8(bytes) == seq![vstd::utf8::decode_first_scalar(bytes) as char]
            + decode_utf8(rest.spec_bytes()));
        assert(text@.skip(1) =~= rest@);
    }
    rest
}

} // verus!
