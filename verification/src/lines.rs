//! Splitting text into lines.
//!
//! A line ends at a line feed, or at the end of the text. The line feed is not
//! part of the line, and neither is a carriage return that stands directly in
//! front of it. A carriage return anywhere else is an ordinary character. Text
//! that ends with a line feed has no extra, empty line after it.
//!
//! The model speaks of characters; the code cuts the text at byte positions.
//! The lemmas in the middle of this file connect the two through the UTF-8
//! encoding.

use vstd::prelude::*;
use vstd::string::StringSliceAdditionalSpecFns;
use vstd::utf8::*;

verus! {

/// The number of characters in front of the first line feed; the length of the
/// text where it has none.
pub open spec fn line_end(text: Seq<char>) -> int
    decreases text.len(),
{
    if text.len() == 0 || text[0] == '\n' {
        0
    } else {
        1 + line_end(text.drop_first())
    }
}

/// The first line of the text, without its line ending.
pub open spec fn first_line(text: Seq<char>) -> Seq<char> {
    let end = line_end(text);
    if 0 < end < text.len() && text[end - 1] == '\r' {
        text.subrange(0, end - 1)
    } else {
        text.subrange(0, end)
    }
}

/// What follows the first line and its line feed.
pub open spec fn after_first_line(text: Seq<char>) -> Seq<char> {
    if 0 <= line_end(text) < text.len() {
        text.subrange(line_end(text) + 1, text.len() as int)
    } else {
        Seq::empty()
    }
}

/// The lines of the text, in order.
pub open spec fn lines_of(text: Seq<char>) -> Seq<Seq<char>>
    decreases text.len(),
{
    if text.len() == 0 {
        Seq::empty()
    } else {
        seq![first_line(text)] + lines_of(after_first_line(text))
    }
}

/// `line_end` is the position of the first line feed.
pub proof fn lemma_line_end(text: Seq<char>)
    ensures
        0 <= line_end(text) <= text.len(),
        forall|i: int| 0 <= i < line_end(text) ==> text[i] != '\n',
        line_end(text) < text.len() ==> text[line_end(text)] == '\n',
    decreases text.len(),
{
    if text.len() == 0 || text[0] == '\n' {
    } else {
        let tail = text.drop_first();
        lemma_line_end(tail);
        assert forall|i: int| 0 <= i < line_end(text) implies text[i] != '\n' by {
            if i > 0 {
                assert(text[i] == tail[i - 1]);
            }
        }
    }
}

/// Encoding a text piece by piece gives the same bytes as encoding it whole.
proof fn lemma_encode_concat(a: Seq<char>, b: Seq<char>)
    ensures
        encode_utf8(a + b) == encode_utf8(a) + encode_utf8(b),
    decreases a.len(),
{
    if a.len() > 0 {
        assert((a + b).drop_first() =~= a.drop_first() + b);
        lemma_encode_concat(a.drop_first(), b);
    }
}

/// The encoding of a single character is that of its scalar value.
proof fn lemma_encode_single(c: char)
    ensures
        encode_utf8(seq![c]) == encode_scalar(c as u32),
        encode_scalar(c as u32).len() >= 1,
{
    let one = seq![c];
    assert(one.drop_first() =~= Seq::<char>::empty());
    assert(encode_utf8(Seq::<char>::empty()) =~= Seq::<u8>::empty());
}

/// A byte below 0x80 occurs in the encoding of a character only as the whole
/// encoding of the character with that very value.
proof fn lemma_ascii_byte_of_scalar(c: char, k: int)
    requires
        0 <= k < encode_scalar(c as u32).len(),
        encode_scalar(c as u32)[k] < 0x80,
    ensures
        encode_scalar(c as u32).len() == 1,
        c as u32 == encode_scalar(c as u32)[0] as u32,
{
    let bytes = encode_scalar(c as u32);
    encode_utf8_first_scalar(seq![c]);
    if is_leading_byte_width_1(bytes[0]) {
        let b = bytes[0];
        assert((b & 0x7F) as u32 == b as u32) by (bit_vector)
            requires
                b <= 0x7F,
        ;
    }
}

/// An ASCII character is encoded as the one byte of its value.
proof fn lemma_encode_ascii(c: char)
    requires
        (c as u32) < 0x80,
    ensures
        encode_scalar(c as u32) == seq![c as u8],
{
    let s = c as u32;
    assert((s & 0x7F) as u8 == s as u8) by (bit_vector)
        requires
            s < 0x80,
    ;
}

/// Text without a given ASCII character has no byte of that value in its
/// encoding.
proof fn lemma_mark_absent(text: Seq<char>, mark: char, j: int)
    requires
        (mark as u32) < 0x80,
        forall|i: int| 0 <= i < text.len() ==> text[i] != mark,
        0 <= j < encode_utf8(text).len(),
    ensures
        encode_utf8(text)[j] != mark as u8,
    decreases text.len(),
{
    let head = encode_scalar(text[0] as u32);
    let tail = text.drop_first();
    if j < head.len() {
        if head[j] == mark as u8 {
            lemma_ascii_byte_of_scalar(text[0], j);
            char_u32_cast(text[0], mark as u32);
        }
    } else {
        lemma_mark_absent(tail, mark, j - head.len());
    }
}

/// Where the bytes of a text have their first line feed, the characters have
/// theirs: the bytes in front of it encode the characters in front of it, and
/// the bytes from it on encode the characters from it on.
proof fn lemma_line_end_in_bytes(text: Seq<char>, p: int)
    requires
        0 <= p <= encode_utf8(text).len(),
        forall|j: int| 0 <= j < p ==> encode_utf8(text)[j] != 0x0A,
        p < encode_utf8(text).len() ==> encode_utf8(text)[p] == 0x0A,
    ensures
        0 <= line_end(text) <= text.len(),
        encode_utf8(text.subrange(0, line_end(text))) == encode_utf8(text).subrange(0, p),
        encode_utf8(text.subrange(line_end(text), text.len() as int)) == encode_utf8(
            text,
        ).subrange(p, encode_utf8(text).len() as int),
        (p < encode_utf8(text).len()) == (line_end(text) < text.len()),
{
    lemma_line_end(text);
    let end = line_end(text);
    let front = text.subrange(0, end);
    let back = text.subrange(end, text.len() as int);
    let bytes = encode_utf8(text);
    assert(text =~= front + back);
    lemma_encode_concat(front, back);
    let cut = encode_utf8(front).len() as int;
    if back.len() > 0 {
        lemma_encode_ascii('\n');
        assert(bytes[cut] == 0x0A);
    }
    if p < cut {
        lemma_mark_absent(front, '\n', p);
    }
}

/// The bytes of a text end in a carriage return exactly when the text does,
/// and the bytes in front of it then encode the characters in front of it.
proof fn lemma_trailing_return(text: Seq<char>)
    requires
        text.len() > 0,
    ensures
        encode_utf8(text).len() > 0,
        (encode_utf8(text).last() == 0x0D) == (text.last() == '\r'),
        text.last() == '\r' ==> encode_utf8(text.drop_last()) == encode_utf8(text).drop_last(),
{
    let front = text.drop_last();
    let c = text.last();
    let tail = encode_scalar(c as u32);
    assert(text =~= front + seq![c]);
    lemma_encode_concat(front, seq![c]);
    lemma_encode_single(c);
    if tail.last() == 0x0D {
        lemma_ascii_byte_of_scalar(c, tail.len() - 1);
        char_u32_cast(c, '\r' as u32);
    }
    if c == '\r' {
        lemma_encode_ascii(c);
    }
}

/// Pieces of text with the same bytes are the same text.
proof fn lemma_same_bytes(a: Seq<char>, b: Seq<char>)
    requires
        encode_utf8(a) == encode_utf8(b),
    ensures
        a == b,
{
    encode_utf8_decode_utf8(a);
    encode_utf8_decode_utf8(b);
}

/// The byte after a leading line feed starts a character.
proof fn lemma_boundary_after_line_feed(text: Seq<char>)
    requires
        text.len() > 0,
        text[0] == '\n',
    ensures
        is_char_boundary(encode_utf8(text), 1),
        encode_utf8(text).subrange(1, encode_utf8(text).len() as int) == encode_utf8(
            text.drop_first(),
        ),
{
    encode_utf8_valid_utf8(text);
    encode_utf8_valid_utf8(text.drop_first());
    reveal_with_fuel(is_char_boundary, 2);
}

/// Cuts the first line off a text: gives the line, without its ending, and
/// what follows it.
pub fn split_first_line<'a>(text: &'a str) -> (r: (&'a str, &'a str))
    ensures
        r.0@ == first_line(text@),
        r.1@ == after_first_line(text@),
{
    let bytes = text.as_bytes();
    let n: usize = bytes.len();
    let mut p: usize = 0;
    while p < n && bytes[p] != 0x0A
        invariant
            p <= n,
            n == bytes@.len(),
            forall|j: int| 0 <= j < p ==> bytes@[j] != 0x0A,
        decreases n - p,
    {
        p = p + 1;
    }
    let ghost end = line_end(text@);
    proof {
        lemma_line_end_in_bytes(text@, p as int);
        encode_utf8_valid_utf8(text@);
        if p < n {
            is_char_boundary_iff_not_is_continuation_byte(text.spec_bytes(), p as int);
        } else {
            is_char_boundary_start_end_of_seq(text.spec_bytes());
        }
    }
    let (raw, tail) = text.split_at(p);
    proof {
        lemma_same_bytes(raw@, text@.subrange(0, end));
        lemma_same_bytes(tail@, text@.subrange(end, text@.len() as int));
    }
    if p == n {
        return (raw, tail);
    }
    proof {
        lemma_line_end(text@);
        lemma_boundary_after_line_feed(tail@);
    }
    let (_, rest) = tail.split_at(1);
    proof {
        lemma_same_bytes(rest@, tail@.drop_first());
    }
    if p > 0 && bytes[p - 1] == 0x0D {
        proof {
            lemma_trailing_return(raw@);
            encode_utf8_valid_utf8(raw@);
            is_char_boundary_iff_not_is_continuation_byte(raw.spec_bytes(), p - 1);
        }
        let (line, _) = raw.split_at(p - 1);
        proof {
            lemma_same_bytes(line@, raw@.drop_last());
        }
        (line, rest)
    } else {
        proof {
            if end > 0 {
                lemma_trailing_return(raw@);
            }
        }
        (raw, rest)
    }
}

/// Splits a text into its lines.
pub fn lines<'a>(text: &'a str) -> (r: Vec<&'a str>)
    ensures
        r@.len() == lines_of(text@).len(),
        forall|i: int| 0 <= i < r@.len() ==> (#[trigger] r@[i])@ == lines_of(text@)[i],
{
    let mut found: Vec<&'a str> = Vec::new();
    let mut rest: &'a str = text;
    let ghost done: Seq<Seq<char>> = Seq::empty();
    while !rest.is_empty()
        invariant
            lines_of(text@) == done + lines_of(rest@),
            found@.len() == done.len(),
            forall|i: int| 0 <= i < found@.len() ==> (#[trigger] found@[i])@ == done[i],
        decreases rest@.len(),
    {
        let (line, tail) = split_first_line(rest);
        proof {
            done = done.push(line@);
        }
        found.push(line);
        rest = tail;
    }
    found
}

} // verus!
