//! Text helpers shared by the boundary and the renderers: lossy UTF-8 decoding,
//! trimming, splitting into lines, and decimal formatting of dimensions.

use vstd::prelude::*;
use vstd::string::StringSliceAdditionalSpecFns;
use vstd::utf8::*;
use crate::std_api::{from_utf8_lossy, replaced_text};

verus! {

/// The byte that encodes a dot.
pub const DOT: u8 = 0x2E;

/// The byte that encodes a line feed.
pub const LINE_FEED: u8 = 0x0A;

/// The text a byte sequence decodes to: its UTF-8 reading when it has one, and the
/// replacement reading otherwise.
pub open spec fn decoded_text(bytes: Seq<u8>) -> Seq<char> {
    if valid_utf8(bytes) {
        decode_utf8(bytes)
    } else {
        replaced_text(bytes)
    }
}

/// `text` with every leading occurrence of `c` removed.
pub open spec fn without_leading(text: Seq<char>, c: char) -> Seq<char>
    decreases text.len(),
{
    if text.len() > 0 && text[0] == c {
        without_leading(text.drop_first(), c)
    } else {
        text
    }
}

/// `text` with every trailing occurrence of `c` removed.
pub open spec fn without_trailing(text: Seq<char>, c: char) -> Seq<char>
    decreases text.len(),
{
    if text.len() > 0 && text.last() == c {
        without_trailing(text.drop_last(), c)
    } else {
        text
    }
}

/// `text` with `c` stripped from both ends.
pub open spec fn trimmed(text: Seq<char>, c: char) -> Seq<char> {
    without_trailing(without_leading(text, c), c)
}

/// The length of the first line of `text`, its line feed included; the whole
/// length where `text` holds no line feed.
pub open spec fn first_line_len(text: Seq<char>) -> int
    decreases text.len(),
{
    if text.len() == 0 {
        0
    } else if text[0] == '\n' {
        1
    } else {
        1 + first_line_len(text.drop_first())
    }
}

/// `text` cut after each line feed, the line feeds kept.
pub open spec fn text_lines(text: Seq<char>) -> Seq<Seq<char>>
    decreases text.len(),
    via text_lines_decreases
{
    if text.len() == 0 {
        Seq::empty()
    } else {
        seq![text.take(first_line_len(text))] + text_lines(text.skip(first_line_len(text)))
    }
}

#[via_fn]
proof fn text_lines_decreases(text: Seq<char>) {
    if text.len() != 0 {
        lemma_first_line_len_bounds(text);
    }
}

/// The ASCII digit for a value below ten.
pub open spec fn digit_byte(d: nat) -> u8
    recommends
        d < 10,
{
    (48 + d) as u8
}

/// The decimal representation of `n` as ASCII digits, most significant first,
/// without sign or padding.
pub open spec fn decimal_digits(n: nat) -> Seq<u8>
    decreases n,
{
    if n < 10 {
        seq![digit_byte(n)]
    } else {
        decimal_digits(n / 10).push(digit_byte(n % 10))
    }
}

/// Decodes bytes as text, replacing whatever is not valid UTF-8. Never fails.
pub fn decode_bytes(bytes: &[u8]) -> (text: String)
    ensures
        text@ == decoded_text(bytes@),
        bytes@.len() == 0 ==> text@.len() == 0,
        valid_utf8(bytes@) ==> encode_utf8(text@) == bytes@,
{
    proof {
        lemma_decoded_empty();
        if valid_utf8(bytes@) {
            decode_utf8_encode_utf8(bytes@);
        }
    }
    from_utf8_lossy(bytes)
}

/// The empty byte sequence decodes to the empty text.
pub proof fn lemma_decoded_empty()
    ensures
        decoded_text(Seq::<u8>::empty()) == Seq::<char>::empty(),
{
    reveal_with_fuel(valid_utf8, 1);
    reveal_with_fuel(decode_utf8, 1);
}

/// Decoding is the inverse of UTF-8 encoding: every text survives a trip through
/// its encoded bytes unchanged.
pub proof fn lemma_decode_round_trip(text: Seq<char>)
    ensures
        decoded_text(encode_utf8(text)) == text,
{
    encode_utf8_valid_utf8(text);
    encode_utf8_decode_utf8(text);
}

/// Appends the UTF-8 bytes of `text` to `out`.
pub fn push_text(out: &mut Vec<u8>, text: &str)
    ensures
        final(out)@ == old(out)@ + encode_utf8(text@),
{
    let bytes = text.as_bytes();
    let mut i: usize = 0;
    while i < bytes.len()
        invariant
            i <= bytes.len(),
            bytes@ == encode_utf8(text@),
            out@ == old(out)@ + bytes@.take(i as int),
        decreases bytes.len() - i,
    {
        out.push(bytes[i]);
        proof {
            assert(bytes@.take(i + 1) =~= bytes@.take(i as int).push(bytes@[i as int]));
        }
        i += 1;
    }
    proof {
        assert(bytes@.take(i as int) =~= bytes@);
    }
}

/// Strips every dot from both ends of `text`.
pub fn trim_dots(text: &str) -> (rest: &str)
    ensures
        rest@ == trimmed(text@, '.'),
{
    let bytes = text.as_bytes();
    let size = bytes.len();
    proof {
        encode_utf8_valid_utf8(text@);
        encode_utf8_decode_utf8(text@);
        is_char_boundary_start_end_of_seq(bytes@);
        assert(bytes@.skip(0) =~= bytes@);
    }
    let mut start: usize = 0;
    while start < size && bytes[start] == DOT
        invariant
            start <= size,
            size == bytes@.len(),
            valid_utf8(bytes@),
            valid_utf8(bytes@.skip(start as int)),
            is_char_boundary(bytes@, start as int),
            without_leading(text@, '.') == without_leading(
                decode_utf8(bytes@.skip(start as int)),
                '.',
            ),
        decreases size - start,
    {
        proof {
            let here = bytes@.skip(start as int);
            let next = bytes@.skip(start + 1);
            lemma_decode_leading_dot(here);
            assert(here.skip(1) =~= next);
            assert(decode_utf8(here).drop_first() =~= decode_utf8(next));
            lemma_boundary_where_rest_is_valid(bytes@, start + 1);
        }
        start += 1;
    }
    proof {
        let here = bytes@.skip(start as int);
        if here.len() > 0 {
            lemma_leading_dot_shows_in_bytes(here);
        } else {
            reveal_with_fuel(decode_utf8, 1);
        }
        assert(bytes@.skip(start as int) =~= bytes@.subrange(start as int, size as int));
    }
    let mut end: usize = size;
    while end > start && bytes[end - 1] == DOT
        invariant
            start <= end <= size,
            size == bytes@.len(),
            valid_utf8(bytes@),
            valid_utf8(bytes@.subrange(start as int, end as int)),
            is_char_boundary(bytes@, end as int),
            trimmed(text@, '.') == without_trailing(
                decode_utf8(bytes@.subrange(start as int, end as int)),
                '.',
            ),
        decreases end,
    {
        proof {
            let here = bytes@.subrange(start as int, end as int);
            lemma_decode_trailing_dot(here);
            assert(here.drop_last() =~= bytes@.subrange(start as int, end - 1));
            assert(decode_utf8(here).drop_last() =~= decode_utf8(here.drop_last()));
            is_char_boundary_iff_not_is_continuation_byte(bytes@, end - 1);
        }
        end -= 1;
    }
    proof {
        let here = bytes@.subrange(start as int, end as int);
        if here.len() > 0 {
            lemma_trailing_dot_shows_in_bytes(here);
        } else {
            reveal_with_fuel(decode_utf8, 1);
        }
    }
    let (_, tail) = text.split_at(start);
    proof {
        assert(tail.spec_bytes() =~= bytes@.skip(start as int));
        encode_utf8_valid_utf8(tail@);
        if end < size {
            is_char_boundary_iff_not_is_continuation_byte(bytes@, end as int);
            is_char_boundary_iff_not_is_continuation_byte(tail.spec_bytes(), end - start);
        } else {
            is_char_boundary_start_end_of_seq(tail.spec_bytes());
        }
    }
    let (middle, _) = tail.split_at(end - start);
    proof {
        assert(middle.spec_bytes() =~= bytes@.subrange(start as int, end as int));
        encode_utf8_decode_utf8(middle@);
    }
    middle
}

/// Cuts `text` after each line feed. The lines keep their line feeds, none is
/// empty, and only the last can end without one.
pub fn split_lines<'a>(text: &'a str) -> (lines: Vec<&'a str>)
    ensures
        lines@.map_values(|line: &str| line@) == text_lines(text@),
{
    let mut lines: Vec<&'a str> = Vec::new();
    let mut rest: &'a str = text;
    proof {
        assert(lines@.map_values(|line: &str| line@) =~= Seq::<Seq<char>>::empty());
    }
    while !rest.is_empty()
        invariant
            text_lines(text@) == lines@.map_values(|line: &str| line@) + text_lines(rest@),
        decreases rest.spec_bytes().len(),
    {
        let bytes = rest.as_bytes();
        let size = bytes.len();
        proof {
            assert(encode_scalar(rest@[0] as u32).len() > 0);
            assert(size > 0);
        }
        let mut found: usize = 0;
        while found < size && bytes[found] != LINE_FEED
            invariant
                found <= size,
                size == bytes@.len(),
                forall|j: int| 0 <= j < found ==> bytes@[j] != LINE_FEED,
            decreases size - found,
        {
            found += 1;
        }
        let cut: usize = if found < size {
            found + 1
        } else {
            size
        };
        proof {
            encode_utf8_valid_utf8(rest@);
            encode_utf8_decode_utf8(rest@);
            if found < size {
                lemma_first_line_ends_after_line_feed(bytes@, found as int);
            } else {
                lemma_one_line_without_line_feed(bytes@);
                is_char_boundary_start_end_of_seq(bytes@);
                assert(bytes@.subrange(0, cut as int) =~= bytes@);
            }
            decode_utf8_split(bytes@, cut as int);
            lemma_first_character(bytes@);
        }
        let (line, tail) = rest.split_at(cut);
        proof {
            let before = lines@.map_values(|line: &str| line@);
            let length = first_line_len(rest@);
            encode_utf8_decode_utf8(line@);
            encode_utf8_decode_utf8(tail@);
            assert(line.spec_bytes() =~= bytes@.subrange(0, cut as int));
            assert(tail.spec_bytes() =~= bytes@.subrange(cut as int, size as int));
            assert(rest@.take(length) =~= line@);
            assert(rest@.skip(length) =~= tail@);
            assert(text_lines(rest@) == seq![line@] + text_lines(tail@));
            assert(lines@.push(line).map_values(|line: &str| line@) =~= before.push(line@));
            assert(before.push(line@) + text_lines(tail@) =~= before + text_lines(rest@));
        }
        lines.push(line);
        rest = tail;
    }
    proof {
        assert(rest@ =~= Seq::<char>::empty());
        assert(lines@.map_values(|line: &str| line@) + text_lines(rest@) =~= lines@.map_values(
            |line: &str| line@,
        ));
    }
    lines
}

/// Appends the decimal representation of `n` to `out`.
pub fn push_decimal(out: &mut Vec<u8>, n: u32)
    ensures
        final(out)@ == old(out)@ + decimal_digits(n as nat),
    decreases n,
{
    if n >= 10 {
        push_decimal(out, n / 10);
    }
    out.push(48 + (n % 10) as u8);
}

/// A text that is not empty has a first line of at least one character, and no
/// first line is longer than its text.
pub proof fn lemma_first_line_len_bounds(text: Seq<char>)
    ensures
        0 <= first_line_len(text) <= text.len(),
        text.len() > 0 ==> first_line_len(text) >= 1,
    decreases text.len(),
{
    if text.len() > 0 && text[0] != '\n' {
        lemma_first_line_len_bounds(text.drop_first());
    }
}

/// The first line of a text holds no line feed before its last character, and
/// ends with one unless it is the whole text.
pub proof fn lemma_first_line_ends_at_line_feed(text: Seq<char>)
    ensures
        forall|i: int| 0 <= i < first_line_len(text) - 1 ==> text[i] != '\n',
        first_line_len(text) < text.len() ==> text[first_line_len(text) - 1] == '\n',
    decreases text.len(),
{
    lemma_first_line_len_bounds(text);
    if text.len() > 0 && text[0] != '\n' {
        let rest = text.drop_first();
        lemma_first_line_ends_at_line_feed(rest);
        lemma_first_line_len_bounds(rest);
        assert forall|i: int| 0 <= i < first_line_len(text) - 1 implies text[i] != '\n' by {
            if i > 0 {
                assert(text[i] == rest[i - 1]);
            }
        }
        if first_line_len(text) < text.len() {
            assert(text[first_line_len(text) - 1] == rest[first_line_len(rest) - 1]);
        }
    }
}

/// Splitting loses nothing and invents nothing: no line is empty, and the lines
/// put one after the other are the text.
pub proof fn lemma_text_lines_rejoin(text: Seq<char>)
    ensures
        text_lines(text).flatten() == text,
        forall|i: int|
            0 <= i < text_lines(text).len() ==> (#[trigger] text_lines(text)[i]).len() > 0,
    decreases text.len(),
{
    if text.len() > 0 {
        lemma_first_line_len_bounds(text);
        let cut = first_line_len(text);
        let head = text.take(cut);
        let tail = text_lines(text.skip(cut));
        lemma_text_lines_rejoin(text.skip(cut));
        let lines = text_lines(text);
        assert(lines == seq![head] + tail);
        assert(lines.first() == head);
        assert(lines.drop_first() =~= tail);
        assert(lines.flatten() =~= head + tail.flatten());
        assert(head + text.skip(cut) =~= text);
        assert forall|i: int| 0 <= i < lines.len() implies (#[trigger] lines[i]).len() > 0 by {
            if i > 0 {
                assert(lines[i] == tail[i - 1]);
            }
        }
    } else {
        assert(text_lines(text).flatten() =~= text);
    }
}

/// A dot is encoded as the single byte `0x2E`.
proof fn lemma_dot_is_one_byte()
    ensures
        encode_scalar('.' as u32) == seq![DOT],
        !is_continuation_byte(DOT),
        is_leading_byte_width_1(DOT),
        codepoint_width_1(DOT) == '.' as u32,
{
    assert('.' as u32 == 0x2E);
    assert(0x2Eu32 & 0x7F == 0x2E) by (bit_vector);
    assert(0x2Eu8 & 0x7F == 0x2E) by (bit_vector);
}

/// Valid UTF-8 that starts with the dot byte decodes to a dot followed by what
/// the remaining bytes decode to.
proof fn lemma_decode_leading_dot(bytes: Seq<u8>)
    requires
        valid_utf8(bytes),
        bytes.len() > 0,
        bytes[0] == DOT,
    ensures
        valid_utf8(bytes.skip(1)),
        decode_utf8(bytes) == seq!['.'] + decode_utf8(bytes.skip(1)),
{
    lemma_dot_is_one_byte();
    reveal_with_fuel(valid_utf8, 1);
    reveal_with_fuel(decode_utf8, 1);
    assert(pop_first_scalar(bytes) =~= bytes.skip(1));
    assert(decode_first_scalar(bytes) == '.' as u32);
}

/// Valid UTF-8 whose text starts with a dot starts with the dot byte.
proof fn lemma_leading_dot_shows_in_bytes(bytes: Seq<u8>)
    requires
        valid_utf8(bytes),
        bytes.len() > 0,
    ensures
        decode_utf8(bytes).len() > 0,
        decode_utf8(bytes)[0] == '.' ==> bytes[0] == DOT,
{
    lemma_dot_is_one_byte();
    reveal_with_fuel(decode_utf8, 1);
    reveal_with_fuel(valid_utf8, 1);
    decode_utf8_first_scalar(bytes);
    if decode_utf8(bytes)[0] == '.' {
        assert(take_first_scalar(bytes) == seq![DOT]);
        assert(take_first_scalar(bytes)[0] == bytes[0]);
    }
}

/// A line feed is encoded as the single byte `0x0A`.
proof fn lemma_line_feed_is_one_byte()
    ensures
        encode_scalar('\n' as u32) == seq![LINE_FEED],
        !is_continuation_byte(LINE_FEED),
        is_leading_byte_width_1(LINE_FEED),
        codepoint_width_1(LINE_FEED) == '\n' as u32,
{
    assert('\n' as u32 == 0x0A);
    assert(0x0Au32 & 0x7F == 0x0A) by (bit_vector);
    assert(0x0Au8 & 0x7F == 0x0A) by (bit_vector);
}

/// What the first character of valid UTF-8 has to do with its first byte: the
/// text is that character followed by what the bytes after its encoding decode
/// to, and the character is a line feed exactly where the byte is.
proof fn lemma_first_character(bytes: Seq<u8>)
    requires
        valid_utf8(bytes),
        bytes.len() > 0,
    ensures
        valid_utf8(pop_first_scalar(bytes)),
        decode_utf8(bytes).len() > 0,
        decode_utf8(bytes).drop_first() == decode_utf8(pop_first_scalar(bytes)),
        (decode_utf8(bytes)[0] == '\n') == (bytes[0] == LINE_FEED),
{
    lemma_line_feed_is_one_byte();
    reveal_with_fuel(decode_utf8, 1);
    reveal_with_fuel(valid_utf8, 1);
    decode_utf8_first_scalar(bytes);
    assert(decode_utf8(bytes).drop_first() =~= decode_utf8(pop_first_scalar(bytes)));
    if decode_utf8(bytes)[0] == '\n' {
        assert(take_first_scalar(bytes) == seq![LINE_FEED]);
        assert(take_first_scalar(bytes)[0] == bytes[0]);
    }
    if bytes[0] == LINE_FEED {
        assert(decode_first_scalar(bytes) == '\n' as u32);
    }
}

/// Valid UTF-8 without the line feed byte decodes to a single line.
proof fn lemma_one_line_without_line_feed(bytes: Seq<u8>)
    requires
        valid_utf8(bytes),
        forall|j: int| 0 <= j < bytes.len() ==> bytes[j] != LINE_FEED,
    ensures
        first_line_len(decode_utf8(bytes)) == decode_utf8(bytes).len(),
    decreases bytes.len(),
{
    if bytes.len() == 0 {
        reveal_with_fuel(decode_utf8, 1);
    } else {
        lemma_first_character(bytes);
        let rest = pop_first_scalar(bytes);
        reveal_with_fuel(valid_utf8, 1);
        assert forall|j: int| 0 <= j < rest.len() implies rest[j] != LINE_FEED by {
            assert(rest[j] == bytes[j + length_of_first_scalar(bytes)]);
        }
        lemma_one_line_without_line_feed(rest);
    }
}

/// In valid UTF-8 the first line ends right after the first line feed byte: the
/// bytes up to and including it decode to the first line of the text, and what
/// follows starts a character.
proof fn lemma_first_line_ends_after_line_feed(bytes: Seq<u8>, found: int)
    requires
        valid_utf8(bytes),
        0 <= found < bytes.len(),
        bytes[found] == LINE_FEED,
        forall|j: int| 0 <= j < found ==> bytes[j] != LINE_FEED,
    ensures
        is_char_boundary(bytes, found + 1),
        decode_utf8(bytes.subrange(0, found + 1)).len() == first_line_len(decode_utf8(bytes)),
    decreases bytes.len(),
{
    lemma_line_feed_is_one_byte();
    lemma_first_character(bytes);
    let rest = pop_first_scalar(bytes);
    let width = length_of_first_scalar(bytes);
    let head = bytes.subrange(0, found + 1);
    reveal_with_fuel(valid_utf8, 1);
    reveal_with_fuel(decode_utf8, 1);
    if found == 0 {
        assert(rest =~= bytes.skip(1));
        lemma_boundary_where_rest_is_valid(bytes, 1);
        lemma_decoded_empty();
        assert(pop_first_scalar(head) =~= Seq::<u8>::empty());
        assert(valid_first_scalar(head));
        assert(valid_utf8(head));
        assert(decode_utf8(head).len() == 1);
    } else {
        assert(found >= width);
        assert(rest[found - width] == bytes[found]);
        assert forall|j: int| 0 <= j < found - width implies rest[j] != LINE_FEED by {
            assert(rest[j] == bytes[j + width]);
        }
        lemma_first_line_ends_after_line_feed(rest, found - width);
        valid_utf8_split(rest, found - width + 1);
        assert(bytes.skip(found + 1) =~= rest.subrange(found - width + 1, rest.len() as int));
        lemma_boundary_where_rest_is_valid(bytes, found + 1);
        assert(valid_first_scalar(head));
        assert(pop_first_scalar(head) =~= rest.subrange(0, found - width + 1));
        assert(decode_utf8(head).len() == 1 + decode_utf8(pop_first_scalar(head)).len());
    }
}

/// The encoding of two texts put together is their encodings put together.
proof fn lemma_encode_appends(first: Seq<char>, second: Seq<char>)
    ensures
        encode_utf8(first + second) == encode_utf8(first) + encode_utf8(second),
    decreases first.len(),
{
    if first.len() == 0 {
        assert(first + second =~= second);
        assert(encode_utf8(first) + encode_utf8(second) =~= encode_utf8(second));
    } else {
        lemma_encode_appends(first.drop_first(), second);
        assert((first + second).drop_first() =~= first.drop_first() + second);
        assert(encode_utf8(first + second) =~= encode_utf8(first) + encode_utf8(second));
    }
}

/// Valid UTF-8 that ends with the dot byte decodes to what the bytes before it
/// decode to, followed by a dot.
proof fn lemma_decode_trailing_dot(bytes: Seq<u8>)
    requires
        valid_utf8(bytes),
        bytes.len() > 0,
        bytes.last() == DOT,
    ensures
        valid_utf8(bytes.drop_last()),
        decode_utf8(bytes) == decode_utf8(bytes.drop_last()).push('.'),
{
    lemma_dot_is_one_byte();
    let cut = bytes.len() - 1;
    is_char_boundary_iff_not_is_continuation_byte(bytes, cut);
    valid_utf8_split(bytes, cut);
    decode_utf8_split(bytes, cut);
    let tail = bytes.subrange(cut, bytes.len() as int);
    assert(bytes.subrange(0, cut) =~= bytes.drop_last());
    lemma_decode_leading_dot(tail);
    assert(tail.skip(1) =~= Seq::<u8>::empty());
    reveal_with_fuel(decode_utf8, 1);
    assert(decode_utf8(tail) =~= seq!['.']);
    assert(decode_utf8(bytes) =~= decode_utf8(bytes.drop_last()).push('.'));
}

/// Valid UTF-8 whose text ends with a dot ends with the dot byte.
proof fn lemma_trailing_dot_shows_in_bytes(bytes: Seq<u8>)
    requires
        valid_utf8(bytes),
        bytes.len() > 0,
    ensures
        decode_utf8(bytes).len() > 0,
        decode_utf8(bytes).last() == '.' ==> bytes.last() == DOT,
{
    lemma_dot_is_one_byte();
    lemma_leading_dot_shows_in_bytes(bytes);
    let text = decode_utf8(bytes);
    if text.last() == '.' {
        decode_utf8_encode_utf8(bytes);
        assert(text =~= text.drop_last() + seq!['.']);
        lemma_encode_appends(text.drop_last(), seq!['.']);
        reveal_with_fuel(encode_utf8, 2);
        assert(encode_utf8(seq!['.']) =~= seq![DOT]);
        assert(bytes == encode_utf8(text.drop_last()) + seq![DOT]);
    }
}

/// Where the bytes from `index` on are valid UTF-8 themselves, `index` lies
/// between two characters.
proof fn lemma_boundary_where_rest_is_valid(bytes: Seq<u8>, index: int)
    requires
        valid_utf8(bytes),
        0 <= index <= bytes.len(),
        valid_utf8(bytes.skip(index)),
    ensures
        is_char_boundary(bytes, index),
{
    if index < bytes.len() {
        let rest = bytes.skip(index);
        reveal_with_fuel(valid_utf8, 1);
        assert(valid_first_scalar(rest));
        assert(rest[0] == bytes[index]);
        utf8_byte_ranges_bitwise(bytes[index]);
        assert(!is_continuation_byte(bytes[index]));
        is_char_boundary_iff_not_is_continuation_byte(bytes, index);
    } else {
        is_char_boundary_start_end_of_seq(bytes);
    }
}

/// No byte of the encoding of a scalar other than zero is zero.
proof fn lemma_scalar_bytes_are_not_zero(scalar: u32)
    by (bit_vector)
    requires
        scalar != 0,
        scalar <= 0x10FFFF,
    ensures
        scalar <= 0x7F ==> (scalar & 0x7F) as u8 != 0,
        0xC0 | ((scalar >> 6) & 0x1F) as u8 != 0,
        0xE0 | ((scalar >> 12) & 0x0F) as u8 != 0,
        0xF0 | ((scalar >> 18) & 0x7) as u8 != 0,
        0x80 | (scalar & 0x3F) as u8 != 0,
        0x80 | ((scalar >> 6) & 0x3F) as u8 != 0,
        0x80 | ((scalar >> 12) & 0x3F) as u8 != 0,
{
}

/// The encoding of a text without the character zero holds no zero byte.
pub proof fn lemma_encoding_without_zero(text: Seq<char>)
    requires
        forall|i: int| 0 <= i < text.len() ==> text[i] != '\0',
    ensures
        forall|i: int| 0 <= i < encode_utf8(text).len() ==> encode_utf8(text)[i] != 0,
    decreases text.len(),
{
    if text.len() > 0 {
        let scalar = text[0] as u32;
        let head = encode_scalar(scalar);
        let tail = encode_utf8(text.drop_first());
        char_is_scalar(text[0]);
        assert(scalar != 0) by {
            if scalar == 0 {
                char_u32_cast(text[0], scalar);
                char_u32_cast('\0', 0u32);
            }
        }
        lemma_scalar_bytes_are_not_zero(scalar);
        lemma_encoding_without_zero(text.drop_first());
        assert forall|i: int| 0 <= i < encode_utf8(text).len() implies encode_utf8(text)[i]
            != 0 by {
            if i >= head.len() {
                assert(encode_utf8(text)[i] == tail[i - head.len()]);
            } else {
                assert(encode_utf8(text)[i] == head[i]);
            }
        }
    }
}

} // verus!
