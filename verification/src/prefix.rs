//! The symbol that is being typed at an offset of a source text.

use vstd::prelude::*;
use vstd::string::*;
use vstd::utf8::*;

verus! {

/// Whether a byte can be part of the text that completion looks at: an ASCII
/// letter, a digit, an underscore, or the dot of a field access.
pub open spec fn symbol_byte(b: u8) -> bool {
    ||| 0x61 <= b <= 0x7a
    ||| 0x41 <= b <= 0x5a
    ||| 0x30 <= b <= 0x39
    ||| b == 0x5f
    ||| b == 0x2e
}

/// The longest run of symbol bytes at the end of `before`.
pub open spec fn symbol_suffix(before: Seq<u8>) -> Seq<u8>
    decreases before.len(),
{
    if before.len() > 0 && symbol_byte(before.last()) {
        symbol_suffix(before.drop_last()).push(before.last())
    } else {
        Seq::empty()
    }
}

/// The same run as text: every symbol byte is an ASCII character.
pub open spec fn symbol_prefix_text(before: Seq<u8>) -> Seq<char> {
    symbol_suffix(before).map_values(|b: u8| b as char)
}

/// The run is the end of the text, and holds symbol bytes only; the byte in
/// front of it, if there is one, is none.
pub proof fn lemma_symbol_suffix_is_maximal(before: Seq<u8>)
    ensures
        symbol_suffix(before).len() <= before.len(),
        symbol_suffix(before) == before.skip(before.len() - symbol_suffix(before).len()),
        forall|i: int|
            0 <= i < symbol_suffix(before).len() ==> symbol_byte(#[trigger] symbol_suffix(before)[i]),
        symbol_suffix(before).len() < before.len() ==> !symbol_byte(
            before[before.len() - symbol_suffix(before).len() - 1],
        ),
    decreases before.len(),
{
    if before.len() > 0 && symbol_byte(before.last()) {
        let rest = before.drop_last();
        lemma_symbol_suffix_is_maximal(rest);
        let run = symbol_suffix(before);
        assert(run =~= before.skip(before.len() - run.len()));
    } else {
        assert(Seq::<u8>::empty() =~= before.skip(before.len() as int));
    }
}

/// Typing a symbol byte makes the run longer by that byte; typing another byte ends it.
pub proof fn lemma_symbol_suffix_while_typing(before: Seq<u8>, typed: u8)
    ensures
        symbol_suffix(before.push(typed)) == if symbol_byte(typed) {
            symbol_suffix(before).push(typed)
        } else {
            Seq::empty()
        },
{
    assert(before.push(typed).drop_last() =~= before);
}

/// The text of the run has one character for each of its bytes: an ASCII letter, a
/// digit, `_` or `.`.
pub proof fn lemma_symbol_prefix_text_is_ascii(before: Seq<u8>)
    ensures
        symbol_prefix_text(before).len() == symbol_suffix(before).len(),
        forall|i: int|
            0 <= i < symbol_prefix_text(before).len() ==> {
                let c = #[trigger] symbol_prefix_text(before)[i];
                ||| 'a' <= c <= 'z'
                ||| 'A' <= c <= 'Z'
                ||| '0' <= c <= '9'
                ||| c == '_'
                ||| c == '.'
            },
{
    lemma_symbol_suffix_is_maximal(before);
    assert forall|i: int| 0 <= i < symbol_prefix_text(before).len() implies {
        let c = #[trigger] symbol_prefix_text(before)[i];
        ||| 'a' <= c <= 'z'
        ||| 'A' <= c <= 'Z'
        ||| '0' <= c <= '9'
        ||| c == '_'
        ||| c == '.'
    } by {
        assert(symbol_byte(symbol_suffix(before)[i]));
    }
}

/// The text of the run is a piece of the text it was taken of: its bytes are the last
/// bytes in front of the offset, unchanged, one for each character.
pub proof fn lemma_symbol_prefix_is_the_end_of_the_text(before: Seq<u8>)
    ensures
        symbol_prefix_text(before).len() <= before.len(),
        encode_utf8(symbol_prefix_text(before)) == before.skip(
            before.len() - symbol_prefix_text(before).len(),
        ),
        forall|i: int|
            0 <= i < symbol_prefix_text(before).len() ==> #[trigger] symbol_prefix_text(before)[i]
                == before[before.len() - symbol_prefix_text(before).len() + i] as char,
{
    let text = symbol_prefix_text(before);
    let run = symbol_suffix(before);
    lemma_symbol_suffix_is_maximal(before);
    lemma_symbol_prefix_text_is_ascii(before);
    is_ascii_chars_encode_utf8(text);
    assert forall|i: int| 0 <= i < text.len() implies #[trigger] encode_utf8(text)[i] == run[i]
        && text[i] == before[before.len() - text.len() + i] as char by {
        assert(text[i] as u8 == encode_utf8(text)[i]);
        assert(text[i] == run[i] as char);
        assert(symbol_byte(run[i]));
    }
    assert(encode_utf8(text) =~= run);
}

/// A run of symbol bytes from `start` to `end` that nothing extends to the left
/// is what `symbol_suffix` finds in the text before `end`.
proof fn lemma_symbol_suffix_from(bytes: Seq<u8>, start: int, end: int)
    requires
        0 <= start <= end <= bytes.len(),
        forall|i: int| start <= i < end ==> symbol_byte(#[trigger] bytes[i]),
        start > 0 ==> !symbol_byte(bytes[start - 1]),
    ensures
        symbol_suffix(bytes.take(end)) == bytes.subrange(start, end),
    decreases end - start,
{
    let before = bytes.take(end);
    if start < end {
        lemma_symbol_suffix_from(bytes, start, end - 1);
        assert(before.last() == bytes[end - 1]);
        assert(before.drop_last() =~= bytes.take(end - 1));
        assert(bytes.subrange(start, end) =~= bytes.subrange(start, end - 1).push(bytes[end - 1]));
    } else {
        assert(bytes.subrange(start, end) =~= Seq::<u8>::empty());
        if end > 0 {
            assert(before.last() == bytes[end - 1]);
        }
    }
}

/// The ends of a run of ASCII bytes in a text are character boundaries.
proof fn lemma_ascii_run_boundaries(bytes: Seq<u8>, start: int, end: int)
    requires
        valid_utf8(bytes),
        0 <= start < end <= bytes.len(),
        forall|i: int| start <= i < end ==> #[trigger] bytes[i] < 0x80,
    ensures
        is_char_boundary(bytes, end),
        is_char_boundary(bytes.take(end), start),
{
    is_char_boundary_iff_not_is_continuation_byte(bytes, start);
    valid_utf8_split(bytes, start);
    assert(partial_valid_utf8(bytes, start));
    partial_valid_utf8_extend_ascii_block(bytes, start, end);
    let before = bytes.subrange(0, end);
    assert(before =~= bytes.take(end));
    is_char_boundary_iff_not_is_continuation_byte(before, start);
    if end < bytes.len() {
        if is_continuation_byte(bytes[end]) {
            let rest = bytes.subrange(end, bytes.len() as int);
            assert(!valid_utf8(rest)) by {
                assert(rest[0] == bytes[end]);
                assert(!valid_first_scalar(rest));
            }
            partial_valid_partial_invalid_utf8(bytes, end);
        }
        is_char_boundary_iff_not_is_continuation_byte(bytes, end);
    } else {
        is_char_boundary_start_end_of_seq(bytes);
    }
}

/// A text whose bytes are all ASCII has one character for each byte.
proof fn lemma_ascii_text(chars: Seq<char>)
    requires
        forall|i: int| 0 <= i < encode_utf8(chars).len() ==> #[trigger] encode_utf8(chars)[i] < 0x80,
    ensures
        chars == encode_utf8(chars).map_values(|b: u8| b as char),
    decreases chars.len(),
{
    let bytes = encode_utf8(chars);
    if chars.len() > 0 {
        let rest = chars.drop_first();
        let first = encode_scalar(chars[0] as u32);
        encode_utf8_first_scalar(chars);
        assert(bytes =~= first + encode_utf8(rest));
        assert(bytes[0] < 0x80);
        assert(first.len() == 1);
        assert forall|i: int| 0 <= i < encode_utf8(rest).len() implies #[trigger] encode_utf8(
            rest,
        )[i] < 0x80 by {
            assert(encode_utf8(rest)[i] == bytes[i + 1]);
        }
        lemma_ascii_text(rest);
        let c = chars[0] as u32;
        assert(has_width_1_encoding(c));
        assert((c & 0x7f) == c) by (bit_vector)
            requires
                c <= 0x7f,
        ;
        assert(bytes[0] == leading_byte_width_1(c));
        char_u32_cast(chars[0], bytes[0] as u32);
        assert(chars =~= seq![chars[0]] + rest);
    }
    assert(chars =~= bytes.map_values(|b: u8| b as char));
}

/// Whether `b` is an ASCII letter, a digit, `_` or `.`.
pub fn is_symbol_byte(b: u8) -> (res: bool)
    ensures
        res == symbol_byte(b),
{
    (0x61 <= b && b <= 0x7a) || (0x41 <= b && b <= 0x5a) || (0x30 <= b && b <= 0x39) || b == 0x5f
        || b == 0x2e
}

/// The longest run of symbol characters of `source` that ends at the byte offset
/// `offset`.
pub fn symbol_prefix_at(source: &str, offset: usize) -> (res: String)
    requires
        offset <= source.spec_bytes().len(),
    ensures
        res@ == symbol_prefix_text(source.spec_bytes().take(offset as int)),
{
    let bytes = source.as_bytes();
    let mut start: usize = offset;
    while start > 0 && is_symbol_byte(bytes[start - 1])
        invariant
            start <= offset <= bytes@.len(),
            forall|i: int| start <= i < offset ==> symbol_byte(#[trigger] bytes@[i]),
        decreases start,
    {
        start = start - 1;
    }
    proof {
        lemma_symbol_suffix_from(bytes@, start as int, offset as int);
    }
    if start == offset {
        let empty = String::new();
        proof {
            assert(symbol_prefix_text(bytes@.take(offset as int)) =~= Seq::<char>::empty());
        }
        return empty;
    }
    proof {
        encode_utf8_valid_utf8(source@);
        lemma_ascii_run_boundaries(bytes@, start as int, offset as int);
    }
    let before = source.split_at(offset).0;
    proof {
        assert(before.spec_bytes() =~= bytes@.take(offset as int));
    }
    let symbol = before.split_at(start).1;
    proof {
        assert(symbol.spec_bytes() =~= bytes@.subrange(start as int, offset as int));
        lemma_ascii_text(symbol@);
    }
    symbol.to_owned()
}

} // verus!
