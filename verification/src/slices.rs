//! Slices of a text: the part between two byte positions, and the first
//! word, which is everything before the first space.
//!
//! A text is a sequence of characters (its view) stored as UTF-8 bytes.
//! The functions here work on the bytes; their contracts say what that means
//! for the characters.

use vstd::prelude::*;
use vstd::string::*;
use vstd::utf8::*;

verus! {

/// The byte that encodes the space character.
pub const SPACE: u8 = 32;

/// `k` is where the first word of `s` ends: no separator stands before
/// position `k`, and position `k` is either a separator or the end of `s`.
pub open spec fn ends_first_word<T>(s: Seq<T>, sep: T, k: int) -> bool {
    &&& 0 <= k <= s.len()
    &&& forall|i: int| 0 <= i < k ==> s[i] != sep
    &&& k < s.len() ==> s[k] == sep
}

/// The first word of `s`: the characters before its first space, or all of
/// `s` where it holds no space.
pub open spec fn first_word_of(s: Seq<char>) -> Seq<char>
    decreases s.len(),
{
    if s.len() == 0 || s[0] == ' ' {
        Seq::empty()
    } else {
        seq![s[0]] + first_word_of(s.drop_first())
    }
}

/// The byte positions `start` and `end` cut a part out of `st`: both are
/// character boundaries of `st`, and `start` is not behind `end`.
pub open spec fn can_slice(st: Seq<char>, start: int, end: int) -> bool {
    &&& start <= end
    &&& is_char_boundary(encode_utf8(st), start)
    &&& is_char_boundary(encode_utf8(st), end)
}

/// A sequence has one place only where its first word ends.
pub proof fn lemma_word_end_unique<T>(s: Seq<T>, sep: T, j: int, k: int)
    requires
        ends_first_word(s, sep, j),
        ends_first_word(s, sep, k),
    ensures
        j == k,
{
}

/// The first word of `s` is the longest prefix of `s` without a space.
pub proof fn lemma_first_word_is_longest_prefix(s: Seq<char>)
    ensures
        ends_first_word(s, ' ', first_word_of(s).len() as int),
        first_word_of(s) == s.take(first_word_of(s).len() as int),
    decreases s.len(),
{
    if s.len() == 0 || s[0] == ' ' {
    } else {
        let rest = s.drop_first();
        let n = first_word_of(rest).len() as int;
        lemma_first_word_is_longest_prefix(rest);
        assert forall|i: int| 0 <= i < 1 + n implies s[i] != ' ' by {
            if i > 0 {
                assert(s[i] == rest[i - 1]);
            }
        }
        if 1 + n < s.len() {
            assert(s[1 + n] == rest[n]);
        }
        assert(first_word_of(s) =~= s.take(1 + n));
    }
}

/// The one byte that encodes a space is `SPACE`.
proof fn lemma_space_encoding()
    ensures
        encode_scalar(' ' as u32) == seq![SPACE],
{
    let c = ' ' as u32;
    assert(c == 32);
    assert((c & 0x7F) as u8 == 32u8) by (bit_vector)
        requires
            c == 32,
    ;
}

/// No byte that encodes another character than the space is `SPACE`.
proof fn lemma_other_encodings(c: u32)
    requires
        is_scalar(c),
        c != 32,
    ensures
        forall|i: int| 0 <= i < encode_scalar(c).len() ==> encode_scalar(c)[i] != SPACE,
{
    assert(c <= 0x7F ==> (c & 0x7F) as u8 != 32u8) by (bit_vector)
        requires
            c != 32,
    ;
    assert((0xC0 | ((c >> 6) & 0x1F) as u8) != 32u8) by (bit_vector);
    assert((0xE0 | ((c >> 12) & 0x0F) as u8) != 32u8) by (bit_vector);
    assert((0xF0 | ((c >> 18) & 0x7) as u8) != 32u8) by (bit_vector);
    assert((0x80 | (c & 0x3F) as u8) != 32u8) by (bit_vector);
    assert((0x80 | ((c >> 6) & 0x3F) as u8) != 32u8) by (bit_vector);
    assert((0x80 | ((c >> 12) & 0x3F) as u8) != 32u8) by (bit_vector);
}

/// Among the bytes of a text, the first word ends where the bytes of its
/// first word end: the first space byte is the first space character.
pub proof fn lemma_first_word_bytes(s: Seq<char>)
    ensures
        ends_first_word(encode_utf8(s), SPACE, encode_utf8(first_word_of(s)).len() as int),
        encode_utf8(first_word_of(s)) == encode_utf8(s).take(
            encode_utf8(first_word_of(s)).len() as int,
        ),
    decreases s.len(),
{
    let bytes = encode_utf8(s);
    if s.len() == 0 {
    } else if s[0] == ' ' {
        lemma_space_encoding();
        assert(bytes[0] == SPACE);
    } else {
        let rest = s.drop_first();
        let head = encode_scalar(s[0] as u32);
        let word = first_word_of(s);
        let k = encode_utf8(first_word_of(rest)).len() as int;
        lemma_first_word_bytes(rest);
        char_is_scalar(s[0]);
        if s[0] as u32 == 32 {
            char_u32_cast(s[0], 32);
            char_u32_cast(' ', 32);
        }
        lemma_other_encodings(s[0] as u32);
        assert(word.drop_first() =~= first_word_of(rest));
        assert(encode_utf8(word) == head + encode_utf8(first_word_of(rest)));
        assert forall|i: int| 0 <= i < head.len() + k implies bytes[i] != SPACE by {
            if i >= head.len() {
                assert(bytes[i] == encode_utf8(rest)[i - head.len()]);
            }
        }
        if head.len() + k < bytes.len() {
            assert(bytes[head.len() + k] == encode_utf8(rest)[k]);
        }
        assert(encode_utf8(word) =~= bytes.take(head.len() + k));
    }
}

/// A character boundary of a text is still one in each part of the text
/// that ends at a character boundary behind it.
pub proof fn lemma_boundary_in_prefix(bytes: Seq<u8>, start: int, end: int)
    requires
        valid_utf8(bytes),
        start <= end,
        is_char_boundary(bytes, start),
        is_char_boundary(bytes, end),
    ensures
        valid_utf8(bytes.take(end)),
        is_char_boundary(bytes.take(end), start),
{
    lemma_boundary_in_range(bytes, end);
    lemma_boundary_in_range(bytes, start);
    valid_utf8_split(bytes, end);
    let head = bytes.take(end);
    if start < end {
        is_char_boundary_iff_not_is_continuation_byte(bytes, start);
        is_char_boundary_iff_not_is_continuation_byte(head, start);
    } else {
        is_char_boundary_start_end_of_seq(head);
    }
}

/// Every character boundary of a text lies within the text.
pub proof fn lemma_boundary_in_range(bytes: Seq<u8>, index: int)
    requires
        valid_utf8(bytes),
        is_char_boundary(bytes, index),
    ensures
        0 <= index <= bytes.len(),
{
}

/// A part that is cut out between two character boundaries holds the
/// characters of the text that stand between them: the text is what stands
/// before the part, the part, and what stands behind it.
pub proof fn lemma_slice_is_part(st: Seq<char>, start: int, end: int)
    requires
        can_slice(st, start, end),
    ensures
        st == decode_utf8(encode_utf8(st).take(start)) + decode_utf8(
            encode_utf8(st).subrange(start, end),
        ) + decode_utf8(encode_utf8(st).skip(end)),
{
    let bytes = encode_utf8(st);
    let head = bytes.take(end);
    encode_utf8_valid_utf8(st);
    encode_utf8_decode_utf8(st);
    lemma_boundary_in_range(bytes, end);
    lemma_boundary_in_range(bytes, start);
    lemma_boundary_in_prefix(bytes, start, end);
    decode_utf8_split(bytes, end);
    decode_utf8_split(head, start);
    assert(head.take(start) =~= bytes.take(start));
    assert(head.skip(start) =~= bytes.subrange(start, end));
}

/// The part of `st` between the byte positions `start` and `end`, or `None`
/// where the two do not cut `st` between characters.
pub fn slice_of(st: &str, start: usize, end: usize) -> (part: Option<&str>)
    ensures
        part is Some <==> can_slice(st@, start as int, end as int),
        part matches Some(p) ==> encode_utf8(p@) == encode_utf8(st@).subrange(
            start as int,
            end as int,
        ),
        part matches Some(p) ==> p@ == decode_utf8(
            encode_utf8(st@).subrange(start as int, end as int),
        ),
{
    proof {
        encode_utf8_valid_utf8(st@);
    }
    if start <= end && st.is_char_boundary(start) && st.is_char_boundary(end) {
        proof {
            lemma_boundary_in_prefix(encode_utf8(st@), start as int, end as int);
        }
        let head = st.split_at(end).0;
        assert(encode_utf8(head@) == encode_utf8(st@).take(end as int));
        let part = head.split_at(start).1;
        assert(encode_utf8(part@) =~= encode_utf8(st@).subrange(start as int, end as int));
        proof {
            encode_utf8_decode_utf8(part@);
        }
        Some(part)
    } else {
        None
    }
}

/// Where the first word ends among `bytes`: the index of the first space,
/// or the number of bytes where there is none.
fn first_space(bytes: &[u8]) -> (end: usize)
    ensures
        ends_first_word(bytes@, SPACE, end as int),
{
    let mut i: usize = 0;
    while i < bytes.len()
        invariant
            i <= bytes.len(),
            forall|j: int| 0 <= j < i ==> bytes@[j] != SPACE,
        decreases bytes.len() - i,
    {
        if bytes[i] == SPACE {
            return i;
        }
        i += 1;
    }
    i
}

/// The index, in bytes, at which the first word of `st` ends: the index of
/// its first space, or its length where it is a single word.
pub fn first_word(st: &String) -> (end: usize)
    ensures
        ends_first_word(encode_utf8(st@), SPACE, end as int),
        end == encode_utf8(first_word_of(st@)).len(),
{
    let end = first_space(st.as_str().as_bytes());
    proof {
        lemma_first_word_bytes(st@);
        lemma_word_end_unique(
            encode_utf8(st@),
            SPACE,
            end as int,
            encode_utf8(first_word_of(st@)).len() as int,
        );
    }
    end
}

/// The first word of `st`, or all of `st` where it is a single word.
pub fn first_word_slice(st: &str) -> (word: &str)
    ensures
        word@ == first_word_of(st@),
{
    let end = first_space(st.as_bytes());
    proof {
        let bytes = encode_utf8(st@);
        let prefix = encode_utf8(first_word_of(st@));
        lemma_first_word_bytes(st@);
        lemma_word_end_unique(bytes, SPACE, end as int, prefix.len() as int);
        encode_utf8_valid_utf8(st@);
        if end < bytes.len() {
            is_char_boundary_iff_not_is_continuation_byte(bytes, end as int);
        } else {
            is_char_boundary_start_end_of_seq(bytes);
        }
    }
    let word = st.split_at(end).0;
    proof {
        encode_utf8_decode_utf8(word@);
        encode_utf8_decode_utf8(first_word_of(st@));
    }
    word
}

} // verus!
