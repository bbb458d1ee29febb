//! UTF-8 lengths of characters and strings.

use vstd::prelude::*;
use vstd::utf8::*;

verus! {

/// The number of bytes of the UTF-8 encoding of a character.
pub open spec fn char_width(c: char) -> nat {
    let v = c as u32;
    if v <= 0x7F {
        1
    } else if v <= 0x7FF {
        2
    } else if v <= 0xFFFF {
        3
    } else {
        4
    }
}

/// The number of bytes of the UTF-8 encoding of a string.
pub open spec fn utf8_length(s: Seq<char>) -> nat
    decreases s.len(),
{
    if s.len() == 0 {
        0
    } else {
        utf8_length(s.drop_last()) + char_width(s.last())
    }
}

/// The number of bytes of the UTF-8 encoding of a character (as `char::len_utf8`).
pub fn char_byte_width(c: char) -> (result: usize)
    ensures
        result == char_width(c),
        1 <= result <= 4,
{
    let v = c as u32;
    if v <= 0x7F {
        1
    } else if v <= 0x7FF {
        2
    } else if v <= 0xFFFF {
        3
    } else {
        4
    }
}

pub proof fn lemma_utf8_length_push(s: Seq<char>, c: char)
    ensures
        utf8_length(s.push(c)) == utf8_length(s) + char_width(c),
{
    assert(s.push(c).drop_last() == s);
}

pub proof fn lemma_utf8_length_single(c: char)
    ensures
        utf8_length(seq![c]) == char_width(c),
{
    lemma_utf8_length_push(Seq::empty(), c);
    assert(Seq::<char>::empty().push(c) == seq![c]);
}

pub proof fn lemma_utf8_length_concat(a: Seq<char>, b: Seq<char>)
    ensures
        utf8_length(a + b) == utf8_length(a) + utf8_length(b),
    decreases b.len(),
{
    if b.len() == 0 {
        assert(a + b == a);
    } else {
        lemma_utf8_length_concat(a, b.drop_last());
        assert((a + b).drop_last() == a + b.drop_last());
        assert((a + b).last() == b.last());
    }
}

pub proof fn lemma_utf8_length_prefix(s: Seq<char>, i: int)
    requires
        0 <= i <= s.len(),
    ensures
        utf8_length(s.take(i)) <= utf8_length(s),
        utf8_length(s.take(i)) + utf8_length(s.skip(i)) == utf8_length(s),
{
    lemma_utf8_length_concat(s.take(i), s.skip(i));
    assert(s.take(i) + s.skip(i) == s);
}

proof fn lemma_utf8_length_prepend(c: char, t: Seq<char>)
    ensures
        utf8_length(seq![c] + t) == char_width(c) + utf8_length(t),
{
    lemma_utf8_length_concat(seq![c], t);
    lemma_utf8_length_single(c);
}

/// The UTF-8 length agrees with the length of vstd's UTF-8 encoding.
pub proof fn lemma_utf8_length_encode(s: Seq<char>)
    ensures
        utf8_length(s) == encode_utf8(s).len(),
    decreases s.len(),
{
    if s.len() > 0 {
        lemma_utf8_length_encode(s.drop_first());
        lemma_utf8_length_prepend(s[0], s.drop_first());
        assert(seq![s[0]] + s.drop_first() == s);
        let v = s[0] as u32;
        char_is_scalar(s[0]);
        assert(is_scalar(v));
        assert(encode_scalar(v).len() == char_width(s[0]));
    }
}

} // verus!
