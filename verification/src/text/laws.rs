//! What the functions on text give, said of the characters.

use crate::text::{
    end_trimmed, first_index, hex_char, hex_text, is_white_space, lower_text, start_trimmed,
    text_before, trimmed,
};
use vstd::prelude::*;

verus! {

/// Whether a text is nothing but white space.
pub open spec fn is_blank(text: Seq<char>) -> bool {
    forall|i: int| 0 <= i < text.len() ==> is_white_space(#[trigger] text[i])
}

/// Whether a text neither starts nor ends with white space.
pub open spec fn is_tight(text: Seq<char>) -> bool {
    text.len() == 0 || (!is_white_space(text[0]) && !is_white_space(text[text.len() - 1]))
}

/// A text without white space at its ends is trimmed to itself, and white space around it does
/// not matter.
pub proof fn law_white_space_around_is_trimmed(
    before: Seq<char>,
    text: Seq<char>,
    behind: Seq<char>,
)
    requires
        is_blank(before),
        is_blank(behind),
        is_tight(text),
    ensures
        trimmed(before + text + behind) == text,
    decreases before.len() + behind.len(),
{
    let whole = before + text + behind;
    if before.len() > 0 {
        assert(is_white_space(before[0]) && whole[0] == before[0]);
        let rest = before.skip(1);
        assert forall|i: int| 0 <= i < rest.len() implies is_white_space(#[trigger] rest[i]) by {
            assert(rest[i] == before[i + 1]);
        }
        assert(whole.skip(1) =~= rest + text + behind);
        law_white_space_around_is_trimmed(rest, text, behind);
    } else if text.len() > 0 {
        assert(whole[0] == text[0]);
        assert(start_trimmed(whole) == whole);
        lemma_end_trimmed(text, behind);
        assert(whole =~= text + behind);
    } else {
        assert(whole =~= behind);
        lemma_blank_vanishes(behind);
        assert(text =~= Seq::<char>::empty());
    }
}

proof fn lemma_blank_vanishes(text: Seq<char>)
    requires
        is_blank(text),
    ensures
        start_trimmed(text) == Seq::<char>::empty(),
        end_trimmed(Seq::<char>::empty()) == Seq::<char>::empty(),
    decreases text.len(),
{
    if text.len() > 0 {
        assert(is_white_space(text[0]));
        let rest = text.skip(1);
        assert forall|i: int| 0 <= i < rest.len() implies is_white_space(#[trigger] rest[i]) by {
            assert(rest[i] == text[i + 1]);
        }
        lemma_blank_vanishes(rest);
    } else {
        assert(text =~= Seq::<char>::empty());
    }
}

proof fn lemma_end_trimmed(text: Seq<char>, behind: Seq<char>)
    requires
        text.len() > 0,
        is_tight(text),
        is_blank(behind),
    ensures
        end_trimmed(text + behind) == text,
    decreases behind.len(),
{
    let whole = text + behind;
    if behind.len() > 0 {
        let rest = behind.drop_last();
        assert(whole.last() == behind[behind.len() - 1]);
        assert(whole.drop_last() =~= text + rest);
        lemma_end_trimmed(text, rest);
    } else {
        assert(whole =~= text);
    }
}

/// What the first of a character stands behind holds none of it; where there is none, that is
/// the whole text.
pub proof fn law_first_of_a_character(text: Seq<char>, c: char)
    ensures
        0 <= first_index(text, c) <= text.len(),
        first_index(text, c) < text.len() ==> text[first_index(text, c)] == c,
        forall|i: int| 0 <= i < first_index(text, c) ==> #[trigger] text[i] != c,
    decreases text.len(),
{
    if text.len() > 0 && text[0] != c {
        let rest = text.skip(1);
        law_first_of_a_character(rest, c);
        assert forall|i: int| 0 <= i < first_index(text, c) implies #[trigger] text[i] != c by {
            if i > 0 {
                assert(rest[i - 1] == text[i]);
            }
        }
    }
}

/// Of two texts that differ first at a place, the one with the smaller character there, or the
/// one that ends there, comes first.
pub proof fn law_texts_are_ordered_by_their_first_difference(a: Seq<char>, b: Seq<char>, k: int)
    requires
        0 <= k <= a.len(),
        k <= b.len(),
        a.take(k) == b.take(k),
        k < a.len() && k < b.len() ==> a[k] != b[k],
    ensures
        k < a.len() && k < b.len() ==> (text_before(a, b) <==> a[k] < b[k]),
        k == a.len() && k < b.len() ==> text_before(a, b),
        k == b.len() ==> !text_before(a, b),
    decreases k,
{
    if k > 0 {
        assert(a[0] == a.take(k)[0] && b[0] == b.take(k)[0]);
        assert(a.skip(1).take(k - 1) =~= a.take(k).skip(1));
        assert(b.skip(1).take(k - 1) =~= b.take(k).skip(1));
        law_texts_are_ordered_by_their_first_difference(a.skip(1), b.skip(1), k - 1);
    }
}

/// The number that a hexadecimal digit stands for.
pub open spec fn hex_value(c: char) -> int {
    if c <= '9' {
        c as int - '0' as int
    } else {
        10 + (c as int - 'a' as int)
    }
}

/// Every byte is written as two digits, the higher one first, that give it back.
pub proof fn law_bytes_are_written_in_hexadecimal(bytes: Seq<u8>, i: int)
    requires
        0 <= i < bytes.len(),
    ensures
        hex_text(bytes).len() == 2 * bytes.len(),
        ({
            let (high, low) = (hex_text(bytes)[2 * i], hex_text(bytes)[2 * i + 1]);
            &&& 16 * hex_value(high) + hex_value(low) == bytes[i]
            &&& '0' <= high <= '9' || 'a' <= high <= 'f'
            &&& '0' <= low <= '9' || 'a' <= low <= 'f'
        }),
{
    let byte = bytes[i] as int;
    assert(2 * i % 2 == 0 && 2 * i / 2 == i);
    assert((2 * i + 1) % 2 == 1 && (2 * i + 1) / 2 == i);
    assert(hex_text(bytes)[2 * i] == hex_char(byte / 16));
    assert(hex_text(bytes)[2 * i + 1] == hex_char(byte % 16));
}

/// Capital letters of the Latin alphabet are made small, and all else stays.
pub proof fn law_letters_are_made_small(text: Seq<char>, i: int)
    requires
        0 <= i < text.len(),
    ensures
        lower_text(text).len() == text.len(),
        ({
            let (was, is) = (text[i], lower_text(text)[i]);
            if 'A' <= was <= 'Z' {
                'a' <= is <= 'z' && is as int - 'a' as int == was as int - 'A' as int
            } else {
                is == was
            }
        }),
{
}

} // verus!
