//! Building and reading text.

pub mod laws;

use vstd::prelude::*;
use vstd::string::StringExecFns;

verus! {

/// `String::push` puts one character behind the text.
pub assume_specification[ String::push ](text: &mut String, c: char)
    ensures
        final(text)@ == old(text)@.push(c),
;

/// The character of a decimal digit.
pub open spec fn digit_char(digit: int) -> char {
    (48 + digit) as char
}

/// A number in decimal, without leading zeros.
pub open spec fn decimal_text(n: nat) -> Seq<char>
    decreases n,
{
    if n < 10 {
        seq![digit_char(n as int)]
    } else {
        decimal_text(n / 10).push(digit_char((n % 10) as int))
    }
}

fn push_digit(text: &mut String, digit: u64)
    requires
        digit < 10,
    ensures
        final(text)@ == old(text)@.push(digit_char(digit as int)),
{
    text.push((48u8 + digit as u8) as char);
}

/// Writes a number in decimal behind a text.
pub fn push_decimal(text: &mut String, n: u64)
    ensures
        final(text)@ == old(text)@ + decimal_text(n as nat),
    decreases n,
{
    let ghost before = text@;
    if n < 10 {
        push_digit(text, n);
        assert(text@ =~= before + decimal_text(n as nat));
    } else {
        push_decimal(text, n / 10);
        push_digit(text, n % 10);
        assert(text@ =~= before + decimal_text(n as nat));
    }
}

/// A number in decimal.
pub fn decimal(n: u64) -> (text: String)
    ensures
        text@ == decimal_text(n as nat),
{
    let mut text = String::new();
    push_decimal(&mut text, n);
    assert(text@ =~= decimal_text(n as nat));
    text
}

/// The character of a lower-case hexadecimal digit.
pub open spec fn hex_char(digit: int) -> char {
    if digit < 10 {
        (48 + digit) as char
    } else {
        (87 + digit) as char
    }
}

/// The character of an upper-case hexadecimal digit.
pub open spec fn upper_hex_char(digit: int) -> char {
    if digit < 10 {
        (48 + digit) as char
    } else {
        (55 + digit) as char
    }
}

/// Bytes in lower-case hexadecimal, two digits each.
pub open spec fn hex_text(bytes: Seq<u8>) -> Seq<char> {
    Seq::new(
        2 * bytes.len(),
        |i: int|
            if i % 2 == 0 {
                hex_char(bytes[i / 2] as int / 16)
            } else {
                hex_char(bytes[i / 2] as int % 16)
            },
    )
}

fn push_hex_digit(text: &mut String, digit: u8)
    requires
        digit < 16,
    ensures
        final(text)@ == old(text)@.push(hex_char(digit as int)),
{
    if digit < 10 {
        text.push((48u8 + digit) as char);
    } else {
        text.push((87u8 + digit) as char);
    }
}

/// Bytes in lower-case hexadecimal.
pub fn hex(bytes: &[u8]) -> (text: String)
    ensures
        text@ == hex_text(bytes@),
{
    let mut text = String::new();
    for i in 0..bytes.len()
        invariant
            text@ =~= hex_text(bytes@.take(i as int)),
    {
        push_hex_digit(&mut text, bytes[i] / 16);
        push_hex_digit(&mut text, bytes[i] % 16);
        assert(text@ =~= hex_text(bytes@.take(i + 1)));
    }
    assert(bytes@.take(bytes.len() as int) =~= bytes@);
    text
}

/// A 32-bit pattern in upper-case hexadecimal, eight digits.
pub open spec fn upper_hex_text(bits: u32) -> Seq<char> {
    seq![
        upper_hex_char(bits as int / 0x1000_0000),
        upper_hex_char(bits as int / 0x100_0000 % 16),
        upper_hex_char(bits as int / 0x10_0000 % 16),
        upper_hex_char(bits as int / 0x1_0000 % 16),
        upper_hex_char(bits as int / 0x1000 % 16),
        upper_hex_char(bits as int / 0x100 % 16),
        upper_hex_char(bits as int / 0x10 % 16),
        upper_hex_char(bits as int % 16),
    ]
}

fn push_upper_hex_digit(text: &mut String, digit: u32)
    requires
        digit < 16,
    ensures
        final(text)@ == old(text)@.push(upper_hex_char(digit as int)),
{
    if digit < 10 {
        text.push((48u8 + digit as u8) as char);
    } else {
        text.push((55u8 + digit as u8) as char);
    }
}

/// Writes a 32-bit pattern in upper-case hexadecimal behind a text.
pub fn push_upper_hex(text: &mut String, bits: u32)
    ensures
        final(text)@ == old(text)@ + upper_hex_text(bits),
{
    let ghost before = text@;
    push_upper_hex_digit(text, bits / 0x1000_0000);
    push_upper_hex_digit(text, bits / 0x100_0000 % 16);
    push_upper_hex_digit(text, bits / 0x10_0000 % 16);
    push_upper_hex_digit(text, bits / 0x1_0000 % 16);
    push_upper_hex_digit(text, bits / 0x1000 % 16);
    push_upper_hex_digit(text, bits / 0x100 % 16);
    push_upper_hex_digit(text, bits / 0x10 % 16);
    push_upper_hex_digit(text, bits % 16);
    assert(text@ =~= before + upper_hex_text(bits));
}

/// The characters of a text.
pub fn chars_of(text: &str) -> (chars: Vec<char>)
    ensures
        chars@ == text@,
{
    let mut chars: Vec<char> = Vec::new();
    let count = text.unicode_len();
    for i in 0..count
        invariant
            count == text@.len(),
            chars@ =~= text@.take(i as int),
    {
        chars.push(text.get_char(i));
    }
    assert(text@.take(count as int) =~= text@);
    chars
}

/// The text of some characters.
pub fn text_of(chars: &[char]) -> (text: String)
    ensures
        text@ == chars@,
{
    let mut text = String::new();
    for i in 0..chars.len()
        invariant
            text@ =~= chars@.take(i as int),
    {
        text.push(chars[i]);
    }
    assert(chars@.take(chars.len() as int) =~= chars@);
    text
}

/// A text followed by another.
pub fn joined(first: &str, second: &str) -> (text: String)
    ensures
        text@ == first@ + second@,
{
    let mut text = first.to_owned();
    text.append(second);
    text
}

/// The characters between two places.
pub fn part_of(chars: &[char], from: usize, to: usize) -> (part: Vec<char>)
    requires
        from <= to <= chars@.len(),
    ensures
        part@ == chars@.subrange(from as int, to as int),
{
    let mut part: Vec<char> = Vec::new();
    let mut i = from;
    while i < to
        invariant
            from <= i <= to <= chars@.len(),
            part@ =~= chars@.subrange(from as int, i as int),
        decreases to - i,
    {
        part.push(chars[i]);
        i = i + 1;
    }
    part
}

/// Where a character stands first; the length of the text where it does not.
pub open spec fn first_index(text: Seq<char>, c: char) -> int
    decreases text.len(),
{
    if text.len() == 0 || text[0] == c {
        0
    } else {
        1 + first_index(text.skip(1), c)
    }
}

proof fn lemma_first_index(text: Seq<char>, c: char, at: int)
    requires
        0 <= at <= text.len(),
        forall|i: int| 0 <= i < at ==> text[i] != c,
        at == text.len() || text[at] == c,
    ensures
        first_index(text, c) == at,
    decreases text.len(),
{
    if at > 0 {
        let rest = text.skip(1);
        assert forall|i: int| 0 <= i < at - 1 implies rest[i] != c by {
            assert(rest[i] == text[i + 1]);
        }
        lemma_first_index(rest, c, at - 1);
    }
}

/// Where a character stands first.
pub fn find_char(chars: &[char], c: char) -> (at: usize)
    ensures
        at == first_index(chars@, c),
        at <= chars@.len(),
        at < chars@.len() ==> chars@[at as int] == c,
{
    let count = chars.len();
    for i in 0..count
        invariant
            count == chars@.len(),
            forall|j: int| 0 <= j < i ==> chars@[j] != c,
    {
        if chars[i] == c {
            proof {
                lemma_first_index(chars@, c, i as int);
            }
            return i;
        }
    }
    proof {
        lemma_first_index(chars@, c, count as int);
    }
    count
}

/// Whether a character is white space.
pub open spec fn is_white_space(c: char) -> bool {
    ||| '\u{9}' <= c <= '\u{d}'
    ||| c == '\u{20}'
    ||| c == '\u{85}'
    ||| c == '\u{a0}'
    ||| c == '\u{1680}'
    ||| '\u{2000}' <= c <= '\u{200a}'
    ||| c == '\u{2028}'
    ||| c == '\u{2029}'
    ||| c == '\u{202f}'
    ||| c == '\u{205f}'
    ||| c == '\u{3000}'
}

fn is_white(c: char) -> (white: bool)
    ensures
        white == is_white_space(c),
{
    ('\u{9}' <= c && c <= '\u{d}') || c == '\u{20}' || c == '\u{85}' || c == '\u{a0}' || c
        == '\u{1680}' || ('\u{2000}' <= c && c <= '\u{200a}') || c == '\u{2028}' || c
        == '\u{2029}' || c == '\u{202f}' || c == '\u{205f}' || c == '\u{3000}'
}

/// A text without the white space at its end.
pub open spec fn end_trimmed(text: Seq<char>) -> Seq<char>
    decreases text.len(),
{
    if text.len() > 0 && is_white_space(text.last()) {
        end_trimmed(text.drop_last())
    } else {
        text
    }
}

/// A text without the white space at its start.
pub open spec fn start_trimmed(text: Seq<char>) -> Seq<char>
    decreases text.len(),
{
    if text.len() > 0 && is_white_space(text[0]) {
        start_trimmed(text.skip(1))
    } else {
        text
    }
}

/// A text without the white space around it.
pub open spec fn trimmed(text: Seq<char>) -> Seq<char> {
    end_trimmed(start_trimmed(text))
}

/// The characters without the white space around them.
pub fn trim_chars(chars: &[char]) -> (part: Vec<char>)
    ensures
        part@ == trimmed(chars@),
{
    let count = chars.len();
    let mut from: usize = 0;
    assert(chars@.skip(0) =~= chars@);
    while from < count && is_white(chars[from])
        invariant
            count == chars@.len(),
            from <= count,
            start_trimmed(chars@) == start_trimmed(chars@.skip(from as int)),
        decreases count - from,
    {
        assert(chars@.skip(from as int).skip(1) =~= chars@.skip(from + 1));
        from = from + 1;
    }
    let ghost middle = chars@.skip(from as int);
    let mut to = count;
    assert(chars@.subrange(from as int, to as int) =~= middle);
    while to > from && is_white(chars[to - 1])
        invariant
            from <= to <= count,
            count == chars@.len(),
            end_trimmed(middle) == end_trimmed(chars@.subrange(from as int, to as int)),
        decreases to,
    {
        assert(chars@.subrange(from as int, to as int).drop_last() =~= chars@.subrange(
            from as int,
            to - 1,
        ));
        to = to - 1;
    }
    part_of(chars, from, to)
}

/// Whether a text occurs in another one at a place.
pub open spec fn occurs_at(text: Seq<char>, part: Seq<char>, at: int) -> bool {
    0 <= at && at + part.len() <= text.len() && text.subrange(at, at + part.len()) == part
}

/// Whether a text occurs in another one.
pub open spec fn has_text(text: Seq<char>, part: Seq<char>) -> bool {
    exists|at: int| occurs_at(text, part, at)
}

fn matches_at(text: &[char], part: &[char], at: usize) -> (same: bool)
    requires
        at + part@.len() <= text@.len(),
    ensures
        same == occurs_at(text@, part@, at as int),
{
    let length = text.len();
    for i in 0..part.len()
        invariant
            length == text@.len(),
            at + part@.len() <= length,
            forall|j: int| 0 <= j < i ==> text@[at + j] == part@[j],
    {
        if text[at + i] != part[i] {
            assert(text@.subrange(at as int, at + part@.len())[i as int] != part@[i as int]);
            return false;
        }
    }
    assert(text@.subrange(at as int, at + part@.len()) =~= part@);
    true
}

/// Whether characters occur among others.
pub fn contains_chars(text: &[char], part: &[char]) -> (found: bool)
    ensures
        found == has_text(text@, part@),
{
    if part.len() > text.len() {
        return false;
    }
    let last = text.len() - part.len();
    let mut at: usize = 0;
    while at <= last
        invariant
            last + part@.len() == text@.len(),
            at <= last + 1,
            text@.len() <= usize::MAX,
            forall|i: int| 0 <= i < at ==> !occurs_at(text@, part@, i),
        decreases last + 1 - at,
    {
        if matches_at(text, part, at) {
            return true;
        }
        if at == last {
            assert forall|i: int| !occurs_at(text@, part@, i) by {
                if 0 <= i && i + part@.len() <= text@.len() {
                    assert(i <= last);
                }
            }
            return false;
        }
        at = at + 1;
    }
    false
}

/// Whether a text occurs in another one.
pub fn contains_text(text: &str, part: &str) -> (found: bool)
    ensures
        found == has_text(text@, part@),
{
    let text = chars_of(text);
    let part = chars_of(part);
    contains_chars(text.as_slice(), part.as_slice())
}

/// A letter of the ASCII alphabet in lower case; any other character as it is.
pub open spec fn lower_char(c: char) -> char {
    if 'A' <= c && c <= 'Z' {
        (c as u8 + 32) as char
    } else {
        c
    }
}

/// A text with its ASCII letters in lower case.
pub open spec fn lower_text(text: Seq<char>) -> Seq<char> {
    text.map_values(|c: char| lower_char(c))
}

/// The characters of a text with its ASCII letters in lower case.
pub fn lower_chars(text: &str) -> (chars: Vec<char>)
    ensures
        chars@ == lower_text(text@),
{
    let all = chars_of(text);
    let mut chars: Vec<char> = Vec::new();
    for i in 0..all.len()
        invariant
            all@ == text@,
            chars@ == lower_text(text@.take(i as int)),
    {
        let c = all[i];
        let lower = if 'A' <= c && c <= 'Z' {
            (c as u8 + 32) as char
        } else {
            c
        };
        chars.push(lower);
        assert(chars@ =~= lower_text(text@.take(i + 1)));
    }
    assert(text@.take(text@.len() as int) =~= text@);
    chars
}

/// Whether a text comes before another one: the first character that differs decides, and
/// the start of a text comes before the text.
pub open spec fn text_before(a: Seq<char>, b: Seq<char>) -> bool
    decreases a.len(),
{
    if b.len() == 0 {
        false
    } else if a.len() == 0 {
        true
    } else if a[0] == b[0] {
        text_before(a.skip(1), b.skip(1))
    } else {
        a[0] < b[0]
    }
}

/// How two texts stand to each other.
#[derive(Clone, Copy, Debug, PartialEq, Eq, Structural)]
pub enum TextOrder {
    Before,
    Same,
    Behind,
}

/// How two texts stand to each other.
pub fn order_texts(a: &String, b: &String) -> (order: TextOrder)
    ensures
        order == TextOrder::Same <==> a@ == b@,
        order == TextOrder::Before <==> text_before(a@, b@),
        order == TextOrder::Behind <==> text_before(b@, a@),
{
    let first = chars_of(a.as_str());
    let second = chars_of(b.as_str());
    let mut i: usize = 0;
    assert(a@.skip(0) =~= a@);
    assert(b@.skip(0) =~= b@);
    while i < first.len() && i < second.len() && first[i] == second[i]
        invariant
            first@ == a@,
            second@ == b@,
            i <= first@.len(),
            i <= second@.len(),
            a@.take(i as int) == b@.take(i as int),
            text_before(a@, b@) == text_before(a@.skip(i as int), b@.skip(i as int)),
            text_before(b@, a@) == text_before(b@.skip(i as int), a@.skip(i as int)),
        decreases first@.len() - i,
    {
        assert(a@.skip(i as int).skip(1) =~= a@.skip(i + 1));
        assert(b@.skip(i as int).skip(1) =~= b@.skip(i + 1));
        assert(a@.take(i + 1) =~= a@.take(i as int).push(a@[i as int]));
        assert(b@.take(i + 1) =~= b@.take(i as int).push(b@[i as int]));
        i = i + 1;
    }
    if i == second.len() {
        if i == first.len() {
            assert(a@.take(i as int) =~= a@);
            assert(b@.take(i as int) =~= b@);
            TextOrder::Same
        } else {
            TextOrder::Behind
        }
    } else if i == first.len() {
        TextOrder::Before
    } else {
        assert(a@[i as int] != b@[i as int]);
        if first[i] < second[i] {
            TextOrder::Before
        } else {
            TextOrder::Behind
        }
    }
}

/// Of two texts either one comes before the other, or they are the same.
pub proof fn lemma_order_is_total(a: Seq<char>, b: Seq<char>)
    ensures
        a == b <==> !text_before(a, b) && !text_before(b, a),
        !(text_before(a, b) && text_before(b, a)),
    decreases a.len(),
{
    if a.len() > 0 && b.len() > 0 && a[0] == b[0] {
        lemma_order_is_total(a.skip(1), b.skip(1));
        if a.skip(1) == b.skip(1) {
            assert(a =~= seq![a[0]] + a.skip(1));
            assert(b =~= seq![b[0]] + b.skip(1));
        }
    } else if a.len() == 0 && b.len() == 0 {
        assert(a =~= b);
    }
}

/// A text that comes before one that comes before a third comes before the third.
pub proof fn lemma_order_is_transitive(a: Seq<char>, b: Seq<char>, c: Seq<char>)
    requires
        text_before(a, b),
        text_before(b, c),
    ensures
        text_before(a, c),
    decreases a.len(),
{
    if a.len() > 0 && a[0] == b[0] && b[0] == c[0] {
        lemma_order_is_transitive(a.skip(1), b.skip(1), c.skip(1));
    }
}

/// Whether texts stand in order, each once.
pub open spec fn in_order(texts: Seq<Seq<char>>) -> bool {
    forall|i: int, j: int|
        0 <= i < j < texts.len() ==> text_before(#[trigger] texts[i], #[trigger] texts[j])
}

/// Whether no text stands behind a larger one.
pub open spec fn are_sorted(texts: Seq<Seq<char>>) -> bool {
    forall|i: int, j: int|
        0 <= i < j < texts.len() ==> !text_before(#[trigger] texts[j], #[trigger] texts[i])
}

/// A number written in digits, read back.
pub open spec fn digits_value(text: Seq<char>) -> nat
    decreases text.len(),
{
    if text.len() == 0 {
        0
    } else {
        10 * digits_value(text.drop_last()) + (text.last() as nat - 48) as nat
    }
}

/// A number in decimal is written in digits that say the number.
pub proof fn lemma_digits_value(n: nat)
    ensures
        digits_value(decimal_text(n)) == n,
        forall|i: int|
            0 <= i < decimal_text(n).len() ==> is_digit(#[trigger] decimal_text(n)[i]),
    decreases n,
{
    let text = decimal_text(n);
    reveal_with_fuel(digits_value, 2);
    if n < 10 {
        assert(text.drop_last() =~= Seq::<char>::empty());
    } else {
        lemma_digits_value(n / 10);
        assert(text.drop_last() =~= decimal_text(n / 10));
        assert forall|i: int| 0 <= i < text.len() implies is_digit(#[trigger] text[i]) by {
            if i < text.len() - 1 {
                assert(text[i] == decimal_text(n / 10)[i]);
            }
        }
    }
}

/// Whether a character is a digit.
pub open spec fn is_digit(c: char) -> bool {
    '0' <= c && c <= '9'
}

/// Whether a text is made of digits, at least one.
pub open spec fn are_digits(text: Seq<char>) -> bool {
    text.len() > 0 && forall|i: int| 0 <= i < text.len() ==> is_digit(#[trigger] text[i])
}

/// A text without the plus sign that it may start with.
pub open spec fn without_plus(text: Seq<char>) -> Seq<char> {
    if text.len() > 0 && text[0] == '+' {
        text.skip(1)
    } else {
        text
    }
}

/// The number that a text says: digits, perhaps behind a plus sign, and no more than
/// `limit`.
pub open spec fn number_in(text: Seq<char>, limit: nat) -> Option<nat> {
    let digits = without_plus(text);
    if are_digits(digits) && digits_value(digits) <= limit {
        Some(digits_value(digits))
    } else {
        None
    }
}

/// More digits do not make a number smaller.
proof fn lemma_digits_grow(digits: Seq<char>, n: int)
    requires
        0 <= n <= digits.len(),
    ensures
        digits_value(digits.take(n)) <= digits_value(digits),
    decreases digits.len(),
{
    if n < digits.len() {
        lemma_digits_grow(digits.drop_last(), n);
        assert(digits.drop_last().take(n) =~= digits.take(n));
    } else {
        assert(digits.take(n) =~= digits);
    }
}

/// The number that a text says.
pub fn parse_number(text: &str, limit: u64) -> (number: Option<u64>)
    ensures
        match number {
            Some(n) => number_in(text@, limit as nat) == Some(n as nat),
            None => number_in(text@, limit as nat) is None,
        },
{
    let chars = chars_of(text);
    let count = chars.len();
    let start: usize = if count > 0 && chars[0] == '+' {
        1
    } else {
        0
    };
    let ghost digits = text@.skip(start as int);
    assert(start == 0 ==> digits =~= text@);
    if start == count {
        return None;
    }
    let mut value: u64 = 0;
    assert(digits.take(0) =~= Seq::<char>::empty());
    for i in start..count
        invariant
            start <= i,
            start < count,
            chars@ == text@,
            count == chars@.len(),
            digits == text@.skip(start as int),
            digits == without_plus(text@),
            value <= limit,
            value == digits_value(digits.take(i - start)),
            forall|j: int| 0 <= j < i - start ==> is_digit(#[trigger] digits[j]),
    {
        let c = chars[i];
        assert(digits[i - start] == c);
        if !('0' <= c && c <= '9') {
            assert(!is_digit(digits[i - start]));
            assert(!are_digits(digits));
            return None;
        }
        let digit = c as u64 - 48;
        let longer: u128 = 10 * (value as u128) + digit as u128;
        proof {
            assert(digits.take(i + 1 - start).drop_last() =~= digits.take(i - start));
            assert(digits.take(i + 1 - start).last() == c);
            lemma_digits_grow(digits, i + 1 - start);
        }
        if longer > limit as u128 {
            return None;
        }
        value = longer as u64;
    }
    assert(digits.take(count - start) =~= digits);
    Some(value)
}

/// A number that is written in decimal is read as itself.
pub proof fn law_decimal_reads_back(n: nat, limit: nat)
    requires
        n <= limit,
    ensures
        number_in(decimal_text(n), limit) == Some(n),
{
    lemma_digits_value(n);
    let text = decimal_text(n);
    assert(text.len() > 0) by {
        reveal_with_fuel(decimal_text, 2);
    }
    assert(is_digit(text[0]));
}

/// The texts of a list.
pub open spec fn text_models(texts: Seq<String>) -> Seq<Seq<char>> {
    texts.map_values(|t: String| t@)
}

proof fn lemma_text_inserted(texts: Seq<Seq<char>>, at: int, text: Seq<char>)
    requires
        are_sorted(texts),
        0 <= at <= texts.len(),
        forall|i: int| 0 <= i < at ==> !text_before(text, #[trigger] texts[i]),
        at < texts.len() ==> text_before(text, texts[at]),
    ensures
        are_sorted(texts.insert(at, text)),
{
    let after = texts.insert(at, text);
    assert forall|i: int, j: int| 0 <= i < j < after.len() implies !text_before(
        #[trigger] after[j],
        #[trigger] after[i],
    ) by {
        let a = if i < at {
            i
        } else {
            i - 1
        };
        let b = if j < at {
            j
        } else {
            j - 1
        };
        if j == at {
            assert(after[i] == texts[i]);
        } else if i == at {
            assert(after[j] == texts[b]);
            lemma_order_is_total(text, texts[b]);
            if b > at {
                assert(!text_before(texts[b], texts[at]));
                lemma_order_is_total(texts[at], texts[b]);
                if text_before(texts[at], texts[b]) {
                    lemma_order_is_transitive(text, texts[at], texts[b]);
                }
            }
        } else {
            assert(after[i] == texts[a]);
            assert(after[j] == texts[b]);
        }
    }
}

/// The texts of a list in order.
pub fn sorted_texts(texts: &Vec<String>) -> (sorted: Vec<String>)
    ensures
        are_sorted(text_models(sorted@)),
        text_models(sorted@).to_multiset() == text_models(texts@).to_multiset(),
{
    let ghost all = text_models(texts@);
    let mut sorted: Vec<String> = Vec::new();
    assert(text_models(sorted@) =~= all.take(0));
    for i in 0..texts.len()
        invariant
            all == text_models(texts@),
            are_sorted(text_models(sorted@)),
            text_models(sorted@).to_multiset() == all.take(i as int).to_multiset(),
    {
        let ghost before = text_models(sorted@);
        let count = sorted.len();
        let mut at: usize = 0;
        while at < count && order_texts(&texts[i], &sorted[at]) != TextOrder::Before
            invariant
                at <= count,
                count == sorted@.len(),
                i < texts@.len(),
                before == text_models(sorted@),
                forall|k: int| 0 <= k < at ==> !text_before(texts@[i as int]@, #[trigger] before[k]),
            decreases count - at,
        {
            assert(before[at as int] == sorted@[at as int]@);
            at = at + 1;
        }
        let text = texts[i].clone();
        let ghost model = text@;
        proof {
            assert(all[i as int] == model);
            if at < count {
                assert(before[at as int] == sorted@[at as int]@);
            }
            lemma_text_inserted(before, at as int, model);
            vstd::seq_lib::to_multiset_insert(before, at as int, model);
            vstd::seq_lib::to_multiset_build(all.take(i as int), model);
        }
        sorted.insert(at, text);
        assert(text_models(sorted@) =~= before.insert(at as int, model));
        assert(all.take(i + 1) =~= all.take(i as int).push(model));
    }
    assert(all.take(all.len() as int) =~= all);
    sorted
}

} // verus!
