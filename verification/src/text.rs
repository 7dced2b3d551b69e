//! Text operations over sequences of characters.
use vstd::prelude::*;
use vstd::utf8::{decode_utf8, valid_utf8};
use vstd::string::*;

verus! {

/// Does `needle` stand in `hay` at position `at`?
pub open spec fn stands_at(hay: Seq<char>, needle: Seq<char>, at: int) -> bool {
    0 <= at && at + needle.len() <= hay.len() && hay.subrange(at, at + needle.len()) == needle
}

/// Does `needle` stand anywhere in `hay`?
pub open spec fn has_text(hay: Seq<char>, needle: Seq<char>) -> bool {
    exists|at: int| stands_at(hay, needle, at)
}

/// Does `hay` begin with `prefix`?
pub open spec fn begins_with(hay: Seq<char>, prefix: Seq<char>) -> bool {
    stands_at(hay, prefix, 0)
}

/// The lower-case form of an ASCII letter; any other character unchanged.
pub open spec fn lower_char(c: char) -> char {
    if 'A' <= c && c <= 'Z' {
        ((c as u8) + 32) as char
    } else {
        c
    }
}

/// A text with its ASCII letters in lower case.
pub open spec fn lower(text: Seq<char>) -> Seq<char> {
    Seq::new(text.len(), |i: int| lower_char(text[i]))
}

/// Characters with the Unicode property White_Space.
pub open spec fn is_space(c: char) -> bool {
    let n = c as u32;
    ||| 0x09 <= n <= 0x0d
    ||| n == 0x20
    ||| n == 0x85
    ||| n == 0xa0
    ||| n == 0x1680
    ||| 0x2000 <= n <= 0x200a
    ||| n == 0x2028
    ||| n == 0x2029
    ||| n == 0x202f
    ||| n == 0x205f
    ||| n == 0x3000
}

/// The text without the spaces at its front.
pub open spec fn trimmed_start(text: Seq<char>) -> Seq<char>
    decreases text.len(),
{
    if text.len() > 0 && is_space(text[0]) {
        trimmed_start(text.skip(1))
    } else {
        text
    }
}

/// The text without the spaces at its back.
pub open spec fn trimmed_end(text: Seq<char>) -> Seq<char>
    decreases text.len(),
{
    if text.len() > 0 && is_space(text.last()) {
        trimmed_end(text.drop_last())
    } else {
        text
    }
}

/// The text without the spaces around it.
pub open spec fn trimmed(text: Seq<char>) -> Seq<char> {
    trimmed_end(trimmed_start(text))
}

/// `left` comes before `right` in the order of code points, character by character.
pub open spec fn text_before(left: Seq<char>, right: Seq<char>) -> bool
    decreases left.len(),
{
    if right.len() == 0 {
        false
    } else if left.len() == 0 {
        true
    } else if left[0] != right[0] {
        left[0] < right[0]
    } else {
        text_before(left.skip(1), right.skip(1))
    }
}

/// `String::push` appends one character.
pub assume_specification[ String::push ](text: &mut String, c: char)
    ensures
        final(text)@ == old(text)@.push(c),
;

/// `std::str::from_utf8`: the text that bytes encode, and nothing where they are no valid UTF-8.
#[verifier::external_body]
pub(crate) fn utf8_text(bytes: &[u8]) -> (text: Option<&str>)
    ensures
        match text {
            Some(text) => valid_utf8(bytes@) && text@ == decode_utf8(bytes@),
            None => !valid_utf8(bytes@),
        },
{
    std::str::from_utf8(bytes).ok()
}

/// The characters of a text.
pub fn chars_of(text: &str) -> (chars: Vec<char>)
    ensures
        chars@ == text@,
{
    let mut chars: Vec<char> = Vec::new();
    for c in it: text.chars()
        invariant
            chars@ =~= it.seq().take(it.index() as int),
            it.seq() == text@,
    {
        chars.push(c);
    }
    chars
}

/// The text made of the characters from `from` up to `to`.
pub fn text_of(chars: &Vec<char>, from: usize, to: usize) -> (text: String)
    requires
        from <= to <= chars.len(),
    ensures
        text@ == chars@.subrange(from as int, to as int),
{
    let mut text: String = String::new();
    let mut i: usize = from;
    while i < to
        invariant
            from <= i <= to <= chars.len(),
            text@ =~= chars@.subrange(from as int, i as int),
        decreases to - i,
    {
        text.push(chars[i]);
        i = i + 1;
    }
    text
}

/// Do two texts hold the same characters?
pub fn same_text(left: &str, right: &str) -> (same: bool)
    ensures
        same == (left@ == right@),
{
    let a: Vec<char> = chars_of(left);
    let b: Vec<char> = chars_of(right);
    if a.len() != b.len() {
        return false;
    }
    let mut i: usize = 0;
    while i < a.len()
        invariant
            a@ == left@,
            b@ == right@,
            a.len() == b.len(),
            i <= a.len(),
            forall|j: int| 0 <= j < i ==> a@[j] == b@[j],
        decreases a.len() - i,
    {
        if a[i] != b[i] {
            assert(left@[i as int] != right@[i as int]);
            return false;
        }
        i = i + 1;
    }
    assert(left@ =~= right@);
    true
}

fn chars_stand_at(hay: &Vec<char>, needle: &Vec<char>, at: usize) -> (found: bool)
    requires
        at <= hay.len(),
    ensures
        found == stands_at(hay@, needle@, at as int),
{
    if hay.len() - at < needle.len() {
        return false;
    }
    let mut i: usize = 0;
    while i < needle.len()
        invariant
            at + needle.len() <= hay.len(),
            i <= needle.len(),
            forall|j: int| 0 <= j < i ==> hay@[at + j] == needle@[j],
        decreases needle.len() - i,
    {
        if hay[at + i] != needle[i] {
            assert(hay@.subrange(at as int, at + needle@.len())[i as int] != needle@[i as int]);
            return false;
        }
        i = i + 1;
    }
    assert(hay@.subrange(at as int, at + needle@.len()) =~= needle@);
    true
}

/// The first position at which `needle` stands in `hay`.
pub fn find_text(hay: &Vec<char>, needle: &str) -> (found: Option<usize>)
    ensures
        match found {
            Some(at) => stands_at(hay@, needle@, at as int) && forall|i: int|
                0 <= i < at ==> !stands_at(hay@, needle@, i),
            None => !has_text(hay@, needle@),
        },
{
    let sought: Vec<char> = chars_of(needle);
    let mut at: usize = 0;
    loop
        invariant
            sought@ == needle@,
            at <= hay.len(),
            forall|i: int| 0 <= i < at ==> !stands_at(hay@, needle@, i),
        decreases hay.len() - at,
    {
        if chars_stand_at(hay, &sought, at) {
            return Some(at);
        }
        if at == hay.len() {
            return None;
        }
        at = at + 1;
    }
}

/// Does `needle` stand anywhere in `hay`?
pub fn contains_text(hay: &str, needle: &str) -> (found: bool)
    ensures
        found == has_text(hay@, needle@),
{
    find_text(&chars_of(hay), needle).is_some()
}

/// Does `text` begin with `prefix`?
pub fn starts_with(text: &str, prefix: &str) -> (found: bool)
    ensures
        found == begins_with(text@, prefix@),
{
    chars_stand_at(&chars_of(text), &chars_of(prefix), 0)
}

/// The text with its ASCII letters in lower case.
pub fn to_lower(text: &str) -> (lowered: String)
    ensures
        lowered@ == lower(text@),
{
    let chars: Vec<char> = chars_of(text);
    let mut lowered: String = String::new();
    let mut i: usize = 0;
    while i < chars.len()
        invariant
            chars@ == text@,
            i <= chars.len(),
            lowered@ =~= lower(text@).take(i as int),
        decreases chars.len() - i,
    {
        let c: char = chars[i];
        if 'A' <= c && c <= 'Z' {
            lowered.push(((c as u8) + 32) as char);
        } else {
            lowered.push(c);
        }
        i = i + 1;
    }
    lowered
}

fn space(c: char) -> (b: bool)
    ensures
        b == is_space(c),
{
    let n: u32 = c as u32;
    (0x09 <= n && n <= 0x0d) || n == 0x20 || n == 0x85 || n == 0xa0 || n == 0x1680 || (0x2000 <= n && n
        <= 0x200a) || n == 0x2028 || n == 0x2029 || n == 0x202f || n == 0x205f || n == 0x3000
}

/// The text without the spaces at its front.
pub fn trim_start(text: &str) -> (rest: String)
    ensures
        rest@ == trimmed_start(text@),
{
    let chars: Vec<char> = chars_of(text);
    let mut from: usize = 0;
    assert(text@.skip(0) =~= text@);
    while from < chars.len() && space(chars[from])
        invariant
            chars@ == text@,
            from <= chars.len(),
            trimmed_start(text@) == trimmed_start(text@.skip(from as int)),
        decreases chars.len() - from,
    {
        assert(text@.skip(from as int).skip(1) =~= text@.skip(from + 1));
        from = from + 1;
    }
    assert(chars@.subrange(from as int, chars@.len() as int) =~= text@.skip(from as int));
    text_of(&chars, from, chars.len())
}

/// The text without the spaces around it.
pub fn trim(text: &str) -> (rest: String)
    ensures
        rest@ == trimmed(text@),
{
    let front: String = trim_start(text);
    let chars: Vec<char> = chars_of(front.as_str());
    let mut to: usize = chars.len();
    assert(front@.take(to as int) =~= front@);
    while to > 0 && space(chars[to - 1])
        invariant
            chars@ == front@,
            to <= chars.len(),
            trimmed_end(front@) == trimmed_end(front@.take(to as int)),
        decreases to,
    {
        assert(front@.take(to as int).drop_last() =~= front@.take(to - 1));
        to = to - 1;
    }
    assert(chars@.subrange(0, to as int) =~= front@.take(to as int));
    text_of(&chars, 0, to)
}

/// Does `left` come before `right` in the order of code points?
pub fn comes_before(left: &str, right: &str) -> (before: bool)
    ensures
        before == text_before(left@, right@),
{
    let a: Vec<char> = chars_of(left);
    let b: Vec<char> = chars_of(right);
    let mut i: usize = 0;
    assert(left@.skip(0) =~= left@ && right@.skip(0) =~= right@);
    while i < a.len() && i < b.len() && a[i] == b[i]
        invariant
            a@ == left@,
            b@ == right@,
            i <= a.len(),
            i <= b.len(),
            text_before(left@, right@) == text_before(left@.skip(i as int), right@.skip(i as int)),
        decreases a.len() - i,
    {
        assert(left@.skip(i as int).skip(1) =~= left@.skip(i + 1));
        assert(right@.skip(i as int).skip(1) =~= right@.skip(i + 1));
        i = i + 1;
    }
    if i >= b.len() {
        false
    } else if i >= a.len() {
        true
    } else {
        a[i] < b[i]
    }
}

/// The order of texts is irreflexive.
pub proof fn text_order_is_irreflexive(text: Seq<char>)
    ensures
        !text_before(text, text),
    decreases text.len(),
{
    if text.len() > 0 {
        text_order_is_irreflexive(text.skip(1));
    }
}

/// The order of texts is transitive.
pub proof fn text_order_is_transitive(a: Seq<char>, b: Seq<char>, c: Seq<char>)
    requires
        text_before(a, b),
        text_before(b, c),
    ensures
        text_before(a, c),
    decreases a.len(),
{
    if a.len() > 0 && b.len() > 0 && c.len() > 0 && a[0] == b[0] && b[0] == c[0] {
        text_order_is_transitive(a.skip(1), b.skip(1), c.skip(1));
    }
}

/// Two different texts are ordered one way or the other.
pub proof fn text_order_is_total(a: Seq<char>, b: Seq<char>)
    ensures
        a == b || text_before(a, b) || text_before(b, a),
    decreases a.len(),
{
    if a.len() == 0 || b.len() == 0 {
        if a.len() == b.len() {
            assert(a =~= b);
        }
    } else if a[0] == b[0] {
        text_order_is_total(a.skip(1), b.skip(1));
        if a.skip(1) == b.skip(1) {
            assert(a =~= seq![a[0]] + a.skip(1));
            assert(b =~= seq![b[0]] + b.skip(1));
        }
    }
}

/// The value of decimal digits.
pub open spec fn digits_value(digits: Seq<char>) -> nat
    decreases digits.len(),
{
    if digits.len() == 0 {
        0
    } else {
        digits_value(digits.drop_last()) * 10 + (digits.last() as nat - '0' as nat) as nat
    }
}

/// Is this a decimal digit?
pub open spec fn is_digit(c: char) -> bool {
    '0' <= c && c <= '9'
}

/// Digits, with a plus sign before them or not.
pub open spec fn unsigned_digits(text: Seq<char>) -> Seq<char> {
    if text.len() > 0 && text[0] == '+' {
        text.skip(1)
    } else {
        text
    }
}

/// The unsigned number that a text stands for; nothing where it is no number of 64 bits.
pub open spec fn parsed_u64(text: Seq<char>) -> Option<u64> {
    let digits = unsigned_digits(text);
    if digits.len() > 0 && (forall|i: int| 0 <= i < digits.len() ==> is_digit(#[trigger] digits[i]))
        && digits_value(digits) <= u64::MAX {
        Some(digits_value(digits) as u64)
    } else {
        None
    }
}

/// More digits do not make a number smaller.
proof fn lemma_more_digits(digits: Seq<char>, to: int)
    requires
        0 <= to <= digits.len(),
        forall|i: int| 0 <= i < digits.len() ==> is_digit(#[trigger] digits[i]),
    ensures
        digits_value(digits.take(to)) <= digits_value(digits),
    decreases digits.len(),
{
    if to < digits.len() {
        lemma_more_digits(digits.drop_last(), to);
        assert(digits.drop_last().take(to) =~= digits.take(to));
    } else {
        assert(digits.take(to) =~= digits);
    }
}

/// The unsigned number that a text stands for; nothing where it is no number of 64 bits.
pub fn parse_u64(text: &str) -> (value: Option<u64>)
    ensures
        value == parsed_u64(text@),
{
    let chars: Vec<char> = chars_of(text);
    let start: usize = if chars.len() > 0 && chars[0] == '+' {
        1
    } else {
        0
    };
    let ghost digits = unsigned_digits(text@);
    assert(digits =~= chars@.skip(start as int));
    if start == chars.len() {
        return None;
    }
    let mut value: u64 = 0;
    let mut i: usize = start;
    while i < chars.len()
        invariant
            start <= i <= chars.len(),
            chars@ == text@,
            digits == unsigned_digits(text@),
            digits == chars@.skip(start as int),
            forall|j: int| 0 <= j < i - start ==> is_digit(#[trigger] digits[j]),
            value == digits_value(digits.take(i - start)),
        decreases chars.len() - i,
    {
        let c: char = chars[i];
        assert(digits[i - start] == c);
        if !('0' <= c && c <= '9') {
            assert(!is_digit(digits[i - start]));
            return None;
        }
        let digit: u64 = (c as u64) - ('0' as u64);
        assert(digits.take(i - start + 1).drop_last() =~= digits.take(i - start));
        assert(digits_value(digits.take(i - start + 1)) == value * 10 + digit);
        let next: Option<u64> = match value.checked_mul(10) {
            Some(tens) => tens.checked_add(digit),
            None => None,
        };
        match next {
            Some(n) => {
                value = n;
            },
            None => {
                proof {
                    if forall|j: int| 0 <= j < digits.len() ==> is_digit(#[trigger] digits[j]) {
                        lemma_more_digits(digits, i - start + 1);
                    }
                }
                return None;
            },
        }
        i = i + 1;
    }
    assert(digits.take(i - start) =~= digits);
    Some(value)
}

/// The first position from `from` on at which `needle` stands in `hay`.
pub open spec fn first_match(hay: Seq<char>, needle: Seq<char>, from: int) -> Option<int>
    decreases hay.len() + 1 - from,
{
    if from < 0 || from > hay.len() {
        None
    } else if stands_at(hay, needle, from) {
        Some(from)
    } else {
        first_match(hay, needle, from + 1)
    }
}

/// What follows the first `needle` in `hay`.
pub open spec fn text_after(hay: Seq<char>, needle: Seq<char>) -> Option<Seq<char>> {
    match first_match(hay, needle, 0) {
        Some(at) => Some(hay.skip(at + needle.len())),
        None => None,
    }
}

/// A position before which `needle` does not stand is the first at which it does.
proof fn lemma_first_match(hay: Seq<char>, needle: Seq<char>, from: int, at: int)
    requires
        0 <= from <= at <= hay.len(),
        stands_at(hay, needle, at),
        forall|i: int| from <= i < at ==> !stands_at(hay, needle, i),
    ensures
        first_match(hay, needle, from) == Some(at),
    decreases at - from,
{
    if from < at {
        lemma_first_match(hay, needle, from + 1, at);
    }
}

/// Where `needle` stands nowhere there is no first position.
proof fn lemma_no_match(hay: Seq<char>, needle: Seq<char>, from: int)
    requires
        0 <= from <= hay.len() + 1,
        !has_text(hay, needle),
    ensures
        first_match(hay, needle, from) is None,
    decreases hay.len() + 1 - from,
{
    if from <= hay.len() {
        assert(!stands_at(hay, needle, from));
        lemma_no_match(hay, needle, from + 1);
    }
}

/// What follows the first `needle` in `text`.
pub fn after_text(text: &str, needle: &str) -> (rest: Option<String>)
    ensures
        (match rest {
            Some(rest) => Some(rest@),
            None => None,
        }) == text_after(text@, needle@),
{
    let chars: Vec<char> = chars_of(text);
    match find_text(&chars, needle) {
        Some(at) => {
            proof {
                lemma_first_match(text@, needle@, 0, at as int);
            }
            let skipped: Vec<char> = chars_of(needle);
            let total: usize = chars.len();
            assert(at + skipped@.len() <= total);
            let from: usize = at + skipped.len();
            assert(chars@.subrange(from as int, chars@.len() as int) =~= text@.skip(
                at + needle@.len(),
            ));
            Some(text_of(&chars, from, total))
        },
        None => {
            proof {
                lemma_no_match(text@, needle@, 0);
            }
            None
        },
    }
}

/// Is this a character of a decimal number?
pub open spec fn is_number_char(c: char) -> bool {
    is_digit(c) || c == '.'
}

/// How many characters at the front make a decimal number.
pub open spec fn number_length(text: Seq<char>) -> nat
    decreases text.len(),
{
    if text.len() > 0 && is_number_char(text[0]) {
        1 + number_length(text.skip(1))
    } else {
        0
    }
}

/// Splits a text behind the decimal number at its front.
pub fn split_number(text: &str) -> (parts: (String, String))
    ensures
        number_length(text@) <= text@.len(),
        parts.0@ == text@.take(number_length(text@) as int),
        parts.1@ == text@.skip(number_length(text@) as int),
{
    let chars: Vec<char> = chars_of(text);
    let mut n: usize = 0;
    assert(text@.skip(0) =~= text@);
    while n < chars.len() && (('0' <= chars[n] && chars[n] <= '9') || chars[n] == '.')
        invariant
            chars@ == text@,
            n <= chars.len(),
            number_length(text@) == n + number_length(text@.skip(n as int)),
        decreases chars.len() - n,
    {
        assert(text@.skip(n as int).skip(1) =~= text@.skip(n + 1));
        n = n + 1;
    }
    assert(chars@.subrange(0, n as int) =~= text@.take(n as int));
    assert(chars@.subrange(n as int, chars@.len() as int) =~= text@.skip(n as int));
    (text_of(&chars, 0, n), text_of(&chars, n, chars.len()))
}

/// A number in decimal digits, without leading zeros.
pub open spec fn decimal(n: nat) -> Seq<char>
    decreases n,
{
    let digit = (n % 10 + '0' as nat) as char;
    if n < 10 {
        seq![digit]
    } else {
        decimal(n / 10).push(digit)
    }
}

/// A number in decimal digits, with a minus sign where it is negative.
pub open spec fn signed_decimal(n: int) -> Seq<char> {
    if n < 0 {
        seq!['-'] + decimal((-n) as nat)
    } else {
        decimal(n as nat)
    }
}

/// A number in decimal digits.
pub fn decimal_text(n: u128) -> (text: String)
    ensures
        text@ == decimal(n as nat),
    decreases n,
{
    let digit: char = ((n % 10) as u8 + 48) as char;
    let mut text: String = if n < 10 {
        String::new()
    } else {
        decimal_text(n / 10)
    };
    text.push(digit);
    assert(n < 10 ==> text@ =~= seq![digit]);
    text
}

/// A number in decimal digits, with a minus sign where it is negative.
pub fn signed_decimal_text(n: i64) -> (text: String)
    ensures
        text@ == signed_decimal(n as int),
{
    if n < 0 {
        let mut text: String = String::new();
        text.push('-');
        let digits: String = decimal_text((-(n as i128)) as u128);
        text.append(digits.as_str());
        assert(text@ =~= seq!['-'] + decimal((-(n as int)) as nat));
        text
    } else {
        decimal_text(n as u128)
    }
}

/// What stands behind a prefix.
pub open spec fn rest_behind(text: Seq<char>, prefix: Seq<char>) -> Seq<char> {
    text.skip(prefix.len() as int)
}

/// What stands behind a prefix; nothing where the text does not begin with it.
pub fn after_prefix(text: &str, prefix: &str) -> (rest: Option<String>)
    ensures
        match rest {
            Some(rest) => begins_with(text@, prefix@) && rest@ == rest_behind(text@, prefix@),
            None => !begins_with(text@, prefix@),
        },
{
    if starts_with(text, prefix) {
        let chars: Vec<char> = chars_of(text);
        let front: Vec<char> = chars_of(prefix);
        let rest: String = text_of(&chars, front.len(), chars.len());
        assert(rest@ =~= rest_behind(text@, prefix@));
        Some(rest)
    } else {
        None
    }
}

}
