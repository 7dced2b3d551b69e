//! What holds of texts.
use crate::text::{
    begins_with, decimal, digits_value, first_match, has_text, is_digit, is_space,
    lower, number_length, parsed_u64, signed_decimal, stands_at, text_after, text_before, trimmed,
    trimmed_end, trimmed_start, unsigned_digits,
};
use vstd::prelude::*;

verus! {

/// A text is found wherever it stands, and stands wherever it is found.
pub proof fn found_texts_stand_somewhere(
    front: Seq<char>,
    needle: Seq<char>,
    back: Seq<char>,
    hay: Seq<char>,
)
    ensures
        has_text(front + needle + back, needle),
        begins_with(needle + back, needle),
        has_text(hay, needle) ==> exists|a: Seq<char>, b: Seq<char>| hay == #[trigger] (a + needle + b),
{
    assert((front + needle + back).subrange(
        front.len() as int,
        (front.len() + needle.len()) as int,
    ) =~= needle);
    assert(stands_at(front + needle + back, needle, front.len() as int));
    assert((needle + back).subrange(0, needle.len() as int) =~= needle);
    if has_text(hay, needle) {
        let at = choose|at: int| stands_at(hay, needle, at);
        let a = hay.take(at);
        let b = hay.skip(at + needle.len());
        assert(hay =~= a + hay.subrange(at, at + needle.len()) + b);
        assert(hay == a + needle + b);
    }
}

/// Lower case holds no capital letter, and every other character stays.
pub proof fn lower_case_has_no_capitals(text: Seq<char>, i: int)
    requires
        0 <= i < text.len(),
    ensures
        lower(text).len() == text.len(),
        !('A' <= lower(text)[i] && lower(text)[i] <= 'Z'),
        !('A' <= text[i] && text[i] <= 'Z') ==> lower(text)[i] == text[i],
        'A' <= text[i] && text[i] <= 'Z' ==> lower(text)[i] as int == text[i] as int + 32,
{
}

proof fn lemma_decimal(n: nat)
    ensures
        decimal(n).len() > 0,
        forall|i: int| 0 <= i < decimal(n).len() ==> is_digit(#[trigger] decimal(n)[i]),
        digits_value(decimal(n)) == n,
    decreases n,
{
    let digit = (n % 10 + '0' as nat) as char;
    assert(is_digit(digit));
    if n < 10 {
        assert(decimal(n) =~= seq![digit]);
        assert(decimal(n).drop_last() =~= Seq::<char>::empty());
        assert(digits_value(Seq::<char>::empty()) == 0);
    } else {
        lemma_decimal(n / 10);
        assert(decimal(n).drop_last() =~= decimal(n / 10));
    }
}

/// A number that is written in digits is read back as that number.
pub proof fn numbers_are_read_back(n: u64)
    ensures
        parsed_u64(decimal(n as nat)) == Some(n),
{
    lemma_decimal(n as nat);
    assert(is_digit(decimal(n as nat)[0]));
    assert(unsigned_digits(decimal(n as nat)) == decimal(n as nat));
}

/// Two numbers are not written alike.
pub proof fn numbers_are_written_apart(a: nat, b: nat)
    requires
        decimal(a) == decimal(b),
    ensures
        a == b,
{
    lemma_decimal(a);
    lemma_decimal(b);
}

/// A number below zero is written with a sign before it.
pub proof fn signs_stand_in_front(n: int)
    ensures
        n >= 0 ==> signed_decimal(n) == decimal(n as nat),
        n < 0 ==> signed_decimal(n)[0] == '-' && signed_decimal(n).skip(1) == decimal((-n) as nat),
{
    if n < 0 {
        assert(signed_decimal(n).skip(1) =~= decimal((-n) as nat));
    }
}

/// What is read as a number holds nothing but digits behind at most one sign.
pub proof fn only_digits_are_numbers(text: Seq<char>, i: int)
    requires
        parsed_u64(text) is Some,
        0 <= i < text.len(),
    ensures
        ('0' <= text[i] && text[i] <= '9') || (i == 0 && text[i] == '+'),
{
    let digits = unsigned_digits(text);
    if text[0] == '+' {
        if i > 0 {
            assert(digits[i - 1] == text[i]);
            assert(is_digit(digits[i - 1]));
        }
    } else {
        assert(is_digit(digits[i]));
    }
}

/// Spaces, tabs and line ends are spaces; what can be seen of ASCII is none.
pub proof fn visible_characters_are_no_spaces(c: char)
    ensures
        c == ' ' || c == '\t' || c == '\n' || c == '\r' ==> is_space(c),
        '!' <= c && c <= '~' ==> !is_space(c),
{
}

proof fn lemma_trimmed_start(text: Seq<char>)
    ensures
        trimmed_start(text).len() <= text.len(),
        trimmed_start(text) == text.skip(text.len() - trimmed_start(text).len()),
        trimmed_start(text).len() > 0 ==> !is_space(trimmed_start(text)[0]),
        forall|i: int|
            0 <= i < text.len() - trimmed_start(text).len() ==> is_space(#[trigger] text[i]),
    decreases text.len(),
{
    if text.len() > 0 && is_space(text[0]) {
        let rest = text.skip(1);
        lemma_trimmed_start(rest);
        let n = rest.len() - trimmed_start(rest).len();
        assert(rest.skip(n) =~= text.skip(n + 1));
        assert forall|i: int| 0 <= i < n + 1 implies is_space(#[trigger] text[i]) by {
            if i > 0 {
                assert(rest[i - 1] == text[i]);
            }
        }
    } else {
        assert(text.skip(0) =~= text);
    }
}

proof fn lemma_trimmed_end(text: Seq<char>)
    ensures
        trimmed_end(text).len() <= text.len(),
        trimmed_end(text) == text.take(trimmed_end(text).len() as int),
        trimmed_end(text).len() > 0 ==> !is_space(trimmed_end(text).last()),
        forall|i: int| trimmed_end(text).len() <= i < text.len() ==> is_space(#[trigger] text[i]),
    decreases text.len(),
{
    if text.len() > 0 && is_space(text.last()) {
        let rest = text.drop_last();
        lemma_trimmed_end(rest);
        assert(rest.take(trimmed_end(rest).len() as int) =~= text.take(
            trimmed_end(rest).len() as int,
        ));
        assert forall|i: int| trimmed_end(rest).len() <= i < text.len() implies is_space(
            #[trigger] text[i],
        ) by {
            if i < rest.len() {
                assert(rest[i] == text[i]);
            }
        }
    } else {
        assert(text.take(text.len() as int) =~= text);
    }
}

/// Trimming takes spaces off both ends, and nothing else: what is left neither begins nor ends with
/// one, and what was taken off was all spaces.
pub proof fn trimming_takes_spaces_off(text: Seq<char>)
    ensures
        trimmed(text).len() > 0 ==> !is_space(trimmed(text)[0]) && !is_space(trimmed(text).last()),
        exists|from: int, to: int|
            {
                &&& 0 <= from <= to <= text.len()
                &&& trimmed(text) == #[trigger] text.subrange(from, to)
                &&& forall|i: int|
                    0 <= i < from || to <= i < text.len() ==> is_space(#[trigger] text[i])
            },
{
    lemma_trimmed_start(text);
    let front = trimmed_start(text);
    lemma_trimmed_end(front);
    let from = text.len() - front.len();
    let to = from + trimmed(text).len();
    assert(text.subrange(from, to) =~= trimmed(text));
    assert forall|i: int| 0 <= i < from || to <= i < text.len() implies is_space(
        #[trigger] text[i],
    ) by {
        if i >= to {
            assert(front[i - from] == text[i]);
        }
    }
    if trimmed(text).len() > 0 {
        assert(trimmed(text)[0] == front[0]);
    }
}

/// A text without spaces at its ends stays as it is.
pub proof fn trimmed_texts_stay(text: Seq<char>)
    requires
        text.len() > 0 ==> !is_space(text[0]) && !is_space(text.last()),
    ensures
        trimmed(text) == text,
{
}

proof fn lemma_first_of(hay: Seq<char>, needle: Seq<char>, from: int, at: int)
    requires
        0 <= from <= at,
        stands_at(hay, needle, at),
        forall|i: int| from <= i < at ==> !stands_at(hay, needle, i),
    ensures
        first_match(hay, needle, from) == Some(at),
    decreases at - from,
{
    if from < at {
        lemma_first_of(hay, needle, from + 1, at);
    }
}

/// What stands behind a text is what follows the first place where it stands.
pub proof fn texts_are_cut_behind_the_first_place(
    front: Seq<char>,
    needle: Seq<char>,
    back: Seq<char>,
)
    requires
        forall|i: int| 0 <= i < front.len() ==> !stands_at(front + needle + back, needle, i),
    ensures
        text_after(front + needle + back, needle) == Some(back),
{
    let hay = front + needle + back;
    let at = front.len() as int;
    assert(hay.subrange(at, at + needle.len()) =~= needle);
    lemma_first_of(hay, needle, 0, at);
    assert(hay.skip(at + needle.len()) =~= back);
}

/// A text that is found nowhere has nothing behind it.
pub proof fn missing_texts_have_nothing_behind(hay: Seq<char>, needle: Seq<char>)
    ensures
        text_after(hay, needle) is Some <==> has_text(hay, needle),
{
    if has_text(hay, needle) {
        let at = choose|at: int| stands_at(hay, needle, at);
        lemma_some_place(hay, needle, 0, at);
    } else {
        lemma_no_place(hay, needle, 0);
    }
}

proof fn lemma_some_place(hay: Seq<char>, needle: Seq<char>, from: int, at: int)
    requires
        0 <= from <= at,
        stands_at(hay, needle, at),
    ensures
        first_match(hay, needle, from) is Some,
    decreases at - from,
{
    if !stands_at(hay, needle, from) {
        lemma_some_place(hay, needle, from + 1, at);
    }
}

proof fn lemma_no_place(hay: Seq<char>, needle: Seq<char>, from: int)
    requires
        !has_text(hay, needle),
    ensures
        first_match(hay, needle, from) is None,
    decreases hay.len() + 1 - from,
{
    if 0 <= from <= hay.len() {
        lemma_no_place(hay, needle, from + 1);
    }
}

/// A number reaches as far as its digits and points.
pub proof fn numbers_end_behind_their_digits(amount: Seq<char>, rest: Seq<char>)
    requires
        forall|i: int|
            0 <= i < amount.len() ==> ('0' <= #[trigger] amount[i] && amount[i] <= '9') || amount[i]
                == '.',
        rest.len() > 0 ==> !('0' <= rest[0] && rest[0] <= '9') && rest[0] != '.',
    ensures
        number_length(amount + rest) == amount.len(),
    decreases amount.len(),
{
    let text = amount + rest;
    if amount.len() == 0 {
        assert(text =~= rest);
    } else {
        assert(text[0] == amount[0]);
        assert(text.skip(1) =~= amount.skip(1) + rest);
        assert forall|i: int| 0 <= i < amount.skip(1).len() implies ('0' <= #[trigger] amount.skip(
            1,
        )[i] && amount.skip(1)[i] <= '9') || amount.skip(1)[i] == '.' by {
            assert(amount.skip(1)[i] == amount[i + 1]);
        }
        numbers_end_behind_their_digits(amount.skip(1), rest);
    }
}

/// Of two texts the one goes first whose first different character is the smaller one, or which the
/// other goes on from.
pub proof fn smaller_characters_go_first(
    front: Seq<char>,
    a: char,
    b: char,
    rest: Seq<char>,
    other: Seq<char>,
)
    requires
        a < b,
    ensures
        text_before(front + seq![a] + rest, front + seq![b] + other),
        !text_before(front + seq![b] + other, front + seq![a] + rest),
        text_before(front, front + seq![a]),
    decreases front.len(),
{
    let left = front + seq![a] + rest;
    let right = front + seq![b] + other;
    if front.len() > 0 {
        let less = front.skip(1);
        smaller_characters_go_first(less, a, b, rest, other);
        assert(left.skip(1) =~= less + seq![a] + rest);
        assert(right.skip(1) =~= less + seq![b] + other);
        assert((front + seq![a]).skip(1) =~= less + seq![a]);
        assert(left[0] == front[0] && right[0] == front[0] && (front + seq![a])[0] == front[0]);
    } else {
        assert(left[0] == a && right[0] == b);
    }
}

}
