//! Reading a retrieval index from a line of text.

use crate::error::PirError;
use vstd::prelude::*;
use vstd::string::*;

verus! {

/// The characters that count as white space at the ends of a line.
pub open spec fn is_space(c: char) -> bool {
    ||| '\u{9}' <= c <= '\u{d}'
    ||| c == ' '
    ||| c == '\u{85}'
    ||| c == '\u{a0}'
    ||| c == '\u{1680}'
    ||| '\u{2000}' <= c <= '\u{200a}'
    ||| c == '\u{2028}'
    ||| c == '\u{2029}'
    ||| c == '\u{202f}'
    ||| c == '\u{205f}'
    ||| c == '\u{3000}'
}

/// The first position from `from` on that holds no white space, or the
/// length where there is none.
pub open spec fn body_start(text: Seq<char>, from: int) -> int
    decreases text.len() - from,
{
    if 0 <= from < text.len() && is_space(text[from]) {
        body_start(text, from + 1)
    } else {
        from
    }
}

/// The position after the last character before `to` that is no white
/// space, looking no further back than `start`.
pub open spec fn body_end(text: Seq<char>, start: int, to: int) -> int
    decreases to,
{
    if 0 <= start < to <= text.len() && is_space(text[to - 1]) {
        body_end(text, start, to - 1)
    } else {
        to
    }
}

/// The text without the white space at its two ends.
pub open spec fn trimmed(text: Seq<char>) -> Seq<char> {
    let start = body_start(text, 0);
    text.subrange(start, body_end(text, start, text.len() as int))
}

/// The text without a plus sign in front, where it has one.
pub open spec fn unsigned(text: Seq<char>) -> Seq<char> {
    if text.len() > 0 && text[0] == '+' {
        text.subrange(1, text.len() as int)
    } else {
        text
    }
}

/// The text is a decimal digit.
pub open spec fn is_digit(c: char) -> bool {
    '0' <= c <= '9'
}

/// The text is one decimal digit or more and nothing else.
pub open spec fn is_number(text: Seq<char>) -> bool {
    text.len() > 0 && forall|i: int| 0 <= i < text.len() ==> is_digit(#[trigger] text[i])
}

/// The number that the first `count` digits of the text spell.
pub open spec fn number(text: Seq<char>, count: nat) -> nat
    decreases count,
{
    if count == 0 {
        0
    } else {
        (number(text, (count - 1) as nat) * 10 + (text[count - 1] as nat - '0' as nat)) as nat
    }
}

/// The index that a line of text gives: white space at the ends and one
/// plus sign in front are passed over, what is left has to be a decimal
/// number that fits the machine's word.
pub open spec fn index_in(text: Seq<char>) -> Option<usize> {
    let digits = unsigned(trimmed(text));
    if is_number(digits) && number(digits, digits.len()) <= usize::MAX {
        Some(number(digits, digits.len()) as usize)
    } else {
        None
    }
}

/// A longer run of digits spells no smaller number.
pub proof fn lemma_number_grows(text: Seq<char>, shorter: nat, longer: nat)
    requires
        shorter <= longer <= text.len(),
        is_number(text),
    ensures
        number(text, shorter) <= number(text, longer),
    decreases longer,
{
    if shorter < longer {
        lemma_number_grows(text, shorter, (longer - 1) as nat);
        assert(is_digit(text[longer - 1]));
    }
}

fn white_space(c: char) -> (r: bool)
    ensures
        r == is_space(c),
{
    ('\u{9}' <= c && c <= '\u{d}') || c == ' ' || c == '\u{85}' || c == '\u{a0}' || c == '\u{1680}'
        || ('\u{2000}' <= c && c <= '\u{200a}') || c == '\u{2028}' || c == '\u{2029}' || c
        == '\u{202f}' || c == '\u{205f}' || c == '\u{3000}'
}

/// Reads the retrieval index out of a line of text, or reports `Input`
/// where the line holds none.
pub fn parse_index(line: &str) -> (r: Result<usize, PirError>)
    ensures
        r == match index_in(line@) {
            Some(index) => Ok::<usize, PirError>(index),
            None => Err(PirError::Input),
        },
{
    let length = line.unicode_len();
    let mut start: usize = 0;
    while start < length && white_space(line.get_char(start))
        invariant
            start <= length,
            length == line@.len(),
            body_start(line@, 0) == body_start(line@, start as int),
        decreases length - start,
    {
        start += 1;
    }
    let mut end: usize = length;
    while end > start && white_space(line.get_char(end - 1))
        invariant
            start <= end <= length,
            length == line@.len(),
            body_end(line@, start as int, length as int) == body_end(line@, start as int, end as int),
        decreases end,
    {
        end -= 1;
    }
    assert(trimmed(line@) == line@.subrange(start as int, end as int));
    if start < end && line.get_char(start) == '+' {
        start += 1;
    }
    let ghost digits = line@.subrange(start as int, end as int);
    assert(digits =~= unsigned(trimmed(line@)));
    if start == end {
        return Err(PirError::Input);
    }
    let mut value: usize = 0;
    let mut at: usize = start;
    while at < end
        invariant
            start <= at <= end <= length,
            length == line@.len(),
            digits == line@.subrange(start as int, end as int),
            digits == unsigned(trimmed(line@)),
            forall|i: int| 0 <= i < at - start ==> is_digit(#[trigger] digits[i]),
            value == number(digits, (at - start) as nat),
        decreases end - at,
    {
        let c = line.get_char(at);
        assert(c == digits[at - start]);
        if !('0' <= c && c <= '9') {
            assert(!is_digit(digits[at - start]));
            return Err(PirError::Input);
        }
        let digit = (c as u32 - '0' as u32) as usize;
        let ghost next = number(digits, (at - start + 1) as nat);
        assert(next == value * 10 + digit);
        if value > (usize::MAX - digit) / 10 {
            proof {
                assert(next > usize::MAX);
                if is_number(digits) {
                    lemma_number_grows(digits, (at - start + 1) as nat, digits.len());
                }
            }
            return Err(PirError::Input);
        }
        value = value * 10 + digit;
        at += 1;
    }
    Ok(value)
}

} // verus!
