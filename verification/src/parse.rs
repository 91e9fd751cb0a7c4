//! Reading a time of day from its written form, `hh:mm`.
//!
//! The text must hold exactly one colon. What stands before it is the hour
//! and what stands after it the minute, each written as a numeral: an
//! optional plus sign and then one or more of the digits 0 to 9. A numeral
//! may be as long as it likes; its value decides whether the time is in
//! range.

use crate::error::TimeError;
use crate::text::{chars_of, joined};
use crate::time::{ParsedTime, Time24};
use easy_shortcuts::traits::ToVec;
use vstd::prelude::*;

verus! {

/// One of the digits 0 to 9.
pub open spec fn is_digit(c: char) -> bool {
    '0' <= c <= '9'
}

/// The number that a digit stands for.
pub open spec fn digit_value(c: char) -> nat {
    (c as u32 - '0' as u32) as nat
}

/// The number that a run of digits stands for, read in base ten.
pub open spec fn digits_value(s: Seq<char>) -> nat
    decreases s.len(),
{
    if s.len() == 0 {
        0
    } else {
        10 * digits_value(s.drop_last()) + digit_value(s.last())
    }
}

/// The digits of a numeral: all of it but a plus sign at the front.
pub open spec fn numeral_digits(s: Seq<char>) -> Seq<char> {
    if s.len() > 0 && s[0] == '+' {
        s.drop_first()
    } else {
        s
    }
}

/// Whether `s` is a numeral: an optional plus sign, then at least one
/// digit and nothing but digits.
pub open spec fn is_numeral(s: Seq<char>) -> bool {
    let d = numeral_digits(s);
    &&& d.len() > 0
    &&& forall|i: int| 0 <= i < d.len() ==> is_digit(#[trigger] d[i])
}

/// The number that a numeral stands for.
pub open spec fn numeral_value(s: Seq<char>) -> nat {
    digits_value(numeral_digits(s))
}

/// How often `c` occurs in `s`.
pub open spec fn occurrences(s: Seq<char>, c: char) -> nat
    decreases s.len(),
{
    if s.len() == 0 {
        0
    } else {
        occurrences(s.drop_last(), c) + if s.last() == c {
            1nat
        } else {
            0nat
        }
    }
}

/// How many characters stand before the first `c` in `s`; the length of
/// `s` where there is none.
pub open spec fn position(s: Seq<char>, c: char) -> nat
    decreases s.len(),
{
    if s.len() == 0 || s[0] == c {
        0
    } else {
        1 + position(s.drop_first(), c)
    }
}

/// What stands before the first colon.
pub open spec fn hour_text(s: Seq<char>) -> Seq<char> {
    s.take(position(s, ':') as int)
}

/// What stands after the first colon.
pub open spec fn minute_text(s: Seq<char>) -> Seq<char> {
    s.skip(position(s, ':') as int + 1)
}

/// The time that a text stands for, or the reason why it stands for none.
pub open spec fn parsed(s: Seq<char>) -> Result<Time24, TimeError> {
    if occurrences(s, ':') != 1 {
        Err(TimeError::InvalidFormat)
    } else if !is_numeral(hour_text(s)) || !is_numeral(minute_text(s)) {
        Err(TimeError::InvalidFormat)
    } else {
        let t = Time24 { hour: numeral_value(hour_text(s)), minute: numeral_value(minute_text(s)) };
        if t.valid() {
            Ok(t)
        } else {
            Err(TimeError::OutOfRange)
        }
    }
}

/// Whether `parts` are the pieces into which `delim` cuts `text`: there is
/// at least one piece, no piece holds the delimiter, and the pieces with
/// the delimiter between them give the text back.
pub open spec fn is_split(parts: Seq<Seq<char>>, delim: char, text: Seq<char>) -> bool {
    &&& parts.len() >= 1
    &&& forall|i: int| 0 <= i < parts.len() ==> !(#[trigger] parts[i]).contains(delim)
    &&& joined(parts, delim) == text
}

/// Occurrences add up over the two halves of a text.
pub proof fn lemma_occurrences_concat(a: Seq<char>, b: Seq<char>, c: char)
    ensures
        occurrences(a + b, c) == occurrences(a, c) + occurrences(b, c),
    decreases b.len(),
{
    if b.len() == 0 {
        assert(a + b =~= a);
    } else {
        assert((a + b).drop_last() =~= a + b.drop_last());
        lemma_occurrences_concat(a, b.drop_last(), c);
    }
}

/// A character that a text does not hold occurs in it no times.
pub proof fn lemma_occurrences_absent(s: Seq<char>, c: char)
    requires
        !s.contains(c),
    ensures
        occurrences(s, c) == 0,
    decreases s.len(),
{
    if s.len() > 0 {
        assert(s[s.len() - 1] != c);
        let front = s.drop_last();
        assert forall|i: int| 0 <= i < front.len() implies front[i] != c by {
            assert(front[i] == s[i]);
        }
        lemma_occurrences_absent(front, c);
    }
}

/// A text cut into pieces holds the delimiter once less than there are
/// pieces.
pub proof fn lemma_split_count(parts: Seq<Seq<char>>, delim: char, text: Seq<char>)
    requires
        is_split(parts, delim, text),
    ensures
        occurrences(text, delim) == parts.len() - 1,
    decreases parts.len(),
{
    lemma_occurrences_absent(parts[0], delim);
    if parts.len() > 1 {
        let rest = parts.drop_first();
        let tail = joined(rest, delim);
        assert forall|i: int| 0 <= i < rest.len() implies !(#[trigger] rest[i]).contains(
            delim,
        ) by {
            assert(rest[i] == parts[i + 1]);
        }
        lemma_split_count(rest, delim, tail);
        lemma_occurrences_concat(parts[0], seq![delim], delim);
        lemma_occurrences_concat(parts[0] + seq![delim], tail, delim);
        assert(occurrences(seq![delim], delim) == 1) by {
            assert(seq![delim].drop_last() =~= Seq::<char>::empty());
            assert(occurrences(Seq::<char>::empty(), delim) == 0);
        }
    }
}

/// A run of `k` characters other than `c` that stops at a `c` or at the
/// end is what stands before the first `c`.
pub proof fn lemma_position_is(s: Seq<char>, c: char, k: int)
    requires
        0 <= k <= s.len(),
        forall|i: int| 0 <= i < k ==> s[i] != c,
        k < s.len() ==> s[k] == c,
    ensures
        position(s, c) == k,
    decreases k,
{
    if k > 0 {
        let rest = s.drop_first();
        assert forall|i: int| 0 <= i < k - 1 implies rest[i] != c by {
            assert(rest[i] == s[i + 1]);
        }
        lemma_position_is(rest, c, k - 1);
    }
}

/// Where a colon cuts a text into two pieces, the first is the hour's
/// text and the second the minute's.
pub proof fn lemma_two_fields(parts: Seq<Seq<char>>, text: Seq<char>)
    requires
        is_split(parts, ':', text),
        parts.len() == 2,
    ensures
        hour_text(text) == parts[0],
        minute_text(text) == parts[1],
{
    let rest = parts.drop_first();
    assert(rest[0] == parts[1]);
    assert(joined(rest, ':') == parts[1]);
    assert(text == parts[0] + seq![':'] + parts[1]);
    let k = parts[0].len() as int;
    assert forall|i: int| 0 <= i < k implies text[i] != ':' by {
        assert(text[i] == parts[0][i]);
    }
    assert(text[k] == ':');
    lemma_position_is(text, ':', k);
    assert(text.take(k) =~= parts[0]);
    assert(text.skip(k + 1) =~= parts[1]);
}

/// Reads a numeral. The result is `None` where `text` is no numeral, and
/// else its value, or `u32::MAX` where the value is larger than that.
pub fn parse_number(text: &str) -> (r: Option<u32>)
    ensures
        r is Some <==> is_numeral(text@),
        r matches Some(v) ==> v == if numeral_value(text@) <= u32::MAX {
            numeral_value(text@)
        } else {
            u32::MAX as nat
        },
{
    let chars = chars_of(text);
    let n: usize = chars.len();
    let start: usize = if n > 0 && chars[0] == '+' {
        1
    } else {
        0
    };
    let ghost digits = numeral_digits(text@);
    assert(digits =~= text@.skip(start as int));
    if start == n {
        return None;
    }
    let mut value: u32 = 0;
    let mut i: usize = start;
    while i < n
        invariant
            chars@ == text@,
            n == text@.len(),
            start <= i <= n,
            digits == numeral_digits(text@),
            digits == text@.skip(start as int),
            forall|k: int| 0 <= k < i - start ==> is_digit(#[trigger] digits[k]),
            value == if digits_value(digits.take(i - start)) <= u32::MAX {
                digits_value(digits.take(i - start))
            } else {
                u32::MAX as nat
            },
        decreases n - i,
    {
        let c: char = chars[i];
        assert(digits[i - start] == c);
        if !('0' <= c && c <= '9') {
            return None;
        }
        let d: u32 = c as u32 - '0' as u32;
        proof {
            let longer = digits.take(i - start + 1);
            assert(longer.drop_last() =~= digits.take(i - start));
            assert(longer.last() == c);
        }
        value = match value.checked_mul(10) {
            Some(tenfold) => match tenfold.checked_add(d) {
                Some(sum) => sum,
                None => u32::MAX,
            },
            None => u32::MAX,
        };
        i += 1;
    }
    assert(digits.take(n - start) =~= digits);
    Some(value)
}

/// The pieces of `text` between its colons: `str::split` cuts the text at
/// each colon, and `ToVec::to_vec` of easy_shortcuts collects what the
/// iterator gives, in its order. No piece holds a colon, a text without a
/// colon is its own single piece, and an empty piece stands wherever a
/// colon is first, last or next to another.
#[verifier::external_body]
fn colon_fields<'a>(text: &'a str) -> (fields: Vec<&'a str>)
    ensures
        is_split(fields.deep_view(), ':', text@),
{
    text.split(':').to_vec()
}

/// Reads a time of day written as `hh:mm`.
///
/// The result is `InvalidFormat` unless the text is two numerals with one
/// colon between them, `OutOfRange` where it is but the hour is above 23 or
/// the minute above 59, and else the time.
pub fn parse_time(time: &str) -> (r: Result<ParsedTime, TimeError>)
    ensures
        match parsed(time@) {
            Ok(t) => r is Ok && r->Ok_0@ == t,
            Err(e) => r == Err::<ParsedTime, TimeError>(e),
        },
{
    let fields = colon_fields(time);
    proof {
        lemma_split_count(fields.deep_view(), ':', time@);
    }
    if fields.len() != 2 {
        return Err(TimeError::InvalidFormat);
    }
    proof {
        lemma_two_fields(fields.deep_view(), time@);
    }
    match (parse_number(fields[0]), parse_number(fields[1])) {
        (Some(hour), Some(minute)) => ParsedTime::new(hour, minute),
        _ => Err(TimeError::InvalidFormat),
    }
}

} // verus!
