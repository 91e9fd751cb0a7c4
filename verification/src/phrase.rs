//! The sentence that tells the time.
//!
//! It opens with "It's", names the hour, names the minute unless it is
//! zero, and ends with "am" or "pm". A minute from one to nine is led in by
//! "oh", the way a leading zero is spoken.

use crate::error::TimeError;
use crate::parse::{parse_time, parsed};
use crate::text::{
    is_word, joined, lemma_joined_concat, lemma_words_are_words, lemma_words_around_space,
    lemma_words_of_joined, normalize_whitespace, normalized, words,
};
use crate::time::{display_of, period_word, DisplayTime, Time12};
use crate::names::{lemma_spoken_is_joined_words, num_to_s, spoken, spoken_words};
use vstd::prelude::*;

verus! {

/// The sentence for a time on the 12-hour clock.
pub open spec fn phrase(d: Time12) -> Seq<char> {
    "It's "@ + spoken(d.hour) + (if 1 <= d.minute <= 9 {
        " oh"@
    } else {
        Seq::empty()
    }) + (if d.minute > 0 {
        " "@ + spoken(d.minute)
    } else {
        Seq::empty()
    }) + " "@ + period_word(d.period)
}

/// The words of the sentence for a time on the 12-hour clock.
spec fn phrase_words(d: Time12) -> Seq<Seq<char>> {
    seq!["It's"@] + spoken_words(d.hour) + (if 1 <= d.minute <= 9 {
        seq!["oh"@]
    } else {
        Seq::empty()
    }) + spoken_words(d.minute) + seq![period_word(d.period)]
}

/// The sentence with every slot filled and a blank after each, whether or
/// not the slot holds a word: what `build` writes before it normalises.
spec fn draft(d: Time12) -> Seq<char> {
    "It's "@ + spoken(d.hour) + " "@ + (if 1 <= d.minute <= 9 {
        "oh"@
    } else {
        ""@
    }) + " "@ + spoken(d.minute) + " "@ + period_word(d.period)
}

/// The words of the draft are the words of the sentence.
proof fn lemma_draft_words(d: Time12)
    requires
        d.valid(),
    ensures
        words(draft(d)) == phrase_words(d),
{
    reveal_strlit("It's ");
    reveal_strlit("It's");
    reveal_strlit(" ");
    reveal_strlit("oh");
    reveal_strlit("");
    reveal_strlit("am");
    reveal_strlit("pm");
    let opening = "It's"@;
    let hour = spoken(d.hour);
    let filler = if 1 <= d.minute <= 9 {
        "oh"@
    } else {
        ""@
    };
    let minute = spoken(d.minute);
    let period = period_word(d.period);
    assert(is_word(opening));
    assert(is_word(period));
    lemma_spoken_is_joined_words(d.hour);
    lemma_spoken_is_joined_words(d.minute);
    lemma_words_of_joined(spoken_words(d.hour));
    lemma_words_of_joined(spoken_words(d.minute));
    lemma_words_of_joined(seq![opening]);
    lemma_words_of_joined(seq![period]);
    if 1 <= d.minute <= 9 {
        assert(is_word(filler));
        lemma_words_of_joined(seq![filler]);
    } else {
        assert(filler =~= Seq::<char>::empty());
    }
    let a1 = opening;
    let a2 = a1 + seq![' '] + hour;
    let a3 = a2 + seq![' '] + filler;
    let a4 = a3 + seq![' '] + minute;
    let a5 = a4 + seq![' '] + period;
    lemma_words_around_space(a1, ' ', hour);
    lemma_words_around_space(a2, ' ', filler);
    lemma_words_around_space(a3, ' ', minute);
    lemma_words_around_space(a4, ' ', period);
    assert(draft(d) =~= a5);
}

/// The words of the sentence, joined by single blanks, are the sentence.
proof fn lemma_phrase_is_joined_words(d: Time12)
    requires
        d.valid(),
    ensures
        joined(phrase_words(d), ' ') == phrase(d),
{
    reveal_strlit("It's ");
    reveal_strlit("It's");
    reveal_strlit(" ");
    reveal_strlit(" oh");
    reveal_strlit("oh");
    let period = period_word(d.period);
    lemma_spoken_is_joined_words(d.hour);
    lemma_spoken_is_joined_words(d.minute);
    let w1 = seq!["It's"@];
    let w2 = w1 + spoken_words(d.hour);
    lemma_joined_concat(w1, spoken_words(d.hour), ' ');
    let w3 = w2 + (if 1 <= d.minute <= 9 {
        seq!["oh"@]
    } else {
        Seq::empty()
    });
    if 1 <= d.minute <= 9 {
        lemma_joined_concat(w2, seq!["oh"@], ' ');
    } else {
        assert(w3 =~= w2);
    }
    let w4 = w3 + spoken_words(d.minute);
    if d.minute > 0 {
        lemma_joined_concat(w3, spoken_words(d.minute), ' ');
    } else {
        assert(w4 =~= w3);
    }
    lemma_joined_concat(w4, seq![period], ' ');
    assert(joined(w4 + seq![period], ' ') =~= phrase(d));
}

/// The sentence is in normal form: single blanks between its words and no
/// white space at either end.
pub proof fn lemma_phrase_is_normalized(d: Time12)
    requires
        d.valid(),
    ensures
        normalized(phrase(d)) == phrase(d),
{
    lemma_draft_words(d);
    lemma_words_are_words(draft(d));
    lemma_words_of_joined(phrase_words(d));
    lemma_phrase_is_joined_words(d);
}

/// Tells a time of the 12-hour clock in words.
pub fn build(time: &DisplayTime) -> (out: String)
    ensures
        out@ == phrase(time@),
{
    let minute: u32 = time.minute();
    let mut text = String::from_str("It's ");
    text.append(num_to_s(time.hour()).as_str());
    text.append(" ");
    text.append(if 0 < minute && minute < 10 { "oh" } else { "" });
    text.append(" ");
    text.append(num_to_s(minute).as_str());
    text.append(" ");
    text.append(time.period().word());
    proof {
        assert(text@ == draft(time@));
        lemma_draft_words(time@);
        lemma_phrase_is_joined_words(time@);
    }
    normalize_whitespace(text.as_str())
}

/// Tells the time written as `hh:mm` in words, or says why the text is no
/// time of day.
pub fn say(time: &str) -> (r: Result<String, TimeError>)
    ensures
        match parsed(time@) {
            Ok(t) => r is Ok && r->Ok_0@ == phrase(display_of(t)),
            Err(e) => r is Err && r->Err_0 == e,
        },
{
    match parse_time(time) {
        Ok(parsed_time) => Ok(build(&parsed_time.to_display())),
        Err(e) => Err(e),
    }
}

} // verus!
