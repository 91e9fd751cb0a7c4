//! English names of the numbers that occur on a clock face: 0 to 59.
//!
//! Below twenty every number has a name of its own. From twenty on, a name
//! is the word for the decade, followed by the name of the ones digit
//! unless that digit is zero. Zero itself has the empty name: a clock never
//! says it.

use crate::text::{is_space, is_word, joined};
use vstd::prelude::*;

verus! {

/// What `num_to_s` returns for a number that has no name here.
pub const INVALID_NAME: &'static str = "_invalid_";

/// The names of 0 to 19, each at its own index.
pub open spec fn unit_names() -> Seq<Seq<char>> {
    seq![
        ""@,
        "one"@,
        "two"@,
        "three"@,
        "four"@,
        "five"@,
        "six"@,
        "seven"@,
        "eight"@,
        "nine"@,
        "ten"@,
        "eleven"@,
        "twelve"@,
        "thirteen"@,
        "fourteen"@,
        "fifteen"@,
        "sixteen"@,
        "seventeen"@,
        "eighteen"@,
        "nineteen"@,
    ]
}

/// The words for 20, 30, 40 and 50, at the indices 2 to 5; the first two
/// places are never read.
pub open spec fn decade_names() -> Seq<Seq<char>> {
    seq![""@, ""@, "twenty"@, "thirty"@, "forty"@, "fifty"@]
}

/// The name of `n`: the model that `num_to_s` is proved against.
pub open spec fn spoken(n: nat) -> Seq<char> {
    if n < 20 {
        unit_names()[n as int]
    } else if n < 60 {
        if n % 10 == 0 {
            decade_names()[n as int / 10]
        } else {
            decade_names()[n as int / 10] + " "@ + unit_names()[n as int % 10]
        }
    } else {
        INVALID_NAME@
    }
}

/// The name of a number below twenty.
fn unit_word(n: u32) -> (word: &'static str)
    requires
        n < 20,
    ensures
        word@ == unit_names()[n as int],
{
    match n {
        0 => "",
        1 => "one",
        2 => "two",
        3 => "three",
        4 => "four",
        5 => "five",
        6 => "six",
        7 => "seven",
        8 => "eight",
        9 => "nine",
        10 => "ten",
        11 => "eleven",
        12 => "twelve",
        13 => "thirteen",
        14 => "fourteen",
        15 => "fifteen",
        16 => "sixteen",
        17 => "seventeen",
        18 => "eighteen",
        _ => "nineteen",
    }
}

/// The word for the decade with the given tens digit.
fn decade_word(tens: u32) -> (word: &'static str)
    requires
        2 <= tens <= 5,
    ensures
        word@ == decade_names()[tens as int],
{
    match tens {
        2 => "twenty",
        3 => "thirty",
        4 => "forty",
        _ => "fifty",
    }
}

/// Names a number. From 0 to 59 the result is the number's English name,
/// with the empty string for 0; any larger number gives `INVALID_NAME`.
pub fn num_to_s(num: u32) -> (name: String)
    ensures
        name@ == spoken(num as nat),
{
    if num < 20 {
        String::from_str(unit_word(num))
    } else if num < 60 {
        let tens: u32 = num / 10;
        let ones: u32 = num % 10;
        let mut name = String::from_str(decade_word(tens));
        if ones != 0 {
            name.append(" ");
            name.append(unit_word(ones));
        }
        name
    } else {
        String::from_str(INVALID_NAME)
    }
}

/// The words that make up the name of `n`: none for 0, one for a number
/// below twenty or a full decade, two for the rest up to 59.
pub open spec fn spoken_words(n: nat) -> Seq<Seq<char>> {
    if n == 0 || n >= 60 {
        Seq::empty()
    } else if n < 20 {
        seq![unit_names()[n as int]]
    } else if n % 10 == 0 {
        seq![decade_names()[n as int / 10]]
    } else {
        seq![decade_names()[n as int / 10], unit_names()[n as int % 10]]
    }
}

/// A text of small letters is a word.
proof fn lemma_letters_are_word(w: Seq<char>)
    requires
        w.len() > 0,
        forall|i: int| 0 <= i < w.len() ==> 'a' <= #[trigger] w[i] <= 'z',
    ensures
        is_word(w),
        w[0] != '_',
{
    assert forall|i: int| 0 <= i < w.len() implies !is_space(#[trigger] w[i]) by {
        assert('a' <= w[i] <= 'z');
    }
    assert('a' <= w[0] <= 'z');
}

/// Each name from one to nineteen is a single word, and none starts with
/// an underscore.
pub proof fn lemma_unit_name_is_word(n: nat)
    requires
        1 <= n <= 19,
    ensures
        is_word(unit_names()[n as int]),
        unit_names()[n as int][0] != '_',
{
    reveal_strlit("one");
    reveal_strlit("two");
    reveal_strlit("three");
    reveal_strlit("four");
    reveal_strlit("five");
    reveal_strlit("six");
    reveal_strlit("seven");
    reveal_strlit("eight");
    reveal_strlit("nine");
    reveal_strlit("ten");
    reveal_strlit("eleven");
    reveal_strlit("twelve");
    reveal_strlit("thirteen");
    reveal_strlit("fourteen");
    reveal_strlit("fifteen");
    reveal_strlit("sixteen");
    reveal_strlit("seventeen");
    reveal_strlit("eighteen");
    reveal_strlit("nineteen");
    lemma_letters_are_word(unit_names()[n as int]);
}

/// Each decade word is a single word, and none starts with an underscore.
pub proof fn lemma_decade_name_is_word(tens: nat)
    requires
        2 <= tens <= 5,
    ensures
        is_word(decade_names()[tens as int]),
        decade_names()[tens as int][0] != '_',
{
    reveal_strlit("twenty");
    reveal_strlit("thirty");
    reveal_strlit("forty");
    reveal_strlit("fifty");
    lemma_letters_are_word(decade_names()[tens as int]);
}

/// The name of a number up to 59 is its words with single blanks between
/// them, and each of them is a word.
pub proof fn lemma_spoken_is_joined_words(n: nat)
    requires
        n <= 59,
    ensures
        spoken(n) == joined(spoken_words(n), ' '),
        forall|i: int| 0 <= i < spoken_words(n).len() ==> is_word(#[trigger] spoken_words(n)[i]),
{
    reveal_strlit("");
    reveal_strlit(" ");
    let parts = spoken_words(n);
    if n == 0 {
        assert(spoken(n) =~= Seq::<char>::empty());
    } else if n < 20 {
        lemma_unit_name_is_word(n);
    } else if n % 10 == 0 {
        lemma_decade_name_is_word(n / 10);
    } else {
        lemma_decade_name_is_word(n / 10);
        lemma_unit_name_is_word(n % 10);
        assert(parts.drop_first()[0] == parts[1]);
        assert(joined(parts.drop_first(), ' ') == parts[1]);
        assert(" "@ =~= seq![' ']);
    }
}

/// Every number from 0 to 59 has a name: `num_to_s`
/// gives `INVALID_NAME` for none of them.
pub proof fn lemma_in_range_is_named(n: nat)
    requires
        n <= 59,
    ensures
        spoken(n) != INVALID_NAME@,
{
    reveal_strlit("_invalid_");
    reveal_strlit("");
    if n == 0 {
    } else if n < 20 {
        lemma_unit_name_is_word(n);
    } else {
        lemma_decade_name_is_word(n / 10);
        if n % 10 != 0 {
            assert(spoken(n)[0] == decade_names()[n as int / 10][0]);
        }
    }
}

} // verus!
