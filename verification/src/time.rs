//! Times of day on the 24-hour and on the 12-hour clock, and the step from
//! the first to the second.
//!
//! `ParsedTime` and `DisplayTime` can only be made in range: their fields
//! are private and every way to build one checks them. The contracts speak
//! of their views, `Time24` and `Time12`, which are plain records of
//! natural numbers.

use crate::error::TimeError;
use vstd::prelude::*;

verus! {

/// The half of the day.
#[derive(Debug, Clone, Copy, PartialEq, Eq, Structural)]
pub enum Period {
    /// From midnight up to noon.
    Am,
    /// From noon up to midnight.
    Pm,
}

/// An hour and a minute on the 24-hour clock.
pub struct Time24 {
    pub hour: nat,
    pub minute: nat,
}

/// An hour and a minute on the 12-hour clock, with the half of the day.
pub struct Time12 {
    pub hour: nat,
    pub minute: nat,
    pub period: Period,
}

impl Time24 {
    /// The hour is at most 23 and the minute at most 59.
    pub open spec fn valid(self) -> bool {
        self.hour <= 23 && self.minute <= 59
    }
}

impl Time12 {
    /// The hour is from 1 to 12 and the minute at most 59.
    pub open spec fn valid(self) -> bool {
        1 <= self.hour <= 12 && self.minute <= 59
    }
}

/// How a time of the 24-hour clock reads on the 12-hour clock: midnight
/// and noon are twelve, the hours after noon count from one again, and the
/// minute stays.
pub open spec fn display_of(t: Time24) -> Time12 {
    if t.hour == 0 {
        Time12 { hour: 12, minute: t.minute, period: Period::Am }
    } else if t.hour < 12 {
        Time12 { hour: t.hour, minute: t.minute, period: Period::Am }
    } else if t.hour == 12 {
        Time12 { hour: 12, minute: t.minute, period: Period::Pm }
    } else {
        Time12 { hour: (t.hour - 12) as nat, minute: t.minute, period: Period::Pm }
    }
}

/// The written form of a half of the day.
pub open spec fn period_word(p: Period) -> Seq<char> {
    match p {
        Period::Am => "am"@,
        Period::Pm => "pm"@,
    }
}

/// A valid time reads as a valid time with the same minute; midnight reads
/// as twelve am and noon as twelve pm.
pub proof fn lemma_display_of_valid(t: Time24)
    requires
        t.valid(),
    ensures
        display_of(t).valid(),
        display_of(t).minute == t.minute,
        t.hour == 0 ==> display_of(t).hour == 12 && display_of(t).period == Period::Am,
        t.hour == 12 ==> display_of(t).hour == 12 && display_of(t).period == Period::Pm,
        display_of(t).period == Period::Am <==> t.hour < 12,
{
}

/// Two valid times that read the same are the same time.
pub proof fn lemma_display_of_injective(a: Time24, b: Time24)
    requires
        a.valid(),
        b.valid(),
        display_of(a) == display_of(b),
    ensures
        a == b,
{
}

/// Every valid reading of the 12-hour clock is the reading of a valid time.
pub proof fn lemma_display_of_onto(d: Time12)
    requires
        d.valid(),
    ensures
        exists|t: Time24| t.valid() && #[trigger] display_of(t) == d,
{
    let h24: nat = match d.period {
        Period::Am => if d.hour == 12 { 0 } else { d.hour },
        Period::Pm => if d.hour == 12 { 12 } else { d.hour + 12 },
    };
    let t = Time24 { hour: h24, minute: d.minute };
    assert(t.valid() && display_of(t) == d);
}

/// A time of day on the 24-hour clock: hour 0 to 23, minute 0 to 59.
#[derive(Debug, Clone, Copy, PartialEq, Eq, Structural)]
pub struct ParsedTime {
    hour: u32,
    minute: u32,
}

/// A time of day on the 12-hour clock: hour 1 to 12, minute 0 to 59, and
/// the half of the day.
#[derive(Debug, Clone, Copy, PartialEq, Eq, Structural)]
pub struct DisplayTime {
    hour: u32,
    minute: u32,
    period: Period,
}

impl View for ParsedTime {
    type V = Time24;

    closed spec fn view(&self) -> Time24 {
        Time24 { hour: self.hour as nat, minute: self.minute as nat }
    }
}

impl View for DisplayTime {
    type V = Time12;

    closed spec fn view(&self) -> Time12 {
        Time12 { hour: self.hour as nat, minute: self.minute as nat, period: self.period }
    }
}

impl Period {
    /// "am" or "pm".
    pub fn word(&self) -> (w: &'static str)
        ensures
            w@ == period_word(*self),
    {
        match self {
            Period::Am => "am",
            Period::Pm => "pm",
        }
    }
}

impl ParsedTime {
    #[verifier::type_invariant]
    spec fn in_range(&self) -> bool {
        self.hour <= 23 && self.minute <= 59
    }

    /// The time with the given hour and minute, or `OutOfRange` where the
    /// hour is above 23 or the minute above 59.
    pub fn new(hour: u32, minute: u32) -> (r: Result<ParsedTime, TimeError>)
        ensures
            hour <= 23 && minute <= 59 ==> r is Ok && r->Ok_0@ == (Time24 {
                hour: hour as nat,
                minute: minute as nat,
            }),
            hour > 23 || minute > 59 ==> r == Err::<ParsedTime, TimeError>(TimeError::OutOfRange),
    {
        if hour > 23 || minute > 59 {
            Err(TimeError::OutOfRange)
        } else {
            Ok(ParsedTime { hour, minute })
        }
    }

    /// The hour, 0 to 23.
    pub fn hour(&self) -> (h: u32)
        ensures
            h == self@.hour,
            self@.valid(),
    {
        proof {
            use_type_invariant(self);
        }
        self.hour
    }

    /// The minute, 0 to 59.
    pub fn minute(&self) -> (m: u32)
        ensures
            m == self@.minute,
            self@.valid(),
    {
        proof {
            use_type_invariant(self);
        }
        self.minute
    }

    /// The same time on the 12-hour clock.
    pub fn to_display(&self) -> (d: DisplayTime)
        ensures
            d@ == display_of(self@),
            d@.valid(),
    {
        proof {
            use_type_invariant(self);
        }
        let (hour, period) = if self.hour > 12 {
            (self.hour - 12, Period::Pm)
        } else if self.hour == 0 {
            (12, Period::Am)
        } else if self.hour == 12 {
            (12, Period::Pm)
        } else {
            (self.hour, Period::Am)
        };
        DisplayTime { hour, minute: self.minute, period }
    }
}

impl DisplayTime {
    #[verifier::type_invariant]
    spec fn in_range(&self) -> bool {
        1 <= self.hour <= 12 && self.minute <= 59
    }

    /// The hour, 1 to 12.
    pub fn hour(&self) -> (h: u32)
        ensures
            h == self@.hour,
            self@.valid(),
    {
        proof {
            use_type_invariant(self);
        }
        self.hour
    }

    /// The minute, 0 to 59.
    pub fn minute(&self) -> (m: u32)
        ensures
            m == self@.minute,
            self@.valid(),
    {
        proof {
            use_type_invariant(self);
        }
        self.minute
    }

    /// The half of the day.
    pub fn period(&self) -> (p: Period)
        ensures
            p == self@.period,
    {
        self.period
    }
}

} // verus!
