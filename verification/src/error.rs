//! The two ways in which a written time can be refused.

use vstd::prelude::*;

verus! {

/// Why a text was not accepted as a time of day.
#[derive(Debug, Clone, Copy, PartialEq, Eq, Structural)]
pub enum TimeError {
    /// The text is not two numerals separated by exactly one colon.
    InvalidFormat,
    /// Both numerals are there, but the hour is above 23 or the minute above 59.
    OutOfRange,
}

impl TimeError {
    /// The single line shown to the user, the same for both variants.
    pub open spec fn message_spec() -> Seq<char> {
        "Invalid time value"@
    }

    /// The message to print for this error.
    pub fn message(&self) -> (text: String)
        ensures
            text@ == Self::message_spec(),
    {
        String::from_str("Invalid time value")
    }
}

} // verus!
