//! A talking clock: turns a 24-hour time written as `hh:mm` into the English
//! phrase a person would say, on the 12-hour clock with am or pm.
//!
//! `say` reads the text with `parse_time`, moves the time to the 12-hour
//! clock with `ParsedTime::to_display` and words it with `build`. Every step
//! is stated over sequences of characters and natural numbers and proved
//! against that statement.

pub mod error;
pub mod names;
pub mod parse;
pub mod phrase;
pub mod text;
pub mod time;

pub use crate::error::TimeError;
pub use crate::names::num_to_s;
pub use crate::parse::parse_time;
pub use crate::phrase::{build, say};
pub use crate::time::{DisplayTime, ParsedTime, Period};
