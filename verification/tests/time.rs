use talking_clock::error::TimeError;
use talking_clock::phrase::build;
use talking_clock::time::{ParsedTime, Period};

fn display(hour: u32, minute: u32) -> (u32, u32, Period) {
    let d = ParsedTime::new(hour, minute).unwrap().to_display();
    (d.hour(), d.minute(), d.period())
}

#[test]
fn midnight_is_twelve_am() {
    assert_eq!(display(0, 0), (12, 0, Period::Am));
}

#[test]
fn noon_is_twelve_pm() {
    assert_eq!(display(12, 0), (12, 0, Period::Pm));
}

#[test]
fn morning_hours_stay() {
    assert_eq!(display(1, 30), (1, 30, Period::Am));
    assert_eq!(display(11, 59), (11, 59, Period::Am));
}

#[test]
fn afternoon_hours_count_from_one() {
    assert_eq!(display(13, 0), (1, 0, Period::Pm));
    assert_eq!(display(14, 1), (2, 1, Period::Pm));
    assert_eq!(display(23, 59), (11, 59, Period::Pm));
}

#[test]
fn display_hour_is_one_to_twelve_and_no_two_times_read_alike() {
    let mut seen: Vec<(u32, u32, Period)> = Vec::new();
    for h in 0..24u32 {
        for m in 0..60u32 {
            let d = display(h, m);
            assert!(1 <= d.0 && d.0 <= 12);
            assert_eq!(d.1, m);
            assert_eq!(d.2 == Period::Am, h < 12);
            assert!(!seen.contains(&d));
            seen.push(d);
        }
    }
    assert_eq!(seen.len(), 2 * 12 * 60);
}

#[test]
fn new_keeps_hour_and_minute() {
    let t = ParsedTime::new(23, 59).unwrap();
    assert_eq!(t.hour(), 23);
    assert_eq!(t.minute(), 59);
}

#[test]
fn new_refuses_what_is_out_of_range() {
    assert_eq!(ParsedTime::new(24, 0), Err(TimeError::OutOfRange));
    assert_eq!(ParsedTime::new(0, 60), Err(TimeError::OutOfRange));
    assert_eq!(ParsedTime::new(u32::MAX, u32::MAX), Err(TimeError::OutOfRange));
}

#[test]
fn period_words() {
    assert_eq!(Period::Am.word(), "am");
    assert_eq!(Period::Pm.word(), "pm");
}

#[test]
fn builds_the_sentence() {
    let d = ParsedTime::new(20, 29).unwrap().to_display();
    assert_eq!(build(&d), "It's eight twenty nine pm");
    let d = ParsedTime::new(0, 5).unwrap().to_display();
    assert_eq!(build(&d), "It's twelve oh five am");
    let d = ParsedTime::new(9, 0).unwrap().to_display();
    assert_eq!(build(&d), "It's nine am");
}

#[test]
fn error_message() {
    assert_eq!(TimeError::InvalidFormat.message(), "Invalid time value");
    assert_eq!(TimeError::OutOfRange.message(), "Invalid time value");
}
