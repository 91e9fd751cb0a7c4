use talking_clock::error::TimeError;
use talking_clock::phrase::say;

#[test]
fn valid_value_1() -> Result<(), TimeError> {
    let time_string = say(&String::from("00:00"))?;
    Ok(assert_eq!(time_string, String::from("It's twelve am")))
}

#[test]
fn valid_value_2() -> Result<(), TimeError> {
    let time_string = say(&String::from("01:30"))?;
    Ok(assert_eq!(time_string, String::from("It's one thirty am")))
}

#[test]
fn valid_value_3() -> Result<(), TimeError> {
    let time_string = say(&String::from("12:05"))?;
    Ok(assert_eq!(
        time_string,
        String::from("It's twelve oh five pm")
    ))
}

#[test]
fn valid_value_4() -> Result<(), TimeError> {
    let time_string = say(&String::from("14:01"))?;
    Ok(assert_eq!(time_string, String::from("It's two oh one pm")))
}

#[test]
fn valid_value_5() -> Result<(), TimeError> {
    let time_string = say(&String::from("20:29"))?;
    Ok(assert_eq!(
        time_string,
        String::from("It's eight twenty nine pm")
    ))
}

#[test]
fn invalid_input() {
    assert!(say(&String::from("foobar")).is_err());
    assert!(say(&String::from("43:22")).is_err());
}

#[test]
fn says_a_full_hour_without_minute() {
    assert_eq!(say("21:00"), Ok(String::from("It's nine pm")));
}

#[test]
fn hour_twenty_four_is_out_of_range() {
    assert_eq!(say("24:00"), Err(TimeError::OutOfRange));
}

#[test]
fn minute_sixty_is_out_of_range() {
    assert_eq!(say("12:60"), Err(TimeError::OutOfRange));
}

#[test]
fn text_without_colon_is_invalid_format() {
    assert_eq!(say("foobar"), Err(TimeError::InvalidFormat));
}

#[test]
fn says_the_last_minute_of_the_day() {
    assert_eq!(say("23:59"), Ok(String::from("It's eleven fifty nine pm")));
}

#[test]
fn says_noon_and_the_minute_before() {
    assert_eq!(say("12:00"), Ok(String::from("It's twelve pm")));
    assert_eq!(say("11:59"), Ok(String::from("It's eleven fifty nine am")));
}

#[test]
fn says_oh_only_before_one_to_nine() {
    assert_eq!(say("03:09"), Ok(String::from("It's three oh nine am")));
    assert_eq!(say("03:10"), Ok(String::from("It's three ten am")));
    assert_eq!(say("03:00"), Ok(String::from("It's three am")));
}

#[test]
fn says_a_full_decade_without_a_ones_word() {
    assert_eq!(say("13:20"), Ok(String::from("It's one twenty pm")));
    assert_eq!(say("13:50"), Ok(String::from("It's one fifty pm")));
}

#[test]
fn accepts_one_digit_and_long_numerals() {
    assert_eq!(say("7:05"), Ok(String::from("It's seven oh five am")));
    assert_eq!(say("007:5"), Ok(String::from("It's seven oh five am")));
    assert_eq!(say("+7:+5"), Ok(String::from("It's seven oh five am")));
}

/// The name of a number from 1 to 59, spelled out without the library.
fn expected_name(n: u32) -> String {
    let units = [
        "", "one", "two", "three", "four", "five", "six", "seven", "eight", "nine", "ten",
        "eleven", "twelve", "thirteen", "fourteen", "fifteen", "sixteen", "seventeen",
        "eighteen", "nineteen",
    ];
    let decades = ["", "", "twenty", "thirty", "forty", "fifty"];
    if n < 20 {
        String::from(units[n as usize])
    } else if n % 10 == 0 {
        String::from(decades[(n / 10) as usize])
    } else {
        format!("{} {}", decades[(n / 10) as usize], units[(n % 10) as usize])
    }
}

#[test]
fn says_every_minute_of_the_day() {
    for h in 0..24u32 {
        for m in 0..60u32 {
            let hour12 = if h % 12 == 0 { 12 } else { h % 12 };
            let period = if h < 12 { "am" } else { "pm" };
            let mut expected = format!("It's {}", expected_name(hour12));
            if m > 0 {
                if m < 10 {
                    expected.push_str(" oh");
                }
                expected.push(' ');
                expected.push_str(&expected_name(m));
            }
            expected.push(' ');
            expected.push_str(period);
            assert_eq!(say(&format!("{:02}:{:02}", h, m)), Ok(expected));
        }
    }
}

#[test]
fn said_time_has_no_stray_white_space() {
    for h in 0..24u32 {
        for m in 0..60u32 {
            let text = say(&format!("{}:{}", h, m)).unwrap();
            assert!(!text.contains("  "));
            assert_eq!(text.trim(), text);
            assert!(!text.contains("_invalid_"));
        }
    }
}
