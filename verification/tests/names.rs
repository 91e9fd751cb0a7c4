use talking_clock::names::{num_to_s, INVALID_NAME};

#[test]
fn zero_has_the_empty_name() {
    assert_eq!(num_to_s(0), "");
}

#[test]
fn names_below_twenty() {
    let names = [
        "one", "two", "three", "four", "five", "six", "seven", "eight", "nine", "ten", "eleven",
        "twelve", "thirteen", "fourteen", "fifteen", "sixteen", "seventeen", "eighteen",
        "nineteen",
    ];
    for (i, name) in names.iter().enumerate() {
        assert_eq!(num_to_s(i as u32 + 1), *name);
    }
}

#[test]
fn names_of_the_decades() {
    assert_eq!(num_to_s(20), "twenty");
    assert_eq!(num_to_s(30), "thirty");
    assert_eq!(num_to_s(40), "forty");
    assert_eq!(num_to_s(50), "fifty");
}

#[test]
fn names_with_decade_and_ones() {
    assert_eq!(num_to_s(21), "twenty one");
    assert_eq!(num_to_s(29), "twenty nine");
    assert_eq!(num_to_s(38), "thirty eight");
    assert_eq!(num_to_s(47), "forty seven");
    assert_eq!(num_to_s(59), "fifty nine");
}

#[test]
fn every_number_up_to_59_has_a_name() {
    for n in 0..60u32 {
        assert_ne!(num_to_s(n), INVALID_NAME);
    }
}

#[test]
fn numbers_from_sixty_have_none() {
    assert_eq!(num_to_s(60), "_invalid_");
    assert_eq!(num_to_s(61), INVALID_NAME);
    assert_eq!(num_to_s(u32::MAX), INVALID_NAME);
}
