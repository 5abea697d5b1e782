use nric::birth_date::BirthDate;
use nric::nric::{classification_letter, NRIC};

fn date(year: i32, month: u32, day: u32) -> BirthDate {
    BirthDate::from_ymd_opt(year, month, day).unwrap()
}

#[test]
fn test_nric_generation() {
    // Test citizen born before 2000
    let birth_date = date(1990, 1, 1);
    let nric = NRIC::generate(birth_date, true);
    assert!(nric.get_number().starts_with('S'));
    assert!(NRIC::is_valid(nric.get_number()));

    // Test citizen born after 2000
    let birth_date = date(2001, 1, 1);
    let nric = NRIC::generate(birth_date, true);
    assert!(nric.get_number().starts_with('T'));
    assert!(NRIC::is_valid(nric.get_number()));

    // Test PR registered before 2000
    let birth_date = date(1990, 1, 1);
    let nric = NRIC::generate(birth_date, false);
    assert!(nric.get_number().starts_with('F'));
    assert!(NRIC::is_valid(nric.get_number()));

    // Test PR registered after 2000
    let birth_date = date(2001, 1, 1);
    let nric = NRIC::generate(birth_date, false);
    assert!(nric.get_number().starts_with('G'));
    assert!(NRIC::is_valid(nric.get_number()));
}

#[test]
fn test_nric_validation() {
    // Valid number: the weighted sum of 1234567 is 106, remainder 7, letter D
    assert!(NRIC::is_valid("S1234567D"));

    // Test invalid length
    assert!(!NRIC::is_valid("S123456A"));

    // Test invalid first letter
    assert!(!NRIC::is_valid("X1234567A"));

    // Test invalid digits
    assert!(!NRIC::is_valid("S123A567A"));
}

#[test]
fn wrong_check_letter_is_rejected() {
    assert!(!NRIC::is_valid("S1234567A"));
    assert!(!NRIC::is_valid("S1234567d"));
}

#[test]
fn malformed_candidates_are_rejected() {
    assert!(!NRIC::is_valid(""));
    assert!(!NRIC::is_valid("S1234567DD"));
    assert!(!NRIC::is_valid("s1234567D"));
    assert!(!NRIC::is_valid("S12345\u{e9}7D"));
    assert!(!NRIC::is_valid("S123456\u{e9}"));
}

#[test]
fn generated_with_digits_exact_values() {
    let digits: [u8; 7] = [1, 2, 3, 4, 5, 6, 7];
    let n = NRIC::generate_with_digits(date(1990, 1, 1), true, digits);
    assert_eq!(n.get_number(), "S1234567D");
    let n = NRIC::generate_with_digits(date(2001, 1, 1), true, digits);
    assert_eq!(n.get_number(), "T1234567D");
    // offset 4: 110 % 11 == 0, letter X
    let n = NRIC::generate_with_digits(date(1990, 1, 1), false, digits);
    assert_eq!(n.get_number(), "F1234567X");
    let n = NRIC::generate_with_digits(date(2001, 1, 1), false, digits);
    assert_eq!(n.get_number(), "G1234567X");
}

#[test]
fn generated_with_zero_digits() {
    let n = NRIC::generate_with_digits(date(1985, 6, 15), true, [0; 7]);
    assert_eq!(n.get_number(), "S0000000J");
    let n = NRIC::generate_with_digits(date(1985, 6, 15), false, [0; 7]);
    assert_eq!(n.get_number(), "F0000000R");
    assert!(NRIC::is_valid("S0000000J"));
    assert!(NRIC::is_valid("F0000000R"));
}

#[test]
fn generated_numbers_round_trip() {
    for year in [1900, 1999, 2000, 2024] {
        for citizen in [true, false] {
            for _ in 0..20 {
                let n = NRIC::generate(date(year, 3, 1), citizen);
                let s = n.get_number();
                assert_eq!(s.chars().count(), 9);
                assert!(s.chars().skip(1).take(7).all(|c| c.is_ascii_digit()));
                assert!(NRIC::is_valid(s));
            }
        }
    }
}

#[test]
fn classification_at_era_boundary() {
    assert_eq!(classification_letter(1999, true), 'S');
    assert_eq!(classification_letter(2000, true), 'T');
    assert_eq!(classification_letter(1999, false), 'F');
    assert_eq!(classification_letter(2000, false), 'G');
    assert!(NRIC::generate(date(1999, 12, 31), true).get_number().starts_with('S'));
    assert!(NRIC::generate(date(2000, 1, 1), true).get_number().starts_with('T'));
    assert!(NRIC::generate(date(1999, 12, 31), false).get_number().starts_with('F'));
    assert!(NRIC::generate(date(2000, 1, 1), false).get_number().starts_with('G'));
}

#[test]
fn checksum_exact_and_repeatable() {
    assert_eq!(NRIC::calculate_checksum('S', "1234567"), 'D');
    assert_eq!(NRIC::calculate_checksum('T', "1234567"), 'D');
    assert_eq!(NRIC::calculate_checksum('F', "1234567"), 'X');
    assert_eq!(NRIC::calculate_checksum('G', "0000000"), 'R');
    assert_eq!(NRIC::calculate_checksum('S', "9999999"), 'C');
    let first = NRIC::calculate_checksum('F', "7654321");
    let second = NRIC::calculate_checksum('F', "7654321");
    assert_eq!(first, second);
}

#[test]
fn single_digit_changes_invalidate() {
    for valid in ["S1234567D", "F1234567X", "T0000000J", "G9081726X"] {
        assert!(NRIC::is_valid(valid));
        let chars: Vec<char> = valid.chars().collect();
        for pos in 1..8 {
            for d in '0'..='9' {
                if d == chars[pos] {
                    continue;
                }
                let mut changed = chars.clone();
                changed[pos] = d;
                let candidate: String = changed.into_iter().collect();
                assert!(!NRIC::is_valid(&candidate), "{}", candidate);
            }
        }
    }
}

#[test]
fn birth_dates_follow_the_calendar() {
    assert!(BirthDate::from_ymd_opt(2015, 3, 14).is_some());
    assert!(BirthDate::from_ymd_opt(2015, 0, 14).is_none());
    assert!(BirthDate::from_ymd_opt(2015, 13, 1).is_none());
    assert!(BirthDate::from_ymd_opt(2015, 2, 29).is_none());
    assert!(BirthDate::from_ymd_opt(2016, 2, 29).is_some());
    assert!(BirthDate::from_ymd_opt(1900, 2, 29).is_none());
    assert!(BirthDate::from_ymd_opt(2000, 2, 29).is_some());
    assert!(BirthDate::from_ymd_opt(2023, 4, 31).is_none());
    assert!(BirthDate::from_ymd_opt(-4, 2, 29).is_some());
    assert!(BirthDate::from_ymd_opt(400000, 1, 1).is_none());
    assert!(BirthDate::from_ymd_opt(-400000, 1, 1).is_none());
    let d = date(1990, 7, 21);
    assert_eq!((d.year(), d.month(), d.day()), (1990, 7, 21));
}
