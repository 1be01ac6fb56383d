use lewn::{
    compute_check_digit, compute_checksum, compute_valid_sequence, displayed_checksum,
    validate_sequence, weighted_sum, Arguments, LuhnError,
};

fn s(text: &str) -> String {
    String::from(text)
}

#[test]
fn generated_sequences_validate() {
    for text in ["1234", "7992739871", "1", "5", "42", "123456789", "19", "95", "0", "364"] {
        let generated = compute_valid_sequence(&s(text)).unwrap();
        assert_eq!(generated.len(), text.len() + 1);
        assert_eq!(validate_sequence(&generated), Ok(true));
    }
}

#[test]
fn check_digit_ten_appends_zero() {
    assert_eq!(compute_check_digit(&s("19")), Ok(10));
    assert_eq!(compute_valid_sequence(&s("19")), Ok(s("190")));
    assert_eq!(validate_sequence(&s("190")), Ok(true));
    assert_eq!(compute_check_digit(&s("95")), Ok(10));
    assert_eq!(compute_valid_sequence(&s("95")), Ok(s("950")));
    assert_eq!(validate_sequence(&s("950")), Ok(true));
    assert_eq!(compute_valid_sequence(&s("0")), Ok(s("00")));
    assert_eq!(validate_sequence(&s("00")), Ok(true));
}

#[test]
fn generating_twice_appends_another_digit() {
    let once = compute_valid_sequence(&s("1234")).unwrap();
    let twice = compute_valid_sequence(&once).unwrap();
    assert_eq!(once, s("12344"));
    assert_eq!(twice, s("123448"));
}

#[test]
fn generating_twice_after_check_digit_ten_appends_zero() {
    let once = compute_valid_sequence(&s("36")).unwrap();
    assert_eq!(once, s("364"));
    assert_eq!(compute_check_digit(&once), Ok(10));
    assert_eq!(compute_valid_sequence(&once), Ok(s("3640")));
    let once = compute_valid_sequence(&s("54")).unwrap();
    assert_eq!(once, s("547"));
    let twice = compute_valid_sequence(&once).unwrap();
    assert_eq!(twice.len(), 4);
    assert!(twice.starts_with("547"));
}

#[test]
fn check_digit_stays_in_range() {
    for n in 0..2000u32 {
        let d = compute_check_digit(&n.to_string()).unwrap();
        assert!((1..=10).contains(&d));
    }
}

#[test]
fn check_digit_ten_iff_sum_multiple_of_ten() {
    for n in 0..2000u32 {
        let text = n.to_string();
        let sum = compute_checksum(&text, true).unwrap();
        let digit = compute_check_digit(&text).unwrap();
        assert_eq!(sum % 10 == 0, digit == 10);
        assert_eq!(digit, 10 - sum % 10);
    }
}

#[test]
fn single_zero_boundary() {
    assert_eq!(compute_checksum(&s("0"), false), Ok(0));
    assert_eq!(compute_checksum(&s("0"), true), Ok(0));
    assert_eq!(validate_sequence(&s("0")), Ok(true));
}

#[test]
fn doubled_digits_above_nine_lose_nine() {
    assert_eq!(compute_checksum(&s("9"), true), Ok(9));
    assert_eq!(compute_checksum(&s("5"), true), Ok(1));
    assert_eq!(compute_checksum(&s("9"), false), Ok(9));
    assert_eq!(compute_checksum(&s("1234"), true), Ok(16));
    assert_eq!(compute_check_digit(&s("7992739871")), Ok(3));
    assert_eq!(validate_sequence(&s("79927398713")), Ok(true));
}

#[test]
fn weighted_sum_parity() {
    let digits = vec!['1', '2', '3', '4'];
    assert_eq!(weighted_sum(&digits, false), 14);
    assert_eq!(weighted_sum(&digits, true), 16);
    assert_eq!(weighted_sum(&Vec::new(), true), 0);
}

#[test]
fn malformed_input_is_invalid_character() {
    let bad = s("12a4");
    let err = LuhnError::InvalidCharacter;
    assert_eq!(compute_checksum(&bad, false), Err(err));
    assert_eq!(compute_checksum(&bad, true), Err(err));
    assert_eq!(compute_check_digit(&bad), Err(err));
    assert_eq!(compute_valid_sequence(&bad), Err(err));
    assert_eq!(validate_sequence(&bad), Err(err));
    assert_eq!(displayed_checksum(&bad), Err(err));
}

#[test]
fn non_ascii_and_separators_are_invalid() {
    assert_eq!(validate_sequence(&s("12\u{e9}4")), Err(LuhnError::InvalidCharacter));
    assert_eq!(validate_sequence(&s("1234 5")), Err(LuhnError::InvalidCharacter));
    assert_eq!(validate_sequence(&s("-1")), Err(LuhnError::InvalidCharacter));
}

#[test]
fn empty_input_is_refused() {
    let empty = s("");
    let err = LuhnError::EmptyInput;
    assert_eq!(compute_checksum(&empty, false), Err(err));
    assert_eq!(compute_check_digit(&empty), Err(err));
    assert_eq!(compute_valid_sequence(&empty), Err(err));
    assert_eq!(validate_sequence(&empty), Err(err));
    assert_eq!(displayed_checksum(&empty), Err(err));
}

#[test]
fn displayed_checksum_depends_on_validity() {
    assert_eq!(displayed_checksum(&s("12344")), Ok(20));
    assert_eq!(displayed_checksum(&s("1234")), Ok(16));
}

#[test]
fn validation_is_the_default_report() {
    let mut args = Arguments {
        sequence: s("1234"),
        validate: false,
        checksum: false,
        generate: false,
        digit: false,
    };
    assert!(args.reports_validation());
    args.digit = true;
    assert!(!args.reports_validation());
    args.validate = true;
    assert!(args.reports_validation());
}
