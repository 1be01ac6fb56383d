use lewn::{compute_check_digit, compute_checksum, compute_valid_sequence, validate_sequence};

#[test]
fn should_generate_valid_check_digit() {
    let sequence = String::from("1234");
    assert_eq!(compute_check_digit(&sequence), Ok(4));
}

#[test]
fn should_generate_valid_luhn_number() {
    let sequence = String::from("1234");
    assert_eq!(compute_valid_sequence(&sequence), Ok(String::from("12344")));
}

#[test]
fn should_generate_valid_checksum() {
    let sequence = String::from("1234");
    assert_eq!(compute_checksum(&sequence, false), Ok(14));
}

#[test]
fn should_validate_valid_luhn_number() {
    let sequence = String::from("12344");
    assert_eq!(validate_sequence(&sequence), Ok(true));
}

#[test]
fn should_not_validate_invalid_luhn_number() {
    let sequence = String::from("1234");
    assert_eq!(validate_sequence(&sequence), Ok(false));
}
