use ble_central::status::{exit_code_bytes, exit_code_or_degraded, DEGRADED_EXIT_CODE};

#[test]
fn zero_is_one_digit() {
    assert_eq!(exit_code_bytes(0), b"0".to_vec());
}

#[test]
fn positive_codes_render_in_decimal() {
    assert_eq!(exit_code_bytes(7), b"7".to_vec());
    assert_eq!(exit_code_bytes(10), b"10".to_vec());
    assert_eq!(exit_code_bytes(255), b"255".to_vec());
    assert_eq!(exit_code_bytes(i32::MAX), b"2147483647".to_vec());
}

#[test]
fn negative_codes_carry_a_sign() {
    assert_eq!(exit_code_bytes(-1), b"-1".to_vec());
    assert_eq!(exit_code_bytes(-137), b"-137".to_vec());
    assert_eq!(exit_code_bytes(i32::MIN), b"-2147483648".to_vec());
}

#[test]
fn missing_code_degrades_to_255() {
    assert_eq!(exit_code_or_degraded(None), DEGRADED_EXIT_CODE);
    assert_eq!(exit_code_or_degraded(None), 255);
    assert_eq!(exit_code_or_degraded(Some(3)), 3);
    assert_eq!(exit_code_or_degraded(Some(-9)), -9);
}
