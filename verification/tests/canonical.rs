use wire_helpers::canonical::{canonicalize_fixed, WIRE_DECIMALS};

/// Render a value at the wire precision, then trim it to canonical
/// form, as the payload-serialization layer does before hashing.
fn float_to_string_for_hashing(x: f64) -> String {
    canonicalize_fixed(&format!("{:.*}", usize::from(WIRE_DECIMALS), x))
}

#[test]
fn float_to_string_for_hashing_test() {
    assert_eq!(float_to_string_for_hashing(0.), "0".to_string());
    assert_eq!(float_to_string_for_hashing(-0.), "0".to_string());
    assert_eq!(float_to_string_for_hashing(-0.0000), "0".to_string());
    assert_eq!(
        float_to_string_for_hashing(0.00076000),
        "0.00076".to_string()
    );
    assert_eq!(
        float_to_string_for_hashing(0.00000001),
        "0.00000001".to_string()
    );
    assert_eq!(
        float_to_string_for_hashing(0.12345678),
        "0.12345678".to_string()
    );
    assert_eq!(
        float_to_string_for_hashing(87654321.12345678),
        "87654321.12345678".to_string()
    );
    assert_eq!(
        float_to_string_for_hashing(987654321.00000000),
        "987654321".to_string()
    );
    assert_eq!(
        float_to_string_for_hashing(87654321.1234),
        "87654321.1234".to_string()
    );
    assert_eq!(float_to_string_for_hashing(0.000760), "0.00076".to_string());
    assert_eq!(float_to_string_for_hashing(0.00076), "0.00076".to_string());
    assert_eq!(
        float_to_string_for_hashing(987654321.0),
        "987654321".to_string()
    );
    assert_eq!(
        float_to_string_for_hashing(987654321.),
        "987654321".to_string()
    );
}

#[test]
fn canonicalize_strips_zero_fraction_to_integer() {
    assert_eq!(canonicalize_fixed("987654321.00000000"), "987654321");
    assert_eq!(canonicalize_fixed("1.00000000"), "1");
}

#[test]
fn canonicalize_keeps_significant_fraction_digits() {
    assert_eq!(canonicalize_fixed("0.00000001"), "0.00000001");
    assert_eq!(canonicalize_fixed("87654321.12345678"), "87654321.12345678");
}

#[test]
fn canonicalize_trims_trailing_fraction_zeros() {
    assert_eq!(canonicalize_fixed("87654321.12340000"), "87654321.1234");
    assert_eq!(canonicalize_fixed("0.00076000"), "0.00076");
}

#[test]
fn canonicalize_turns_negative_zero_into_zero() {
    assert_eq!(canonicalize_fixed("-0.00000000"), "0");
    assert_eq!(canonicalize_fixed("0.00000000"), "0");
}

#[test]
fn canonicalize_keeps_sign_of_negative_values() {
    assert_eq!(canonicalize_fixed("-12.50000000"), "-12.5");
    assert_eq!(canonicalize_fixed("-3.00000000"), "-3");
}

#[test]
fn non_finite_values_keep_their_standard_spelling() {
    // Non-finite values never reach a signed payload in practice; the
    // encoder is total over them all the same: the standard rendering
    // has no trailing zeros to trim and passes through unchanged.
    assert_eq!(float_to_string_for_hashing(f64::NAN), "NaN");
    assert_eq!(float_to_string_for_hashing(f64::INFINITY), "inf");
    assert_eq!(float_to_string_for_hashing(f64::NEG_INFINITY), "-inf");
}

#[test]
fn canonicalize_protects_integer_zeros_behind_the_point() {
    assert_eq!(canonicalize_fixed("100.00000000"), "100");
    assert_eq!(canonicalize_fixed("10.10000000"), "10.1");
}
