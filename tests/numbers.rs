use csv_tools::number::is_valid_dynamodb_number;
use csv_tools::validate::{check_value, is_valid_dynamodb_number_local};
use csv_tools::date::is_valid_optional_date;

#[test]
fn test_is_valid_dynamodb_number() {
    assert!(is_valid_dynamodb_number("123"));
    assert!(is_valid_dynamodb_number("-456"));
    assert!(is_valid_dynamodb_number("123.456"));
    assert!(is_valid_dynamodb_number("-789.012"));
    assert!(is_valid_dynamodb_number("1.23e10"));
    assert!(is_valid_dynamodb_number("1.23E-5"));

    assert!(!is_valid_dynamodb_number(""));
    assert!(!is_valid_dynamodb_number(" 123"));
    assert!(!is_valid_dynamodb_number("123 "));
    assert!(!is_valid_dynamodb_number("1,234"));
    assert!(!is_valid_dynamodb_number("+123"));
    assert!(!is_valid_dynamodb_number("abc"));
    assert!(!is_valid_dynamodb_number("12.34.56"));
    assert!(!is_valid_dynamodb_number("--123"));
    assert!(!is_valid_dynamodb_number("."));
    assert!(!is_valid_dynamodb_number("-"));
}

#[test]
fn number_exponent_forms() {
    assert!(is_valid_dynamodb_number("1e5"));
    assert!(is_valid_dynamodb_number("1.5e+3"));
    assert!(is_valid_dynamodb_number("-2E-7"));
    assert!(!is_valid_dynamodb_number("1e"));
    assert!(!is_valid_dynamodb_number("1e+"));
    assert!(!is_valid_dynamodb_number("1e5e6"));
    assert!(!is_valid_dynamodb_number("1.e5"));
    assert!(!is_valid_dynamodb_number(".5"));
    assert!(!is_valid_dynamodb_number("5."));
    assert!(!is_valid_dynamodb_number("e5"));
}

#[test]
fn number_significant_digit_limit() {
    let thirty_eight = "1".repeat(38);
    let thirty_nine = "1".repeat(39);
    assert!(is_valid_dynamodb_number(&thirty_eight));
    assert!(!is_valid_dynamodb_number(&thirty_nine));
    let with_point = format!("{}.{}", "9".repeat(20), "9".repeat(18));
    assert!(is_valid_dynamodb_number(&with_point));
    let too_long_with_point = format!("{}.{}", "9".repeat(20), "9".repeat(19));
    assert!(!is_valid_dynamodb_number(&too_long_with_point));
    let signed = format!("-{}", "7".repeat(38));
    assert!(is_valid_dynamodb_number(&signed));
}

#[test]
fn number_local_trims_first() {
    assert!(is_valid_dynamodb_number_local("  123\t"));
    assert!(is_valid_dynamodb_number_local("\n-4.5 "));
    assert!(!is_valid_dynamodb_number_local("   "));
    assert!(!is_valid_dynamodb_number_local(" 1 2 "));
}

#[test]
fn optional_date_shapes() {
    assert!(is_valid_optional_date(""));
    assert!(is_valid_optional_date("2024-01-05"));
    assert!(is_valid_optional_date("2024-01-05 10:20:30"));
    assert!(is_valid_optional_date("2024-13-40"));
    assert!(!is_valid_optional_date("2024-1-05"));
    assert!(!is_valid_optional_date("2024/01/05"));
    assert!(!is_valid_optional_date("2024-01-05T10:20:30"));
    assert!(!is_valid_optional_date("2024-01-05 10:20"));
    assert!(!is_valid_optional_date("abcd-ef-gh"));
}

#[test]
fn check_value_picks_grammar() {
    assert!(check_value(true, "42"));
    assert!(!check_value(true, ""));
    assert!(check_value(false, ""));
    assert!(!check_value(false, "42"));
    assert!(check_value(false, "2020-02-30"));
}
