use std::borrow::Cow;
use std::collections::HashMap;

use regex::Regex;

use validrs::error::Error;
use validrs::rules::alphanumeric::ValidateAlphanumeric;
use validrs::rules::alphapetic::ValidateAlphabetic;
use validrs::rules::ascii::ValidateAscii;
use validrs::rules::color::{
    try_detect_format, validate_alpha, validate_hex, validate_hsl, validate_hsla, validate_hue,
    validate_percentage, validate_rgb, validate_rgba, ColorError, ColorFormat, ValidateColor,
};
use validrs::rules::contains::ValidateContains;
use validrs::rules::email::ValidateEmail;
use validrs::rules::length::ValidateLength;
use validrs::rules::lowercase::ValidateLowercase;
use validrs::rules::negative::ValidateNegative;
use validrs::rules::phone::{PhoneError, ValidatePhone};
use validrs::rules::range::ValidateRange;
use validrs::rules::regexp::{RegexError, ValidateRegex};
use validrs::rules::required::ValidateRequired;
use validrs::rules::uppercase::ValidateUppercase;

#[test]
fn test_alphanumeric_validation() {
    assert!("abc123".validate_alphanumeric(None).is_ok());
    assert!("ABCXYZ".validate_alphanumeric(None).is_ok());
    assert!("123456".validate_alphanumeric(None).is_ok());
    assert!("abc-123".validate_alphanumeric(None).is_err());
    assert!("".validate_alphanumeric(None).is_ok());
}

#[test]
fn test_alphabetic_validation() {
    assert!("abcdef".validate_alphabetic(None).is_ok());
    assert!("ABCXYZ".validate_alphabetic(None).is_ok());
    assert!("123456".validate_alphabetic(None).is_err());
    assert!("abc123".validate_alphabetic(None).is_err());
    assert!("".validate_alphabetic(None).is_ok());
}

#[test]
fn test_ascii_validation() {
    assert!("abc123".validate_ascii(None).is_ok());
    assert!("ABCXYZ".validate_ascii(None).is_ok());
    assert!("123456".validate_ascii(None).is_ok());
    assert!("abc-123".validate_ascii(None).is_ok());
    assert!("".validate_ascii(None).is_ok());
}

#[test]
fn test_hex_validation() {
    assert!("#abc".validate_color(Some(ColorFormat::Hex), None).is_ok());
    assert!("#a1b2c3".validate_color(Some(ColorFormat::Hex), None).is_ok());
    assert!("#abcd".validate_color(Some(ColorFormat::Hex), None).is_ok());
    assert!("#a1b2c3d4".validate_color(Some(ColorFormat::Hex), None).is_ok());
}

#[test]
fn test_rgb_validation() {
    assert!("rgb(255, 100, 50)".validate_color(Some(ColorFormat::Rgb), None).is_ok());
    assert!("rgb(100%, 50%, 0%)".validate_color(Some(ColorFormat::Rgb), None).is_ok());
}

#[test]
fn test_hsl_validation() {
    assert!("hsl(180, 50%, 50%)".validate_color(Some(ColorFormat::Hsl), None).is_ok());
    assert!("hsla(180, 50%, 50%, 0.5)".validate_color(Some(ColorFormat::Hsla), None).is_ok());
}

#[test]
fn test_auto_detection() {
    assert!("#abc".validate_color(None, None).is_ok());
    assert!("rgb(255, 255, 255)".validate_color(None, None).is_ok());
    assert!("invalid".validate_color(None, None).is_err());
}

#[test]
fn test_validate_contains_substring_in_str() {
    let valid = "test@gmail.com".validate_contains(&["@"], None).unwrap();
    assert_eq!(valid, ());
}

#[test]
fn test_validate_contains_substring_in_string() {
    let valid = "test@gmail.com"
        .to_string()
        .validate_contains(&["@"], None)
        .unwrap();
    assert_eq!(valid, ());
}

#[test]
fn test_validate_contains_element_in_vec() {
    let valid = vec!["abc", "def", "ghi"]
        .validate_contains(&["def"], None)
        .unwrap();
    assert_eq!(valid, ());
}

#[test]
fn test_validate_contains_element_in_hashmap() {
    let mut map = HashMap::new();
    map.insert(1, "a");
    map.insert(2, "b");
    map.insert(3, "c");
    let valid = map.validate_contains(&[1], None).unwrap();
    assert_eq!(valid, ());
}

#[test]
fn test_validate_email() {
    assert!("test@gmail.com".validate_email(None).is_ok());
}

#[test]
fn test_validate_str_length() {
    let valid = "hello".validate_length(Some(1), Some(10), None).unwrap();
    assert_eq!(valid, ());
}

#[test]
fn test_validate_vec_length() {
    let valid = vec![1, 2, 3]
        .validate_length(Some(1), Some(10), None)
        .unwrap();
    assert_eq!(valid, ());
}

#[test]
fn test_lowercase_validation() {
    assert!("abcdef".validate_lowercase(None).is_ok());
    assert!("ABCXYZ".validate_lowercase(None).is_err());
    assert!("aBc".validate_lowercase(None).is_err());
    assert!("".validate_lowercase(None).is_ok());
}

#[test]
fn test_validate_number() {
    assert!((-3).validate_negative(None).is_ok());
}

#[test]
fn test_valid_international_numbers() {
    assert!("+12125551212".validate_phone(None).is_ok());
    assert!("+442072222222".validate_phone(None).is_ok());
    assert!("+74951234567".validate_phone(None).is_ok());
    assert!(Some("+74951234567").validate_phone(None).is_ok());
}

#[test]
fn test_invalid_numbers() {
    assert!("12345".validate_phone(None).is_err());
    assert!("+9991234567".validate_phone(None).is_err());
    assert!("abcdefg".validate_phone(None).is_err());
}

#[test]
fn test_validate_length() {
    let valid = 5.validate_range(Some(1), Some(10), None).unwrap();
    assert_eq!(valid, ());
}

#[test]
fn test_regex_validation() {
    let test_regex = Regex::new(r"^\d{3}-\d{2}-\d{4}$").unwrap();
    let email_regex = Regex::new(r"^[a-zA-Z0-9._%+-]+@[a-zA-Z0-9.-]+\.[a-zA-Z]{2,}$").unwrap();
    let phone_regex = Regex::new(r"^\+?[\d\s-]{10,}$").unwrap();

    assert!("123-45-6789".validate_regex(&test_regex, None).is_ok());
    assert!("invalid".validate_regex(&test_regex, None).is_err());

    assert!(
        "123-45-6789"
            .validate_regex_pattern(r"\d{3}-\d{2}-\d{4}", None)
            .is_ok()
    );
    assert!("invalid".validate_regex_pattern(r"\d+", None).is_err());

    let err = "invalid"
        .validate_regex_pattern(r"\d+", Some("Custom error".into()))
        .unwrap_err();
    assert!(matches!(err, RegexError::Custom(_)));

    assert!("test@example.com".validate_regex(&email_regex, None).is_ok());
    assert!("+1234567890".validate_regex(&phone_regex, None).is_ok());
}

#[test]
fn test_invalid_pattern() {
    let result = "test".validate_regex_pattern(r"invalid[", None);
    assert!(matches!(result, Err(RegexError::InvalidPattern(_))));
}

#[test]
fn test_different_types() {
    let test_regex = Regex::new(r"^\d{3}-\d{2}-\d{4}$").unwrap();
    assert!(String::from("123-45-6789").validate_regex(&test_regex, None).is_ok());
    assert!(Some("123-45-6789").validate_regex(&test_regex, None).is_ok());
    assert!(None::<&str>.validate_regex(&test_regex, None).is_err());
    assert!(Cow::Borrowed("123-45-6789").validate_regex(&test_regex, None).is_ok());
}

#[test]
fn test_validate_option() {
    let valid = Some(1).validate_required(None).unwrap();
    assert_eq!(valid, ())
}

#[test]
fn test_validate_str() {
    let valid = "abc".validate_required(None).unwrap();
    assert_eq!(valid, ())
}

#[test]
fn test_validate_vec() {
    let valid = vec![1].validate_required(None).unwrap();
    assert_eq!(valid, ())
}

#[test]
fn test_validate_hashmap() {
    let mut map = HashMap::new();
    map.insert(1, "a");
    let valid = map.validate_required(None).unwrap();
    assert_eq!(valid, ())
}

#[test]
fn test_uppercase_validation() {
    assert!("ABCXYZ".validate_uppercase(None).is_ok());
    assert!("abcdef".validate_uppercase(None).is_err());
    assert!("aBc".validate_uppercase(None).is_err());
    assert!("".validate_uppercase(None).is_ok());
}

#[test]
fn test_length_boundary_is_exclusive() {
    assert!(matches!(
        "hi".validate_length(Some(2), Some(10), None),
        Err(Error::InvalidLength { min: Some(2), max: Some(10) })
    ));
    assert!(matches!(
        "0123456789".validate_length(Some(1), Some(10), None),
        Err(Error::InvalidLength { min: Some(1), max: Some(10) })
    ));
    assert!("abc".validate_length(Some(2), Some(4), None).is_ok());
}

#[test]
fn test_range_boundary_is_inclusive() {
    assert!(18.validate_range(Some(18), Some(120), None).is_ok());
    assert!(120.validate_range(Some(18), Some(120), None).is_ok());
    assert!(matches!(
        17.validate_range(Some(18), Some(120), None),
        Err(Error::InvalidRange { min: Some(18), max: Some(120) })
    ));
    assert!(matches!(
        121.validate_range(Some(18), Some(120), None),
        Err(Error::InvalidRange { min: Some(18), max: Some(120) })
    ));
}

#[test]
fn test_length_absent_value_passes() {
    let unset: Option<String> = None;
    assert!(unset.validate_length(Some(1), Some(10), None).is_ok());
}

#[test]
fn test_rule_error_variants() {
    assert!(matches!("x".validate_contains(&["y"], None), Err(Error::DoNotContains)));
    let unset: Option<i32> = None;
    assert!(matches!(unset.validate_required(None), Err(Error::Required)));
    assert!(matches!(5.validate_negative(None), Err(Error::Negative)));
    assert!(matches!("not an address".validate_email(None), Err(Error::Email)));
    assert!(matches!("abc-123".validate_alphanumeric(None), Err(Error::Alphanumeric)));
    assert!(matches!("abc123".validate_alphabetic(None), Err(Error::Alphabetic)));
    assert!(matches!("caf\u{00e9}".validate_ascii(None), Err(Error::Ascii)));
    assert!(matches!("ABC".validate_lowercase(None), Err(Error::Lowercase)));
    assert!(matches!("abc".validate_uppercase(None), Err(Error::Uppercase)));
    assert!(matches!("12345".validate_phone(None), Err(PhoneError::Invalid)));
}

#[test]
fn test_custom_message_replaces_error() {
    let r = "x".validate_contains(&["y"], Some("needs a y".to_string()));
    match r {
        Err(Error::Custom(m)) => assert_eq!(m, "needs a y"),
        other => panic!("expected a custom message, got {:?}", other),
    }
    let r = 17.validate_range(Some(18), None, Some("too young".to_string()));
    assert!(matches!(r, Err(Error::Custom(_))));
}

#[test]
fn test_color_out_of_range() {
    assert!(matches!(
        validate_hue("360"),
        Err(Error::Color(ColorError::OutOfRange))
    ));
    assert!(validate_hue("359.9").is_ok());
    assert!(matches!(
        validate_percentage("101%"),
        Err(Error::Color(ColorError::OutOfRange))
    ));
    assert!(validate_percentage("100%").is_ok());
    assert!(validate_alpha("1.0").is_ok());
    assert!(matches!(
        validate_alpha("1.5"),
        Err(Error::Color(ColorError::OutOfRange))
    ));
    assert!(matches!(
        validate_hue("abc"),
        Err(Error::Color(ColorError::InvalidFormat))
    ));
}

#[test]
fn test_color_format_helpers() {
    assert!(validate_hex("#a1b2c3").is_ok());
    assert!(validate_hex("a1b2c3").is_err());
    assert!(validate_hex("#a1b2c").is_err());
    assert!(validate_rgb("rgb(0, 0, 255)").is_ok());
    assert!(validate_rgb("rgb(0, 0)").is_err());
    assert!(validate_rgb("rgb(0, 0, 256)").is_err());
    assert!(validate_rgba("rgba(0, 0, 255, 0.5)").is_ok());
    assert!(validate_rgba("rgba(0, 0, 255, 2)").is_err());
    assert!(validate_hsl("hsl(12, 5%, 5%)").is_ok());
    assert!(validate_hsl("hsl(12, 5, 5)").is_err());
    assert!(validate_hsla("hsla(12, 5%, 5%, 1)").is_ok());
    assert!(try_detect_format("hsl(12, 5%, 5%)").is_ok());
    assert!(try_detect_format("gray").is_err());
}
