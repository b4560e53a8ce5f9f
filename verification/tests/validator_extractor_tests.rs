use evenframe_core::typesync::flatbuffers_parser::validator_extractor::parse_validators;
use evenframe_core::validator::{ArrayValidator, NumberValidator, StringValidator, Validator};

#[test]
fn test_parse_email_validator() {
    let validators = parse_validators("email");
    assert_eq!(validators.len(), 1);
    assert!(matches!(
        validators[0],
        Validator::StringValidator(StringValidator::Email)
    ));
}

#[test]
fn test_parse_multiple_validators() {
    let validators = parse_validators("email, minLength(8), maxLength(100)");
    assert_eq!(validators.len(), 3);
    assert!(matches!(
        validators[0],
        Validator::StringValidator(StringValidator::Email)
    ));
    assert!(matches!(
        validators[1],
        Validator::StringValidator(StringValidator::MinLength(8))
    ));
    assert!(matches!(
        validators[2],
        Validator::StringValidator(StringValidator::MaxLength(100))
    ));
}

#[test]
fn test_parse_number_validators() {
    let validators = parse_validators("min(0), max(150), positive");
    assert_eq!(validators.len(), 3);
    assert!(matches!(
        validators[0],
        Validator::NumberValidator(NumberValidator::GreaterThanOrEqualTo(_))
    ));
    assert!(matches!(
        validators[1],
        Validator::NumberValidator(NumberValidator::LessThanOrEqualTo(_))
    ));
    assert!(matches!(
        validators[2],
        Validator::NumberValidator(NumberValidator::Positive)
    ));
}

#[test]
fn test_parse_array_validators() {
    let validators = parse_validators("minItems(1), maxItems(10)");
    assert_eq!(validators.len(), 2);
    assert!(matches!(
        validators[0],
        Validator::ArrayValidator(ArrayValidator::MinItems(1))
    ));
    assert!(matches!(
        validators[1],
        Validator::ArrayValidator(ArrayValidator::MaxItems(10))
    ));
}

#[test]
fn test_empty_input() {
    let validators = parse_validators("");
    assert!(validators.is_empty());
}

#[test]
fn test_unknown_validator() {
    let validators = parse_validators("unknownValidator");
    assert!(validators.is_empty());
}

#[test]
fn test_between_validator() {
    let validators = parse_validators("between(0, 100)");
    assert_eq!(validators.len(), 1);
    assert!(matches!(
        validators[0],
        Validator::NumberValidator(NumberValidator::Between(_, _))
    ));
}
