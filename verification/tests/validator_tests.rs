use annotator::common_validators::CommonValidator;
use annotator::string_validator::StringValidator;
use annotator::validator::{BodyValidationHelpers, ValidationResult};
use annotator::user::{CreateUserBody, SignInBody};
use annotator::user_validator::{CreateUserBodyValidationResult, SignInValidationResult};

#[test]
fn validator_trims_the_value() {
    let result = StringValidator::new("  Bob  ".to_string()).length(2, 30).validate();
    assert!(result.is_valid);
    assert_eq!(result.value.unwrap(), "Bob");
}

#[test]
fn validator_collects_failure_messages_in_order() {
    let result = StringValidator::new("a1".to_string())
        .min_len(3)
        .no_number()
        .validate();
    assert!(!result.is_valid);
    assert!(result.value.is_none());
    let errors = result.errors.unwrap();
    assert_eq!(errors.len(), 2);
    assert_eq!(errors[0], "value is shorter than min length");
    assert_eq!(errors[1], "value contains a number");
}

#[test]
fn validator_checks_compose() {
    let result = StringValidator::new("HELLO".to_string()).is_uppercase().validate();
    assert!(result.is_valid);
    let result = StringValidator::new("HELLo".to_string()).is_uppercase().validate();
    assert!(!result.is_valid);
    let result = StringValidator::new("hello".to_string()).is_lowercase().validate();
    assert!(result.is_valid);
    let result = StringValidator::new("x y".to_string()).no_space().validate();
    assert!(!result.is_valid);
    let result = StringValidator::new("".to_string()).is_capitalized().validate();
    assert!(!result.is_valid);
    assert_eq!(result.errors.unwrap()[0], "value is not capitalized");
    let result = StringValidator::new("word".to_string()).is_capitalized().validate();
    assert!(result.is_valid);
    let items = vec!["red".to_string(), "blue".to_string()];
    let result = StringValidator::new("blue".to_string()).is_one_of(items.clone()).validate();
    assert!(result.is_valid);
    let result = StringValidator::new("green".to_string()).is_one_of(items).validate();
    assert!(!result.is_valid);
    let result = StringValidator::new("abcdef".to_string()).length(2, 5).validate();
    assert!(!result.is_valid);
    assert_eq!(result.errors.unwrap()[0], "value length is out of range");
}

#[test]
fn email_shapes_accepted_and_rejected() {
    assert!(CommonValidator::email("a@b.cd".to_string()).is_valid);
    assert!(CommonValidator::email("first.last+tag@mail-host.example.com".to_string()).is_valid);
    assert!(CommonValidator::email("a@b.cd.ef".to_string()).is_valid);
    // tail shorter than two letters
    assert!(!CommonValidator::email("a@b.c".to_string()).is_valid);
    // empty local part
    assert!(!CommonValidator::email("@b.cd".to_string()).is_valid);
    // empty domain part
    assert!(!CommonValidator::email("a@.cd".to_string()).is_valid);
    // no dot after the at sign
    assert!(!CommonValidator::email("a@bcd".to_string()).is_valid);
    // two at signs
    assert!(!CommonValidator::email("a@b@c.de".to_string()).is_valid);
    // whitespace inside
    assert!(!CommonValidator::email("a b@c.de".to_string()).is_valid);
    // digit in the closing segment
    assert!(!CommonValidator::email("a@b.c2".to_string()).is_valid);
    // dash in the domain is fine
    assert!(CommonValidator::email("a@b-c.de".to_string()).is_valid);
}

#[test]
fn name_validator_rules() {
    assert!(CommonValidator::name("Robert".to_string()).is_valid);
    // one character is too short
    assert!(!CommonValidator::name("R".to_string()).is_valid);
    // digits are rejected even though alphanumeric
    assert!(!CommonValidator::name("R2D2".to_string()).is_valid);
    // punctuation is rejected
    assert!(!CommonValidator::name("Anne-Marie".to_string()).is_valid);
    // over thirty characters is too long
    assert!(!CommonValidator::name("a".repeat(31)).is_valid);
    assert!(CommonValidator::name("a".repeat(30)).is_valid);
}

#[test]
fn username_validator_rules() {
    assert!(CommonValidator::username("ab12".to_string()).is_valid);
    assert!(!CommonValidator::username("a".to_string()).is_valid);
    assert!(!CommonValidator::username("a".repeat(21)).is_valid);
    assert!(!CommonValidator::username("no spaces".to_string()).is_valid);
}

#[test]
fn password_validator_rules() {
    assert!(CommonValidator::password("Passw0rd!".to_string()).is_valid);
    // missing digit
    assert!(!CommonValidator::password("Password!".to_string()).is_valid);
    // missing uppercase
    assert!(!CommonValidator::password("passw0rd!".to_string()).is_valid);
    // missing lowercase
    assert!(!CommonValidator::password("PASSW0RD!".to_string()).is_valid);
    // missing special character
    assert!(!CommonValidator::password("Passw0rd1".to_string()).is_valid);
    // too short
    assert!(!CommonValidator::password("Pw0!".to_string()).is_valid);
}

#[test]
fn validation_result_packs_value_or_errors() {
    let accepted: ValidationResult<String> =
        ValidationResult::new(Some("ok".to_string()), None);
    assert!(accepted.is_valid);
    assert_eq!(accepted.value.unwrap(), "ok");
    assert!(accepted.errors.is_none());
    let rejected: ValidationResult<String> =
        ValidationResult::new(None, Some(vec!["broken".to_string()]));
    assert!(!rejected.is_valid);
    assert!(rejected.value.is_none());
    assert_eq!(rejected.errors.unwrap()[0], "broken");
}

#[test]
fn to_vec_prefixes_the_field_name() {
    let rejected: ValidationResult<String> =
        ValidationResult::new(None, Some(vec!["value is not an email".to_string()]));
    let messages = rejected.to_vec("email");
    assert_eq!(messages.len(), 1);
    assert_eq!(messages[0], "\"email\": value is not an email");
    let accepted: ValidationResult<String> = ValidationResult::new(Some("x".to_string()), None);
    assert!(accepted.to_vec("email").is_empty());
}

#[test]
fn sign_up_body_validation_aggregates_fields() {
    let good = CreateUserBody {
        firstname: "Ada".to_string(),
        lastname: "Lovelace".to_string(),
        password: "Passw0rd!".to_string(),
        email: "ada@computing.org".to_string(),
        username: "ada".to_string(),
    };
    let validation = CreateUserBodyValidationResult::new(&good);
    assert!(validation.is_valid());
    assert!(validation.to_vec().is_empty());
    let bad = CreateUserBody { email: "not-an-email".to_string(), ..good };
    let validation = CreateUserBodyValidationResult::new(&bad);
    assert!(!validation.is_valid());
    let messages = validation.to_vec();
    assert_eq!(messages.len(), 1);
    assert_eq!(messages[0], "\"email\": value is not an email");
}

#[test]
fn sign_in_body_validation_checks_the_password() {
    let body = SignInBody { login: "ada".to_string(), password: "Passw0rd!".to_string() };
    assert!(SignInValidationResult::new(&body).is_valid());
    let body = SignInBody { login: "ada".to_string(), password: "short".to_string() };
    let validation = SignInValidationResult::new(&body);
    assert!(!validation.is_valid());
    assert!(!validation.to_vec().is_empty());
}
