//! The field validators shared by user-facing request bodies: person
//! names, usernames, passwords and e-mail addresses, each a fixed chain of
//! string checks over the trimmed value.

use vstd::prelude::*;

use crate::string_validator::{
    all_alphanumeric, all_pass, has_digit, has_lowercase, has_special, has_uppercase, is_email,
    trimmed, StringValidationFn, StringValidator,
};
use crate::validator::ValidationResult;

verus! {

/// An admissible person name: 2 to 30 characters, all alphanumeric, none
/// a digit.
pub open spec fn name_ok(v: Seq<char>) -> bool {
    let t = trimmed(v);
    &&& 2 <= t.len() <= 30
    &&& all_alphanumeric(t)
    &&& !has_digit(t)
}

/// An admissible username: 2 to 20 characters, all alphanumeric.
pub open spec fn username_ok(v: Seq<char>) -> bool {
    let t = trimmed(v);
    &&& 2 <= t.len() <= 20
    &&& all_alphanumeric(t)
}

/// An admissible password: 8 to 100 characters with a lowercase letter, an
/// uppercase letter, a digit, and a character that is none of these.
pub open spec fn password_ok(v: Seq<char>) -> bool {
    let t = trimmed(v);
    &&& 8 <= t.len() <= 100
    &&& has_lowercase(t)
    &&& has_uppercase(t)
    &&& has_digit(t)
    &&& has_special(t)
}

/// An admissible e-mail: at most 100 characters and well-shaped.
pub open spec fn email_ok(v: Seq<char>) -> bool {
    let t = trimmed(v);
    t.len() <= 100 && is_email(t)
}

/// The field validators shared by user-facing request bodies.
pub struct CommonValidator;

impl CommonValidator {
    /// Validates a person name, per [`name_ok`].
    pub fn name(v: String) -> (result: ValidationResult<String>)
        ensures
            result.is_valid == name_ok(v@),
            result.is_valid ==> (result.value matches Some(s) && s@ == trimmed(v@)),
            !result.is_valid ==> result.value is None && result.errors is Some,
    {
        let validator = StringValidator::new(v).length(2, 30).is_alphanumerical().no_number();
        let ghost tests = validator.tests@;
        let ghost captured = validator.value;
        let result = validator.validate();
        proof {
            assert(tests.len() == 3);
            assert(captured@ == trimmed(v@));
            assert(tests[0] == StringValidationFn::Length(captured, 2, 30));
            assert(tests[1] == StringValidationFn::IsAlphanumerical(captured));
            assert(tests[2] == StringValidationFn::NoNumber(captured));
            if all_pass(tests) {
                assert(tests[0].passes() && tests[1].passes() && tests[2].passes());
            } else {
                assert(!(tests[0].passes() && tests[1].passes() && tests[2].passes())) by {
                    if tests[0].passes() && tests[1].passes() && tests[2].passes() {
                        assert forall|i: int| 0 <= i < tests.len() implies (
                        #[trigger] tests[i]).passes() by {
                            if i == 0 {
                            } else if i == 1 {
                            } else {
                                assert(i == 2);
                            }
                        }
                    }
                }
            }
        }
        result
    }

    /// Validates a username, per [`username_ok`].
    pub fn username(v: String) -> (result: ValidationResult<String>)
        ensures
            result.is_valid == username_ok(v@),
            result.is_valid ==> (result.value matches Some(s) && s@ == trimmed(v@)),
            !result.is_valid ==> result.value is None && result.errors is Some,
    {
        let validator = StringValidator::new(v).length(2, 20).is_alphanumerical();
        let ghost tests = validator.tests@;
        let ghost captured = validator.value;
        let result = validator.validate();
        proof {
            assert(tests.len() == 2);
            assert(captured@ == trimmed(v@));
            assert(tests[0] == StringValidationFn::Length(captured, 2, 20));
            assert(tests[1] == StringValidationFn::IsAlphanumerical(captured));
            if all_pass(tests) {
                assert(tests[0].passes() && tests[1].passes());
            } else {
                assert(!(tests[0].passes() && tests[1].passes())) by {
                    if tests[0].passes() && tests[1].passes() {
                        assert forall|i: int| 0 <= i < tests.len() implies (
                        #[trigger] tests[i]).passes() by {
                            if i == 0 {
                            } else {
                                assert(i == 1);
                            }
                        }
                    }
                }
            }
        }
        result
    }

    /// Validates a password, per [`password_ok`].
    pub fn password(v: String) -> (result: ValidationResult<String>)
        ensures
            result.is_valid == password_ok(v@),
            result.is_valid ==> (result.value matches Some(s) && s@ == trimmed(v@)),
            !result.is_valid ==> result.value is None && result.errors is Some,
    {
        let validator = StringValidator::new(v)
            .length(8, 100)
            .contains_lowercase()
            .contains_uppercase()
            .contains_number()
            .contains_special_char();
        let ghost tests = validator.tests@;
        let ghost captured = validator.value;
        let result = validator.validate();
        proof {
            assert(tests.len() == 5);
            assert(captured@ == trimmed(v@));
            assert(tests[0] == StringValidationFn::Length(captured, 8, 100));
            assert(tests[1] == StringValidationFn::ContainsLowercase(captured));
            assert(tests[2] == StringValidationFn::ContainsUppercase(captured));
            assert(tests[3] == StringValidationFn::ContainsNumber(captured));
            assert(tests[4] == StringValidationFn::ContainsSpecialChar(captured));
            if all_pass(tests) {
                assert(tests[0].passes() && tests[1].passes() && tests[2].passes()
                    && tests[3].passes() && tests[4].passes());
            } else {
                assert(!(tests[0].passes() && tests[1].passes() && tests[2].passes()
                    && tests[3].passes() && tests[4].passes())) by {
                    if tests[0].passes() && tests[1].passes() && tests[2].passes()
                        && tests[3].passes() && tests[4].passes() {
                        assert forall|i: int| 0 <= i < tests.len() implies (
                        #[trigger] tests[i]).passes() by {
                            if i == 0 {
                            } else if i == 1 {
                            } else if i == 2 {
                            } else if i == 3 {
                            } else {
                                assert(i == 4);
                            }
                        }
                    }
                }
            }
        }
        result
    }

    /// Validates an e-mail address, per [`email_ok`].
    pub fn email(v: String) -> (result: ValidationResult<String>)
        ensures
            result.is_valid == email_ok(v@),
            result.is_valid ==> (result.value matches Some(s) && s@ == trimmed(v@)),
            !result.is_valid ==> result.value is None && result.errors is Some,
    {
        let validator = StringValidator::new(v).max_len(100).is_email();
        let ghost tests = validator.tests@;
        let ghost captured = validator.value;
        let result = validator.validate();
        proof {
            assert(tests.len() == 2);
            assert(captured@ == trimmed(v@));
            assert(tests[0] == StringValidationFn::MaxLength(captured, 100));
            assert(tests[1] == StringValidationFn::IsEmail(captured));
            if all_pass(tests) {
                assert(tests[0].passes() && tests[1].passes());
            } else {
                assert(!(tests[0].passes() && tests[1].passes())) by {
                    if tests[0].passes() && tests[1].passes() {
                        assert forall|i: int| 0 <= i < tests.len() implies (
                        #[trigger] tests[i]).passes() by {
                            if i == 0 {
                            } else {
                                assert(i == 1);
                            }
                        }
                    }
                }
            }
        }
        result
    }
}

} // verus!
