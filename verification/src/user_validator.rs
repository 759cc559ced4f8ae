//! Body-level validation for the account endpoints: sign-up bodies have
//! every field checked, sign-in bodies only the password.

use vstd::prelude::*;

use crate::common_validators::{email_ok, name_ok, password_ok, username_ok, CommonValidator};
use crate::user::{CreateUserBody, SignInBody};
use crate::validator::{BodyValidationHelpers, ValidationResult};

verus! {

/// The field-by-field outcome of validating a sign-up body.
#[derive(Debug)]
pub struct CreateUserBodyValidationResult {
    pub email: ValidationResult<String>,
    pub firstname: ValidationResult<String>,
    pub lastname: ValidationResult<String>,
    pub username: ValidationResult<String>,
    pub password: ValidationResult<String>,
}

impl CreateUserBodyValidationResult {
    /// Validates every field of a sign-up body.
    pub fn new(body: &CreateUserBody) -> (result: CreateUserBodyValidationResult)
        ensures
            result.spec_valid() == (email_ok(body.email@) && name_ok(body.firstname@) && name_ok(
                body.lastname@,
            ) && username_ok(body.username@) && password_ok(body.password@)),
    {
        let email = CommonValidator::email(body.email.clone());
        let firstname = CommonValidator::name(body.firstname.clone());
        let lastname = CommonValidator::name(body.lastname.clone());
        let username = CommonValidator::username(body.username.clone());
        let password = CommonValidator::password(body.password.clone());
        CreateUserBodyValidationResult { email, firstname, lastname, username, password }
    }
}

impl BodyValidationHelpers for CreateUserBodyValidationResult {
    open spec fn spec_valid(&self) -> bool {
        &&& self.email.is_valid
        &&& self.firstname.is_valid
        &&& self.lastname.is_valid
        &&& self.username.is_valid
        &&& self.password.is_valid
    }

    fn is_valid(&self) -> (valid: bool) {
        self.email.is_valid && self.firstname.is_valid && self.lastname.is_valid
            && self.username.is_valid && self.password.is_valid
    }

    fn to_vec(&self) -> Vec<String> {
        let mut out = self.email.to_vec("email");
        let mut part = self.firstname.to_vec("firstname");
        out.append(&mut part);
        let mut part = self.lastname.to_vec("lastname");
        out.append(&mut part);
        let mut part = self.username.to_vec("username");
        out.append(&mut part);
        let mut part = self.password.to_vec("password");
        out.append(&mut part);
        out
    }
}

/// The outcome of validating a sign-in body: only the password's shape is
/// checked before the credentials are tried.
#[derive(Debug)]
pub struct SignInValidationResult {
    pub password: ValidationResult<String>,
}

impl SignInValidationResult {
    /// Validates the password of a sign-in body.
    pub fn new(body: &SignInBody) -> (result: SignInValidationResult)
        ensures
            result.spec_valid() == password_ok(body.password@),
    {
        let password = CommonValidator::password(body.password.clone());
        SignInValidationResult { password }
    }
}

impl BodyValidationHelpers for SignInValidationResult {
    open spec fn spec_valid(&self) -> bool {
        self.password.is_valid
    }

    fn is_valid(&self) -> (valid: bool) {
        self.password.is_valid
    }

    fn to_vec(&self) -> Vec<String> {
        self.password.to_vec("password")
    }
}

} // verus!
