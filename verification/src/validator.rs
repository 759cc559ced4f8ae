//! The outcome of validating a field, and the helper trait that
//! body-level validation results implement.

use vstd::prelude::*;
use vstd::string::StringExecFns;

verus! {

/// The outcome of validating one value: either the accepted value, or the
/// messages explaining its rejection.
#[derive(Debug)]
pub struct ValidationResult<T> {
    pub value: Option<T>,
    pub is_valid: bool,
    pub errors: Option<Vec<String>>,
}

impl<T> ValidationResult<T> {
    /// Packs an accepted value or a non-empty list of rejection messages.
    pub fn new(value: Option<T>, errors: Option<Vec<String>>) -> (result: ValidationResult<T>)
        requires
            value is Some || (errors matches Some(e) && e@.len() > 0),
        ensures
            value is Some ==> result.value == value && result.is_valid && result.errors is None,
            value is None ==> result.value is None && !result.is_valid && result.errors == errors,
    {
        match value {
            Some(v) => ValidationResult { value: Some(v), is_valid: true, errors: None },
            None => ValidationResult { value: None, is_valid: false, errors },
        }
    }

    /// The rejection messages, each prefixed with the quoted field name;
    /// empty when the value was accepted.
    pub fn to_vec(&self, field: &str) -> (messages: Vec<String>)
        ensures
            self.is_valid ==> messages@.len() == 0,
            !self.is_valid ==> (match self.errors {
                Some(errors) => messages.deep_view().len() == errors.deep_view().len()
                    && forall|i: int|
                    0 <= i < errors.deep_view().len()
                        ==> #[trigger] messages.deep_view()[i] == field_message(
                        field@,
                        errors.deep_view()[i],
                    ),
                None => messages@.len() == 0,
            }),
    {
        let mut messages: Vec<String> = Vec::new();
        if self.is_valid {
            return messages;
        }
        let errors = match &self.errors {
            Some(errors) => errors,
            None => {
                return messages;
            },
        };
        let mut i: usize = 0;
        while i < errors.len()
            invariant
                i <= errors.len(),
                messages.deep_view().len() == i,
                forall|j: int|
                    0 <= j < i ==> #[trigger] messages.deep_view()[j] == field_message(
                        field@,
                        errors.deep_view()[j],
                    ),
            decreases errors.len() - i,
        {
            let mut line = String::from_str("\"");
            line.append(field);
            line.append("\": ");
            line.append(errors[i].as_str());
            proof {
                reveal_strlit("\"");
                reveal_strlit("\": ");
                assert(line@ =~= field_message(field@, errors.deep_view()[i as int]));
            }
            let ghost before = messages.deep_view();
            messages.push(line);
            proof {
                assert(messages.deep_view() =~= before.push(line@));
            }
            i += 1;
        }
        messages
    }
}

/// A rejection message for the field `field`: the field name in quotes, a
/// colon, and the message.
pub open spec fn field_message(field: Seq<char>, message: Seq<char>) -> Seq<char> {
    "\""@ + field + "\": "@ + message
}

/// What a body-level validation result offers: whether every field was
/// accepted, and the collected field-prefixed rejection messages.
pub trait BodyValidationHelpers {
    /// Whether this result accepts the body.
    spec fn spec_valid(&self) -> bool;

    /// True iff every field of the body was accepted.
    fn is_valid(&self) -> (valid: bool)
        ensures
            valid == self.spec_valid(),
    ;

    /// The collected, field-prefixed rejection messages.
    fn to_vec(&self) -> Vec<String>;
}

} // verus!
