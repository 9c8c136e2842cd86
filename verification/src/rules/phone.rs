use vstd::prelude::*;

use crate::rules::AsStr;

verus! {

/// Failures of the phone rule.
#[derive(Debug, Clone)]
pub enum PhoneError {
    Invalid,
    Custom(String),
}

/// Whether `phonenumber::parse` (with no country hint) accepts `s`: the
/// crate decides against metadata embedded in it, so the answer is a fixed
/// function of the text.
pub uninterp spec fn phone_ok(s: Seq<char>) -> bool;

/// Relies on `phonenumber::parse` with no country hint: a deterministic
/// parse against the crate's embedded number plans.
#[verifier::external_body]
fn phone_parse_ok(s: &str) -> (b: bool)
    ensures
        b == phone_ok(s@),
{
    phonenumber::parse(None, s).is_ok()
}

/// Exact outcome of the phone rule.
pub open spec fn phone_rule(s: Seq<char>, msg: Option<String>) -> Result<(), PhoneError> {
    if phone_ok(s) {
        Ok(())
    } else {
        match msg {
            Some(m) => Err(PhoneError::Custom(m)),
            None => Err(PhoneError::Invalid),
        }
    }
}

/// A value with a string form that can be read as a phone number.
pub trait ValidatePhone: AsStr {
    fn validate_phone(&self, msg: Option<String>) -> (r: Result<(), PhoneError>)
        ensures
            r == phone_rule(self.spec_str(), msg),
    {
        if phone_parse_ok(self.as_str()) {
            Ok(())
        } else {
            match msg {
                Some(m) => Err(PhoneError::Custom(m)),
                None => Err(PhoneError::Invalid),
            }
        }
    }
}

impl<T: AsStr> ValidatePhone for T {
}

} // verus!
