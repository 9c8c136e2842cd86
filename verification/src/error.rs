use vstd::prelude::*;

verus! {

/// The closed taxonomy of run-time validation failures: one variant per rule
/// family, plus `Custom`, which carries an author-supplied message and is
/// produced instead of the structured variant whenever such a message was
/// declared on the failing rule.
#[derive(Debug)]
pub enum Error {
    InvalidLength { min: Option<usize>, max: Option<usize> },
    InvalidRange { min: Option<usize>, max: Option<usize> },
    DoNotContains,
    Required,
    Negative,
    Positive,
    Email,
    Ip,
    Alphanumeric,
    Alphabetic,
    Ascii,
    Lowercase,
    Uppercase,
    Color(crate::rules::color::ColorError),
    Phone(crate::rules::phone::PhoneError),
    Custom(String),
}

} // verus!
