use vstd::prelude::*;

use crate::unicode::cow_str;
use regex::Regex;
use std::borrow::Cow;

verus! {

#[verifier::external_type_specification]
#[verifier::external_body]
pub struct ExRegex(Regex);

/// The pattern text a compiled `regex::Regex` was built from.
pub uninterp spec fn regex_pattern(r: Regex) -> Seq<char>;

/// Whether the regex crate accepts `pat` as a pattern.
pub uninterp spec fn regex_pattern_ok(pat: Seq<char>) -> bool;

/// Whether the pattern `pat` matches anywhere in `text`, as the regex crate
/// decides it: a fixed function of the pattern and the text.
pub uninterp spec fn regex_match(pat: Seq<char>, text: Seq<char>) -> bool;

/// Relies on `regex::Regex::new`: compiling succeeds exactly on the patterns
/// the crate accepts, and the compiled value stands for the pattern it was
/// built from. A failure is reported as the crate's error text.
#[verifier::external_body]
pub fn regex_new(pat: &str) -> (r: Result<Regex, String>)
    ensures
        match r {
            Ok(re) => regex_pattern_ok(pat@) && regex_pattern(re) == pat@,
            Err(_) => !regex_pattern_ok(pat@),
        },
{
    Regex::new(pat).map_err(|e| e.to_string())
}

/// Relies on `regex::Regex::is_match`: whether the compiled pattern matches
/// anywhere in `text`.
#[verifier::external_body]
pub fn regex_is_match(re: &Regex, text: &str) -> (b: bool)
    ensures
        b == regex_match(regex_pattern(*re), text@),
{
    re.is_match(text)
}

/// Failures of the pattern-match rule, kept apart from the main taxonomy as
/// the pattern itself may be rejected.
#[derive(Debug, Clone)]
pub enum RegexError {
    NoMatch,
    InvalidPattern(String),
    Custom(String),
}

/// Exact outcome of the pattern rule for a compiled pattern: a value with no
/// string form fails like a non-match does.
pub open spec fn regex_rule(
    s: Option<Seq<char>>,
    pat: Seq<char>,
    msg: Option<String>,
) -> Result<(), RegexError> {
    let err = match msg {
        Some(m) => RegexError::Custom(m),
        None => RegexError::NoMatch,
    };
    match s {
        Some(text) => if regex_match(pat, text) {
            Ok(())
        } else {
            Err(err)
        },
        None => Err(err),
    }
}

/// A value with a string form that can be held against a regular expression.
pub trait ValidateRegex {
    /// The string form the rule judges, if the value has one.
    spec fn spec_str(&self) -> Option<Seq<char>>;

    fn regex_str(&self) -> (r: Option<&str>)
        ensures
            match r {
                Some(s) => self.spec_str() == Some(s@),
                None => self.spec_str() is None,
            },
    ;

    fn validate_regex(&self, regex: &Regex, msg: Option<String>) -> (r: Result<(), RegexError>)
        ensures
            r == regex_rule(self.spec_str(), regex_pattern(*regex), msg),
    {
        match self.regex_str() {
            Some(s) => {
                if regex_is_match(regex, s) {
                    Ok(())
                } else {
                    match msg {
                        Some(m) => Err(RegexError::Custom(m)),
                        None => Err(RegexError::NoMatch),
                    }
                }
            },
            None => match msg {
                Some(m) => Err(RegexError::Custom(m)),
                None => Err(RegexError::NoMatch),
            },
        }
    }

    fn validate_regex_pattern(&self, pattern: &str, msg: Option<String>) -> (r: Result<
        (),
        RegexError,
    >)
        ensures
            regex_pattern_ok(pattern@) ==> r == regex_rule(self.spec_str(), pattern@, msg),
            !regex_pattern_ok(pattern@) ==> r matches Err(RegexError::InvalidPattern(_)),
    {
        match regex_new(pattern) {
            Ok(re) => self.validate_regex(&re, msg),
            Err(e) => Err(RegexError::InvalidPattern(e)),
        }
    }
}

impl ValidateRegex for String {
    open spec fn spec_str(&self) -> Option<Seq<char>> {
        Some(self@)
    }

    fn regex_str(&self) -> (r: Option<&str>) {
        Some(self.as_str())
    }
}

impl ValidateRegex for &str {
    open spec fn spec_str(&self) -> Option<Seq<char>> {
        Some(self@)
    }

    fn regex_str(&self) -> (r: Option<&str>) {
        Some(self)
    }
}

impl ValidateRegex for Cow<'_, str> {
    open spec fn spec_str(&self) -> Option<Seq<char>> {
        Some(self@)
    }

    fn regex_str(&self) -> (r: Option<&str>) {
        Some(cow_str(self))
    }
}

impl<T: ValidateRegex> ValidateRegex for Option<T> {
    open spec fn spec_str(&self) -> Option<Seq<char>> {
        match self {
            Some(s) => s.spec_str(),
            None => None,
        }
    }

    fn regex_str(&self) -> (r: Option<&str>) {
        match self {
            Some(s) => s.regex_str(),
            None => None,
        }
    }
}

} // verus!
