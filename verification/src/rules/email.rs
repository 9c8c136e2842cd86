use vstd::prelude::*;

use crate::error::Error;
use crate::rules::regexp::{regex_is_match, regex_match, regex_new, regex_pattern_ok};
use crate::unicode::{cow_from_str, cow_str};
use std::borrow::Cow;

verus! {

/// The pattern held against an address.
pub open spec fn spec_email_pattern() -> Seq<char> {
    r"^([a-z0-9_+]([a-z0-9_+.]*[a-z0-9_+])?)@([a-z0-9]+([\-\.]{1}[a-z0-9]+)*\.[a-z]{2,6})"@
}

fn email_pattern() -> (r: &'static str)
    ensures
        r@ == spec_email_pattern(),
{
    r"^([a-z0-9_+]([a-z0-9_+.]*[a-z0-9_+])?)@([a-z0-9]+([\-\.]{1}[a-z0-9]+)*\.[a-z]{2,6})"
}

/// Exact outcome of the email rule: an absent value passes (presence is the
/// required rule's business); a present one must match the address pattern.
/// Should the fixed pattern ever be refused by the matcher, every present
/// value fails.
pub open spec fn email_rule(s: Option<Seq<char>>, msg: Option<String>) -> Result<(), Error> {
    match s {
        None => Ok(()),
        Some(text) => if regex_pattern_ok(spec_email_pattern()) && regex_match(
            spec_email_pattern(),
            text,
        ) {
            Ok(())
        } else {
            match msg {
                Some(m) => Err(Error::Custom(m)),
                None => Err(Error::Email),
            }
        },
    }
}

/// A value with a string form that can be read as an email address.
pub trait ValidateEmail {
    /// The string form the rule judges, if the value has one.
    spec fn spec_email(&self) -> Option<Seq<char>>;

    fn email_string(&self) -> (r: Option<Cow<str>>)
        ensures
            match r {
                Some(c) => self.spec_email() == Some(c@),
                None => self.spec_email() is None,
            },
    ;

    fn validate_email(&self, msg: Option<String>) -> (r: Result<(), Error>)
        ensures
            r == email_rule(self.spec_email(), msg),
    {
        match self.email_string() {
            None => Ok(()),
            Some(email) => {
                let matched = match regex_new(email_pattern()) {
                    Ok(re) => regex_is_match(&re, cow_str(&email)),
                    Err(_) => false,
                };
                if matched {
                    Ok(())
                } else {
                    match msg {
                        Some(m) => Err(Error::Custom(m)),
                        None => Err(Error::Email),
                    }
                }
            },
        }
    }
}

impl ValidateEmail for String {
    open spec fn spec_email(&self) -> Option<Seq<char>> {
        Some(self@)
    }

    fn email_string(&self) -> (r: Option<Cow<str>>) {
        Some(cow_from_str(self.as_str()))
    }
}

impl ValidateEmail for &str {
    open spec fn spec_email(&self) -> Option<Seq<char>> {
        Some(self@)
    }

    fn email_string(&self) -> (r: Option<Cow<str>>) {
        Some(cow_from_str(self))
    }
}

impl ValidateEmail for Cow<'_, str> {
    open spec fn spec_email(&self) -> Option<Seq<char>> {
        Some(self@)
    }

    fn email_string(&self) -> (r: Option<Cow<str>>) {
        Some(cow_from_str(cow_str(self)))
    }
}

impl<T: ValidateEmail> ValidateEmail for Option<T> {
    open spec fn spec_email(&self) -> Option<Seq<char>> {
        match self {
            Some(s) => s.spec_email(),
            None => None,
        }
    }

    fn email_string(&self) -> (r: Option<Cow<str>>) {
        match self {
            Some(s) => s.email_string(),
            None => None,
        }
    }
}

} // verus!
