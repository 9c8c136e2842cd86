use vstd::prelude::*;

use crate::error::Error;
use crate::unicode::{all_uppercase, uppercase_chars, cow_str};
use std::borrow::Cow;

verus! {

/// Exact outcome of the uppercase rule: every character must be
/// uppercase; a value with no string form fails outright.
pub open spec fn uppercase_rule(s: Option<Seq<char>>, msg: Option<String>) -> Result<(), Error> {
    let ok = match s {
        Some(cs) => uppercase_chars(cs),
        None => false,
    };
    if ok {
        Ok(())
    } else {
        match msg {
            Some(m) => Err(Error::Custom(m)),
            None => Err(Error::Uppercase),
        }
    }
}

/// A value with a string form whose characters must all be uppercase.
pub trait ValidateUppercase {
    /// The string form the rule judges, if the value has one.
    spec fn spec_str(&self) -> Option<Seq<char>>;

    fn str(&self) -> (r: Option<&str>)
        ensures
            match r {
                Some(s) => self.spec_str() == Some(s@),
                None => self.spec_str() is None,
            },
    ;

    fn validate_uppercase(&self, msg: Option<String>) -> (r: Result<(), Error>)
        ensures
            r == uppercase_rule(self.spec_str(), msg),
    {
        match self.str() {
            Some(s) => {
                if all_uppercase(s) {
                    Ok(())
                } else {
                    match msg {
                        Some(m) => Err(Error::Custom(m)),
                        None => Err(Error::Uppercase),
                    }
                }
            },
            None => match msg {
                Some(m) => Err(Error::Custom(m)),
                None => Err(Error::Uppercase),
            },
        }
    }
}

impl ValidateUppercase for String {
    open spec fn spec_str(&self) -> Option<Seq<char>> {
        Some(self@)
    }

    fn str(&self) -> (r: Option<&str>) {
        Some(self.as_str())
    }
}

impl ValidateUppercase for &str {
    open spec fn spec_str(&self) -> Option<Seq<char>> {
        Some(self@)
    }

    fn str(&self) -> (r: Option<&str>) {
        Some(self)
    }
}

impl ValidateUppercase for Cow<'_, str> {
    open spec fn spec_str(&self) -> Option<Seq<char>> {
        Some(self@)
    }

    fn str(&self) -> (r: Option<&str>) {
        Some(cow_str(self))
    }
}

impl<T: ValidateUppercase> ValidateUppercase for Option<T> {
    open spec fn spec_str(&self) -> Option<Seq<char>> {
        match self {
            Some(s) => s.spec_str(),
            None => None,
        }
    }

    fn str(&self) -> (r: Option<&str>) {
        match self {
            Some(s) => s.str(),
            None => None,
        }
    }
}

} // verus!
