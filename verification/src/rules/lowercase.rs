use vstd::prelude::*;

use crate::error::Error;
use crate::unicode::{all_lowercase, lowercase_chars, cow_str};
use std::borrow::Cow;

verus! {

/// Exact outcome of the lowercase rule: every character must be
/// lowercase; a value with no string form fails outright.
pub open spec fn lowercase_rule(s: Option<Seq<char>>, msg: Option<String>) -> Result<(), Error> {
    let ok = match s {
        Some(cs) => lowercase_chars(cs),
        None => false,
    };
    if ok {
        Ok(())
    } else {
        match msg {
            Some(m) => Err(Error::Custom(m)),
            None => Err(Error::Lowercase),
        }
    }
}

/// A value with a string form whose characters must all be lowercase.
pub trait ValidateLowercase {
    /// The string form the rule judges, if the value has one.
    spec fn spec_str(&self) -> Option<Seq<char>>;

    fn str(&self) -> (r: Option<&str>)
        ensures
            match r {
                Some(s) => self.spec_str() == Some(s@),
                None => self.spec_str() is None,
            },
    ;

    fn validate_lowercase(&self, msg: Option<String>) -> (r: Result<(), Error>)
        ensures
            r == lowercase_rule(self.spec_str(), msg),
    {
        match self.str() {
            Some(s) => {
                if all_lowercase(s) {
                    Ok(())
                } else {
                    match msg {
                        Some(m) => Err(Error::Custom(m)),
                        None => Err(Error::Lowercase),
                    }
                }
            },
            None => match msg {
                Some(m) => Err(Error::Custom(m)),
                None => Err(Error::Lowercase),
            },
        }
    }
}

impl ValidateLowercase for String {
    open spec fn spec_str(&self) -> Option<Seq<char>> {
        Some(self@)
    }

    fn str(&self) -> (r: Option<&str>) {
        Some(self.as_str())
    }
}

impl ValidateLowercase for &str {
    open spec fn spec_str(&self) -> Option<Seq<char>> {
        Some(self@)
    }

    fn str(&self) -> (r: Option<&str>) {
        Some(self)
    }
}

impl ValidateLowercase for Cow<'_, str> {
    open spec fn spec_str(&self) -> Option<Seq<char>> {
        Some(self@)
    }

    fn str(&self) -> (r: Option<&str>) {
        Some(cow_str(self))
    }
}

impl<T: ValidateLowercase> ValidateLowercase for Option<T> {
    open spec fn spec_str(&self) -> Option<Seq<char>> {
        match self {
            Some(s) => s.spec_str(),
            None => None,
        }
    }

    fn str(&self) -> (r: Option<&str>) {
        match self {
            Some(s) => s.str(),
            None => None,
        }
    }
}

} // verus!
