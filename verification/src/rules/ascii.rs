use vstd::prelude::*;

use crate::error::Error;
use crate::unicode::cow_str;
use std::borrow::Cow;
use vstd::utf8::is_ascii_chars;

verus! {

/// Exact outcome of the ascii rule: every character must fall in the ASCII
/// range; a value with no string form fails outright.
pub open spec fn ascii_rule(s: Option<Seq<char>>, msg: Option<String>) -> Result<(), Error> {
    let ok = match s {
        Some(cs) => is_ascii_chars(cs),
        None => false,
    };
    if ok {
        Ok(())
    } else {
        match msg {
            Some(m) => Err(Error::Custom(m)),
            None => Err(Error::Ascii),
        }
    }
}

/// A value with a string form whose characters must all be ASCII.
pub trait ValidateAscii {
    /// The string form the rule judges, if the value has one.
    spec fn spec_str(&self) -> Option<Seq<char>>;

    fn str(&self) -> (r: Option<&str>)
        ensures
            match r {
                Some(s) => self.spec_str() == Some(s@),
                None => self.spec_str() is None,
            },
    ;

    fn validate_ascii(&self, msg: Option<String>) -> (r: Result<(), Error>)
        ensures
            r == ascii_rule(self.spec_str(), msg),
    {
        match self.str() {
            Some(s) => {
                if s.is_ascii() {
                    Ok(())
                } else {
                    match msg {
                        Some(m) => Err(Error::Custom(m)),
                        None => Err(Error::Ascii),
                    }
                }
            },
            None => match msg {
                Some(m) => Err(Error::Custom(m)),
                None => Err(Error::Ascii),
            },
        }
    }
}

impl ValidateAscii for String {
    open spec fn spec_str(&self) -> Option<Seq<char>> {
        Some(self@)
    }

    fn str(&self) -> (r: Option<&str>) {
        Some(self.as_str())
    }
}

impl ValidateAscii for &str {
    open spec fn spec_str(&self) -> Option<Seq<char>> {
        Some(self@)
    }

    fn str(&self) -> (r: Option<&str>) {
        Some(self)
    }
}

impl ValidateAscii for Cow<'_, str> {
    open spec fn spec_str(&self) -> Option<Seq<char>> {
        Some(self@)
    }

    fn str(&self) -> (r: Option<&str>) {
        Some(cow_str(self))
    }
}

impl<T: ValidateAscii> ValidateAscii for Option<T> {
    open spec fn spec_str(&self) -> Option<Seq<char>> {
        match self {
            Some(s) => s.spec_str(),
            None => None,
        }
    }

    fn str(&self) -> (r: Option<&str>) {
        match self {
            Some(s) => s.str(),
            None => None,
        }
    }
}

} // verus!
