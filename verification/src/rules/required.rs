use vstd::prelude::*;

use crate::error::Error;
use std::collections::HashMap;

verus! {

/// Exact outcome of the required rule: an empty or absent value fails, with
/// the custom message when one was declared and the structured error
/// otherwise.
pub open spec fn required_rule(empty: bool, msg: Option<String>) -> Result<(), Error> {
    if empty {
        match msg {
            Some(m) => Err(Error::Custom(m)),
            None => Err(Error::Required),
        }
    } else {
        Ok(())
    }
}

/// A value with an emptiness test: an empty string, an empty collection or
/// an unset optional counts as missing.
pub trait ValidateRequired {
    /// Whether the value counts as missing.
    spec fn spec_empty(&self) -> bool;

    fn empty(&self) -> (r: bool)
        ensures
            r == self.spec_empty(),
    ;

    fn validate_required(&self, msg: Option<String>) -> (r: Result<(), Error>)
        ensures
            r == required_rule(self.spec_empty(), msg),
    {
        if self.empty() {
            match msg {
                Some(m) => Err(Error::Custom(m)),
                None => Err(Error::Required),
            }
        } else {
            Ok(())
        }
    }
}

impl ValidateRequired for &str {
    open spec fn spec_empty(&self) -> bool {
        self@.len() == 0
    }

    fn empty(&self) -> (r: bool) {
        self.unicode_len() == 0
    }
}

impl ValidateRequired for String {
    open spec fn spec_empty(&self) -> bool {
        self@.len() == 0
    }

    fn empty(&self) -> (r: bool) {
        self.as_str().unicode_len() == 0
    }
}

impl<T> ValidateRequired for Vec<T> {
    open spec fn spec_empty(&self) -> bool {
        self@.len() == 0
    }

    fn empty(&self) -> (r: bool) {
        self.len() == 0
    }
}

impl<T> ValidateRequired for Option<T> {
    open spec fn spec_empty(&self) -> bool {
        self is None
    }

    fn empty(&self) -> (r: bool) {
        match self {
            Some(_) => false,
            None => true,
        }
    }
}

impl<K, V> ValidateRequired for HashMap<K, V> {
    open spec fn spec_empty(&self) -> bool {
        self@.is_empty()
    }

    fn empty(&self) -> (r: bool) {
        self.is_empty()
    }
}

impl<T: ValidateRequired> ValidateRequired for std::sync::Arc<T> {
    open spec fn spec_empty(&self) -> bool {
        (**self).spec_empty()
    }

    fn empty(&self) -> (r: bool) {
        (**self).empty()
    }
}

impl<T: ValidateRequired> ValidateRequired for std::rc::Rc<T> {
    open spec fn spec_empty(&self) -> bool {
        (**self).spec_empty()
    }

    fn empty(&self) -> (r: bool) {
        (**self).empty()
    }
}

impl<T: ValidateRequired> ValidateRequired for Box<T> {
    open spec fn spec_empty(&self) -> bool {
        (**self).spec_empty()
    }

    fn empty(&self) -> (r: bool) {
        (**self).empty()
    }
}

} // verus!
