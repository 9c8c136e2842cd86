use vstd::prelude::*;

use crate::error::Error;
use crate::text::{is_substring, str_contains_char, str_contains_str, str_eq};
use std::collections::HashMap;

verus! {

/// Exact outcome of the containment rule: it passes only when every required
/// value was found, and fails with the custom message when one was declared.
pub open spec fn contains_rule(all_present: bool, msg: Option<String>) -> Result<(), Error> {
    if !all_present {
        match msg {
            Some(m) => Err(Error::Custom(m)),
            None => Err(Error::DoNotContains),
        }
    } else {
        Ok(())
    }
}

/// A value with a membership test: an element of a collection, a key of a
/// map, or a character or substring of a string.
pub trait ValidateContains<'a, T>: Sized {
    /// Whether the container holds `value`.
    spec fn spec_contains_value(&self, value: T) -> bool;

    fn contains_value(&self, value: &T) -> (r: bool)
        ensures
            r == self.spec_contains_value(*value),
    ;

    fn validate_contains(&'a self, values: &'a [T], msg: Option<String>) -> (r: Result<(), Error>)
        ensures
            r == contains_rule(
                forall|i: int| 0 <= i < values@.len() ==> self.spec_contains_value(#[trigger] values@[i]),
                msg,
            ),
    {
        let n = values.len();
        let mut i: usize = 0;
        while i < n
            invariant
                n == values@.len(),
                i <= n,
                forall|j: int| 0 <= j < i ==> self.spec_contains_value(values@[j]),
            decreases n - i,
        {
            if !self.contains_value(&values[i]) {
                return match msg {
                    Some(m) => Err(Error::Custom(m)),
                    None => Err(Error::DoNotContains),
                };
            }
            i = i + 1;
        }
        Ok(())
    }
}

impl<'a> ValidateContains<'a, &'a str> for &str {
    open spec fn spec_contains_value(&self, value: &'a str) -> bool {
        is_substring(self@, value@)
    }

    fn contains_value(&self, value: &&'a str) -> (r: bool) {
        str_contains_str(self, value)
    }
}

impl<'a> ValidateContains<'a, &'a str> for String {
    open spec fn spec_contains_value(&self, value: &'a str) -> bool {
        is_substring(self@, value@)
    }

    fn contains_value(&self, value: &&'a str) -> (r: bool) {
        str_contains_str(self.as_str(), value)
    }
}

impl<'a> ValidateContains<'a, char> for &str {
    open spec fn spec_contains_value(&self, value: char) -> bool {
        self@.contains(value)
    }

    fn contains_value(&self, value: &char) -> (r: bool) {
        str_contains_char(self, *value)
    }
}

impl<'a> ValidateContains<'a, char> for String {
    open spec fn spec_contains_value(&self, value: char) -> bool {
        self@.contains(value)
    }

    fn contains_value(&self, value: &char) -> (r: bool) {
        str_contains_char(self.as_str(), *value)
    }
}

impl<'a> ValidateContains<'a, &'a str> for Vec<&'a str> {
    open spec fn spec_contains_value(&self, value: &'a str) -> bool {
        exists|i: int| 0 <= i < self@.len() && self@[i]@ == value@
    }

    fn contains_value(&self, value: &&'a str) -> (r: bool) {
        let n = self.len();
        let mut i: usize = 0;
        while i < n
            invariant
                n == self@.len(),
                i <= n,
                forall|j: int| 0 <= j < i ==> self@[j]@ != value@,
            decreases n - i,
        {
            if str_eq(self[i], value) {
                proof {
                    assert(0 <= (i as int) < self@.len() && self@[i as int]@ == value@);
                    assert(self.spec_contains_value(*value));
                }
                return true;
            }
            i = i + 1;
        }
        proof {
            if self.spec_contains_value(*value) {
                let j = choose|j: int| 0 <= j < self@.len() && self@[j]@ == value@;
                assert(self@[j]@ != value@);
            }
        }
        false
    }
}

impl<'a> ValidateContains<'a, String> for Vec<String> {
    open spec fn spec_contains_value(&self, value: String) -> bool {
        exists|i: int| 0 <= i < self@.len() && self@[i]@ == value@
    }

    fn contains_value(&self, value: &String) -> (r: bool) {
        let n = self.len();
        let mut i: usize = 0;
        while i < n
            invariant
                n == self@.len(),
                i <= n,
                forall|j: int| 0 <= j < i ==> self@[j]@ != value@,
            decreases n - i,
        {
            if str_eq(self[i].as_str(), value.as_str()) {
                proof {
                    assert(0 <= (i as int) < self@.len() && self@[i as int]@ == value@);
                    assert(self.spec_contains_value(*value));
                }
                return true;
            }
            i = i + 1;
        }
        proof {
            if self.spec_contains_value(*value) {
                let j = choose|j: int| 0 <= j < self@.len() && self@[j]@ == value@;
                assert(self@[j]@ != value@);
            }
        }
        false
    }
}

impl<'a, V> ValidateContains<'a, i32> for HashMap<i32, V> {
    open spec fn spec_contains_value(&self, value: i32) -> bool {
        self@.contains_key(value)
    }

    fn contains_value(&self, value: &i32) -> (r: bool) {
        self.contains_key(value)
    }
}

} // verus!
