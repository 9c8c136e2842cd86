use vstd::prelude::*;

use crate::error::Error;

verus! {

/// Exact outcome of the negative rule: anything at or above zero fails.
pub open spec fn negative_rule(negative: bool, msg: Option<String>) -> Result<(), Error> {
    if !negative {
        match msg {
            Some(m) => Err(Error::Custom(m)),
            None => Err(Error::Negative),
        }
    } else {
        Ok(())
    }
}

/// A number that can say whether it lies strictly below zero. Unsigned types
/// never do, so the rule always fails on them.
pub trait ValidateNegative {
    /// Whether the value is strictly below zero.
    spec fn spec_negative(&self) -> bool;

    fn negative(&self) -> (r: bool)
        ensures
            r == self.spec_negative(),
    ;

    fn validate_negative(&self, msg: Option<String>) -> (r: Result<(), Error>)
        ensures
            r == negative_rule(self.spec_negative(), msg),
    {
        if self.negative() {
            Ok(())
        } else {
            match msg {
                Some(m) => Err(Error::Custom(m)),
                None => Err(Error::Negative),
            }
        }
    }
}

impl ValidateNegative for i8 {
    open spec fn spec_negative(&self) -> bool {
        *self < 0
    }

    fn negative(&self) -> (r: bool) {
        *self < 0
    }
}

impl ValidateNegative for i16 {
    open spec fn spec_negative(&self) -> bool {
        *self < 0
    }

    fn negative(&self) -> (r: bool) {
        *self < 0
    }
}

impl ValidateNegative for i32 {
    open spec fn spec_negative(&self) -> bool {
        *self < 0
    }

    fn negative(&self) -> (r: bool) {
        *self < 0
    }
}

impl ValidateNegative for i64 {
    open spec fn spec_negative(&self) -> bool {
        *self < 0
    }

    fn negative(&self) -> (r: bool) {
        *self < 0
    }
}

impl ValidateNegative for i128 {
    open spec fn spec_negative(&self) -> bool {
        *self < 0
    }

    fn negative(&self) -> (r: bool) {
        *self < 0
    }
}

impl ValidateNegative for u8 {
    open spec fn spec_negative(&self) -> bool {
        false
    }

    fn negative(&self) -> (r: bool) {
        false
    }
}

impl ValidateNegative for u16 {
    open spec fn spec_negative(&self) -> bool {
        false
    }

    fn negative(&self) -> (r: bool) {
        false
    }
}

impl ValidateNegative for u32 {
    open spec fn spec_negative(&self) -> bool {
        false
    }

    fn negative(&self) -> (r: bool) {
        false
    }
}

impl ValidateNegative for u64 {
    open spec fn spec_negative(&self) -> bool {
        false
    }

    fn negative(&self) -> (r: bool) {
        false
    }
}

impl ValidateNegative for u128 {
    open spec fn spec_negative(&self) -> bool {
        false
    }

    fn negative(&self) -> (r: bool) {
        false
    }
}

impl ValidateNegative for usize {
    open spec fn spec_negative(&self) -> bool {
        false
    }

    fn negative(&self) -> (r: bool) {
        false
    }
}

} // verus!
