use vstd::prelude::*;

use crate::error::Error;

verus! {

/// Exact outcome of the range rule. The bounds are inclusive: a value equal
/// to `min` or to `max` passes. An absent value counts as below any declared
/// minimum (and never above a maximum), mirroring how an unset optional
/// orders below every present magnitude.
pub open spec fn range_rule(
    value: Option<usize>,
    min: Option<usize>,
    max: Option<usize>,
    msg: Option<String>,
) -> Result<(), Error> {
    let fails = {
        ||| match min {
            Some(m) => match value {
                Some(v) => v < m,
                None => true,
            },
            None => false,
        }
        ||| match max {
            Some(m) => match value {
                Some(v) => v > m,
                None => false,
            },
            None => false,
        }
    };
    if fails {
        match msg {
            Some(m) => Err(Error::Custom(m)),
            None => Err(Error::InvalidRange { min, max }),
        }
    } else {
        Ok(())
    }
}

/// A value with a non-negative numeric magnitude. Signed and oversized
/// sources project by truncation to the unsigned machine word; negative
/// inputs are out of the rule's scope.
pub trait ValidateRange {
    /// The magnitude the rule judges, if the value has one.
    spec fn spec_value(&self) -> Option<usize>;

    fn value(&self) -> (r: Option<usize>)
        ensures
            r == self.spec_value(),
    ;

    fn validate_range(
        &self,
        min: Option<usize>,
        max: Option<usize>,
        msg: Option<String>,
    ) -> (r: Result<(), Error>)
        ensures
            r == range_rule(self.spec_value(), min, max, msg),
    {
        let v = self.value();
        let below = match min {
            Some(m) => match v {
                Some(x) => x < m,
                None => true,
            },
            None => false,
        };
        let above = match max {
            Some(m) => match v {
                Some(x) => x > m,
                None => false,
            },
            None => false,
        };
        if below || above {
            match msg {
                Some(m) => Err(Error::Custom(m)),
                None => Err(Error::InvalidRange { min, max }),
            }
        } else {
            Ok(())
        }
    }
}

impl ValidateRange for usize {
    open spec fn spec_value(&self) -> Option<usize> {
        Some(*self)
    }

    fn value(&self) -> (r: Option<usize>) {
        Some(*self)
    }
}

impl ValidateRange for u8 {
    open spec fn spec_value(&self) -> Option<usize> {
        Some(*self as usize)
    }

    fn value(&self) -> (r: Option<usize>) {
        Some(*self as usize)
    }
}

impl ValidateRange for u16 {
    open spec fn spec_value(&self) -> Option<usize> {
        Some(*self as usize)
    }

    fn value(&self) -> (r: Option<usize>) {
        Some(*self as usize)
    }
}

impl ValidateRange for u32 {
    open spec fn spec_value(&self) -> Option<usize> {
        Some(*self as usize)
    }

    fn value(&self) -> (r: Option<usize>) {
        Some(*self as usize)
    }
}

impl ValidateRange for u64 {
    open spec fn spec_value(&self) -> Option<usize> {
        Some(*self as usize)
    }

    fn value(&self) -> (r: Option<usize>) {
        Some(#[verifier::truncate] (*self as usize))
    }
}

impl ValidateRange for u128 {
    open spec fn spec_value(&self) -> Option<usize> {
        Some(*self as usize)
    }

    fn value(&self) -> (r: Option<usize>) {
        Some(#[verifier::truncate] (*self as usize))
    }
}

impl ValidateRange for i8 {
    open spec fn spec_value(&self) -> Option<usize> {
        Some(*self as usize)
    }

    fn value(&self) -> (r: Option<usize>) {
        Some(#[verifier::truncate] (*self as usize))
    }
}

impl ValidateRange for i16 {
    open spec fn spec_value(&self) -> Option<usize> {
        Some(*self as usize)
    }

    fn value(&self) -> (r: Option<usize>) {
        Some(#[verifier::truncate] (*self as usize))
    }
}

impl ValidateRange for i32 {
    open spec fn spec_value(&self) -> Option<usize> {
        Some(*self as usize)
    }

    fn value(&self) -> (r: Option<usize>) {
        Some(#[verifier::truncate] (*self as usize))
    }
}

impl ValidateRange for i64 {
    open spec fn spec_value(&self) -> Option<usize> {
        Some(*self as usize)
    }

    fn value(&self) -> (r: Option<usize>) {
        Some(#[verifier::truncate] (*self as usize))
    }
}

impl ValidateRange for i128 {
    open spec fn spec_value(&self) -> Option<usize> {
        Some(*self as usize)
    }

    fn value(&self) -> (r: Option<usize>) {
        Some(#[verifier::truncate] (*self as usize))
    }
}

impl<T: ValidateRange> ValidateRange for Option<T> {
    open spec fn spec_value(&self) -> Option<usize> {
        match self {
            Some(s) => s.spec_value(),
            None => None,
        }
    }

    fn value(&self) -> (r: Option<usize>) {
        match self {
            Some(s) => s.value(),
            None => None,
        }
    }
}

impl<T: ValidateRange> ValidateRange for std::sync::Arc<T> {
    open spec fn spec_value(&self) -> Option<usize> {
        (**self).spec_value()
    }

    fn value(&self) -> (r: Option<usize>) {
        (**self).value()
    }
}

impl<T: ValidateRange> ValidateRange for std::rc::Rc<T> {
    open spec fn spec_value(&self) -> Option<usize> {
        (**self).spec_value()
    }

    fn value(&self) -> (r: Option<usize>) {
        (**self).value()
    }
}

impl<T: ValidateRange> ValidateRange for Box<T> {
    open spec fn spec_value(&self) -> Option<usize> {
        (**self).spec_value()
    }

    fn value(&self) -> (r: Option<usize>) {
        (**self).value()
    }
}

} // verus!
