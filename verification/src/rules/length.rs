use vstd::prelude::*;

use crate::error::Error;
use std::collections::HashMap;

verus! {

/// Exact outcome of the length rule. The bounds are exclusive: a count equal
/// to `min` or to `max` is a violation. An absent value (an unset optional
/// field projects to no length at all) always passes; presence is the
/// `required` rule's business, not this one's.
pub open spec fn length_rule(
    len: Option<usize>,
    min: Option<usize>,
    max: Option<usize>,
    msg: Option<String>,
) -> Result<(), Error> {
    let fails = match len {
        Some(l) => {
            ||| match min {
                Some(m) => l <= m,
                None => false,
            }
            ||| match max {
                Some(m) => l >= m,
                None => false,
            }
        },
        None => false,
    };
    if fails {
        match msg {
            Some(m) => Err(Error::Custom(m)),
            None => Err(Error::InvalidLength { min, max }),
        }
    } else {
        Ok(())
    }
}

/// A value with a count of logical units: code points for text, elements for
/// a collection. An optional value that is unset has no count.
pub trait ValidateLength {
    /// The count the rule judges, if the value has one.
    spec fn spec_length(&self) -> Option<usize>;

    fn length(&self) -> (r: Option<usize>)
        ensures
            r == self.spec_length(),
    ;

    fn validate_length(
        &self,
        min: Option<usize>,
        max: Option<usize>,
        msg: Option<String>,
    ) -> (r: Result<(), Error>)
        ensures
            r == length_rule(self.spec_length(), min, max, msg),
    {
        let fails = match self.length() {
            Some(l) => {
                let below = match min {
                    Some(m) => l <= m,
                    None => false,
                };
                let above = match max {
                    Some(m) => l >= m,
                    None => false,
                };
                below || above
            },
            None => false,
        };
        if fails {
            match msg {
                Some(m) => Err(Error::Custom(m)),
                None => Err(Error::InvalidLength { min, max }),
            }
        } else {
            Ok(())
        }
    }
}

impl ValidateLength for &str {
    open spec fn spec_length(&self) -> Option<usize> {
        Some(self@.len() as usize)
    }

    fn length(&self) -> (r: Option<usize>) {
        Some(self.unicode_len())
    }
}

impl ValidateLength for String {
    open spec fn spec_length(&self) -> Option<usize> {
        Some(self@.len() as usize)
    }

    fn length(&self) -> (r: Option<usize>) {
        Some(self.as_str().unicode_len())
    }
}

impl<T> ValidateLength for Vec<T> {
    open spec fn spec_length(&self) -> Option<usize> {
        Some(self@.len() as usize)
    }

    fn length(&self) -> (r: Option<usize>) {
        Some(self.len())
    }
}

impl<K, V> ValidateLength for HashMap<K, V> {
    open spec fn spec_length(&self) -> Option<usize> {
        Some(vstd::std_specs::hash::spec_hash_map_len(self))
    }

    fn length(&self) -> (r: Option<usize>) {
        Some(self.len())
    }
}

impl<T: ValidateLength> ValidateLength for Option<T> {
    open spec fn spec_length(&self) -> Option<usize> {
        match self {
            Some(s) => s.spec_length(),
            None => None,
        }
    }

    fn length(&self) -> (r: Option<usize>) {
        match self {
            Some(s) => s.length(),
            None => None,
        }
    }
}

impl<T: ValidateLength> ValidateLength for std::sync::Arc<T> {
    open spec fn spec_length(&self) -> Option<usize> {
        (**self).spec_length()
    }

    fn length(&self) -> (r: Option<usize>) {
        (**self).length()
    }
}

impl<T: ValidateLength> ValidateLength for std::rc::Rc<T> {
    open spec fn spec_length(&self) -> Option<usize> {
        (**self).spec_length()
    }

    fn length(&self) -> (r: Option<usize>) {
        (**self).length()
    }
}

impl<T: ValidateLength> ValidateLength for Box<T> {
    open spec fn spec_length(&self) -> Option<usize> {
        (**self).spec_length()
    }

    fn length(&self) -> (r: Option<usize>) {
        (**self).length()
    }
}

} // verus!
