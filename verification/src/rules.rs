use vstd::prelude::*;

pub mod alphanumeric;
pub mod alphapetic;
pub mod ascii;
pub mod color;
pub mod contains;
pub mod email;
pub mod ip;
pub mod length;
pub mod lowercase;
pub mod negative;
pub mod phone;
pub mod range;
pub mod regexp;
pub mod required;
pub mod uppercase;

verus! {

/// A borrowed string form of a value, used by rules that only need text.
pub trait AsStr {
    /// What the borrowed string reads as.
    spec fn spec_str(&self) -> Seq<char>;

    fn as_str(&self) -> (r: &str)
        ensures
            r@ == self.spec_str(),
    ;
}

impl AsStr for &str {
    open spec fn spec_str(&self) -> Seq<char> {
        self@
    }

    fn as_str(&self) -> (r: &str) {
        self
    }
}

impl AsStr for String {
    open spec fn spec_str(&self) -> Seq<char> {
        self@
    }

    fn as_str(&self) -> (r: &str) {
        String::as_str(self)
    }
}

impl AsStr for std::borrow::Cow<'_, str> {
    open spec fn spec_str(&self) -> Seq<char> {
        self@
    }

    fn as_str(&self) -> (r: &str) {
        crate::unicode::cow_str(self)
    }
}

impl<T: AsStr> AsStr for Option<T> {
    open spec fn spec_str(&self) -> Seq<char> {
        match self {
            Some(s) => s.spec_str(),
            None => Seq::empty(),
        }
    }

    fn as_str(&self) -> (r: &str) {
        match self {
            Some(s) => s.as_str(),
            None => {
                let empty = "";
                proof {
                    reveal_strlit("");
                    assert(empty@ =~= Seq::<char>::empty());
                }
                empty
            },
        }
    }
}

} // verus!
