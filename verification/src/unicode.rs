use vstd::prelude::*;

use std::borrow::Cow;

verus! {

/// What `char::is_alphanumeric` returns for `c`: a fixed function of the
/// character, looked up in the Unicode tables.
pub uninterp spec fn alphanumeric_char(c: char) -> bool;

/// What `char::is_alphabetic` returns for `c`.
pub uninterp spec fn alphabetic_char(c: char) -> bool;

/// What `char::is_lowercase` returns for `c`.
pub uninterp spec fn lowercase_char(c: char) -> bool;

/// What `char::is_uppercase` returns for `c`.
pub uninterp spec fn uppercase_char(c: char) -> bool;

/// Relies on `char::is_alphanumeric`: Unicode classification of one character.
#[verifier::external_body]
fn is_alphanumeric_char(c: char) -> (b: bool)
    ensures
        b == alphanumeric_char(c),
{
    c.is_alphanumeric()
}

/// Relies on `char::is_alphabetic`: Unicode classification of one character.
#[verifier::external_body]
fn is_alphabetic_char(c: char) -> (b: bool)
    ensures
        b == alphabetic_char(c),
{
    c.is_alphabetic()
}

/// Relies on `char::is_lowercase`: Unicode classification of one character.
#[verifier::external_body]
fn is_lowercase_char(c: char) -> (b: bool)
    ensures
        b == lowercase_char(c),
{
    c.is_lowercase()
}

/// Relies on `char::is_uppercase`: Unicode classification of one character.
#[verifier::external_body]
fn is_uppercase_char(c: char) -> (b: bool)
    ensures
        b == uppercase_char(c),
{
    c.is_uppercase()
}

/// Every character of `cs` is alphanumeric.
pub open spec fn alphanumeric_chars(cs: Seq<char>) -> bool {
    forall|i: int| 0 <= i < cs.len() ==> alphanumeric_char(#[trigger] cs[i])
}

/// Every character of `s` is alphanumeric.
pub fn all_alphanumeric(s: &str) -> (b: bool)
    ensures
        b == alphanumeric_chars(s@),
{
    let n = s.unicode_len();
    let mut i: usize = 0;
    while i < n
        invariant
            n == s@.len(),
            i <= n,
            forall|j: int| 0 <= j < i ==> alphanumeric_char(#[trigger] s@[j]),
        decreases n - i,
    {
        if !is_alphanumeric_char(s.get_char(i)) {
            return false;
        }
        i = i + 1;
    }
    true
}

/// Every character of `cs` is alphabetic.
pub open spec fn alphabetic_chars(cs: Seq<char>) -> bool {
    forall|i: int| 0 <= i < cs.len() ==> alphabetic_char(#[trigger] cs[i])
}

/// Every character of `s` is alphabetic.
pub fn all_alphabetic(s: &str) -> (b: bool)
    ensures
        b == alphabetic_chars(s@),
{
    let n = s.unicode_len();
    let mut i: usize = 0;
    while i < n
        invariant
            n == s@.len(),
            i <= n,
            forall|j: int| 0 <= j < i ==> alphabetic_char(#[trigger] s@[j]),
        decreases n - i,
    {
        if !is_alphabetic_char(s.get_char(i)) {
            return false;
        }
        i = i + 1;
    }
    true
}

/// Every character of `cs` is lowercase.
pub open spec fn lowercase_chars(cs: Seq<char>) -> bool {
    forall|i: int| 0 <= i < cs.len() ==> lowercase_char(#[trigger] cs[i])
}

/// Every character of `s` is lowercase.
pub fn all_lowercase(s: &str) -> (b: bool)
    ensures
        b == lowercase_chars(s@),
{
    let n = s.unicode_len();
    let mut i: usize = 0;
    while i < n
        invariant
            n == s@.len(),
            i <= n,
            forall|j: int| 0 <= j < i ==> lowercase_char(#[trigger] s@[j]),
        decreases n - i,
    {
        if !is_lowercase_char(s.get_char(i)) {
            return false;
        }
        i = i + 1;
    }
    true
}

/// Every character of `cs` is uppercase.
pub open spec fn uppercase_chars(cs: Seq<char>) -> bool {
    forall|i: int| 0 <= i < cs.len() ==> uppercase_char(#[trigger] cs[i])
}

/// Every character of `s` is uppercase.
pub fn all_uppercase(s: &str) -> (b: bool)
    ensures
        b == uppercase_chars(s@),
{
    let n = s.unicode_len();
    let mut i: usize = 0;
    while i < n
        invariant
            n == s@.len(),
            i <= n,
            forall|j: int| 0 <= j < i ==> uppercase_char(#[trigger] s@[j]),
        decreases n - i,
    {
        if !is_uppercase_char(s.get_char(i)) {
            return false;
        }
        i = i + 1;
    }
    true
}

/// Relies on `Cow::<str>::as_ref`: borrows the held string, whichever side
/// of the copy-on-write the value is on.
#[verifier::external_body]
pub fn cow_str<'a>(c: &'a Cow<'a, str>) -> (r: &'a str)
    ensures
        r@ == c@,
{
    c.as_ref()
}

/// Relies on `Cow::Borrowed`: wraps a borrowed string without copying it.
#[verifier::external_body]
pub fn cow_from_str<'a>(s: &'a str) -> (c: Cow<'a, str>)
    ensures
        c@ == s@,
{
    Cow::Borrowed(s)
}

} // verus!
