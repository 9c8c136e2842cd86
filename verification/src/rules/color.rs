use vstd::prelude::*;

use crate::error::Error;
use crate::text::{blank_char, digit_char, digit_prefix_len, digits_value, lemma_digit_prefix_len, str_starts_with, trim_front_spec};
use crate::unicode::cow_str;
use std::borrow::Cow;

verus! {

/// The color notations a value can be held against.
pub enum ColorFormat {
    Hex,
    Rgb,
    Rgba,
    Hsl,
    Hsla,
}

/// Failures of the color rule.
#[derive(Debug)]
pub enum ColorError {
    InvalidFormat,
    OutOfRange,
    Custom(String),
}

pub open spec fn hex_digit_char(c: char) -> bool {
    digit_char(c) || ('a' <= c && c <= 'f') || ('A' <= c && c <= 'F')
}

/// Number of leading sign characters (at most one).
pub open spec fn sign_len(cs: Seq<char>) -> int {
    if cs.len() > 0 && (cs[0] == '+' || cs[0] == '-') {
        1
    } else {
        0
    }
}

/// The numeral with its sign stripped.
pub open spec fn numeral_body(cs: Seq<char>) -> Seq<char> {
    cs.skip(sign_len(cs))
}

/// Shape of a decimal numeral accepted by the color checks: an optional
/// sign, at least one digit, and optionally a dot followed by at least one
/// digit.
pub open spec fn numeral_ok(cs: Seq<char>) -> bool {
    let b = numeral_body(cs);
    let w = digit_prefix_len(b);
    &&& w >= 1
    &&& (w == b.len() || (b[w] == '.' && w + 1 < b.len() && forall|i: int|
        w < i < b.len() ==> digit_char(#[trigger] b[i])))
}

/// Value of the numeral's whole part.
pub open spec fn numeral_whole(cs: Seq<char>) -> int {
    let b = numeral_body(cs);
    digits_value(b.take(digit_prefix_len(b)))
}

/// Every digit after the dot, if any, is zero.
pub open spec fn numeral_frac_zero(cs: Seq<char>) -> bool {
    let b = numeral_body(cs);
    let w = digit_prefix_len(b);
    forall|i: int| w < i < b.len() ==> #[trigger] b[i] == '0'
}

/// The numeral denotes a value strictly below zero.
pub open spec fn numeral_negative(cs: Seq<char>) -> bool {
    cs.len() > 0 && cs[0] == '-' && (numeral_whole(cs) > 0 || !numeral_frac_zero(cs))
}

/// The numeral's value lies in `[0, max]`.
pub open spec fn within_max(cs: Seq<char>, max: int) -> bool {
    &&& !numeral_negative(cs)
    &&& (numeral_whole(cs) < max || (numeral_whole(cs) == max && numeral_frac_zero(cs)))
}

/// The numeral's value lies in `[0, bound)`.
pub open spec fn below_strict(cs: Seq<char>, bound: int) -> bool {
    !numeral_negative(cs) && numeral_whole(cs) < bound
}

/// Reads a decimal numeral: its sign, whether the value is strictly
/// negative, the whole part (exact up to 1000, reported as 1001 beyond),
/// and whether the fractional part is all zeros.
fn parse_numeral(s: &str) -> (r: Option<(bool, u32, bool)>)
    ensures
        r is Some <==> numeral_ok(s@),
        match r {
            Some((neg, w, fz)) => {
                &&& neg == numeral_negative(s@)
                &&& fz == numeral_frac_zero(s@)
                &&& ((w <= 1000 && w == numeral_whole(s@)) || (w == 1001 && numeral_whole(s@)
                    > 1000))
            },
            None => true,
        },
{
    let n = s.unicode_len();
    let mut i: usize = 0;
    let mut sign_neg = false;
    if n > 0 {
        let c0 = s.get_char(0);
        if c0 == '+' {
            i = 1;
        } else if c0 == '-' {
            sign_neg = true;
            i = 1;
        }
    }
    let ghost b = numeral_body(s@);
    proof {
        assert(sign_len(s@) == i as int);
        assert(b =~= s@.skip(i as int));
    }
    // whole part
    let mut j: usize = i;
    let mut acc: u32 = 0;
    loop
        invariant
            n == s@.len(),
            i <= j <= n,
            i == sign_len(s@),
            b == s@.skip(i as int),
            forall|m: int| i <= m < j ==> digit_char(#[trigger] s@[m]),
            ({
                let v = digits_value(s@.subrange(i as int, j as int));
                (v <= 1000 && acc == v) || (v > 1000 && acc == 1001)
            }),
        ensures
            j == n || !digit_char(s@[j as int]),
        decreases n - j,
    {
        if j == n {
            break;
        }
        let c = s.get_char(j);
        if !('0' <= c && c <= '9') {
            break;
        }
        let d: u32 = c as u32 - '0' as u32;
        proof {
            let ds = s@.subrange(i as int, j as int);
            let ds2 = s@.subrange(i as int, j as int + 1);
            assert(ds2.drop_last() =~= ds);
            assert(ds2.last() == s@[j as int]);
        }
        let wide: u32 = acc * 10 + d;
        if wide > 1000 {
            acc = 1001;
        } else {
            acc = wide;
        }
        j = j + 1;
    }
    let wlen = j - i;
    proof {
        assert forall|m: int| 0 <= m < wlen as int implies digit_char(#[trigger] b[m]) by {
            assert(b[m] == s@[i + m]);
        }
        if (j as int) < n as int {
            assert(b[wlen as int] == s@[j as int]);
        }
        lemma_digit_prefix_len(b, wlen as int);
        assert(b.take(wlen as int) =~= s@.subrange(i as int, j as int));
    }
    if wlen == 0 {
        return None;
    }
    if j == n {
        // no fractional part
        let neg = sign_neg && acc > 0;
        return Some((neg, acc, true));
    }
    let dot = s.get_char(j);
    if dot != '.' {
        return None;
    }
    if j + 1 == n {
        return None;
    }
    // fractional digits
    let mut k: usize = j + 1;
    let mut fz = true;
    while k < n
        invariant
            n == s@.len(),
            i == sign_len(s@),
            b == s@.skip(i as int),
            i <= j < k <= n,
            digit_prefix_len(b) == j - i,
            1 <= j - i,
            b[j - i] == '.',
            forall|m: int| j < m < k ==> digit_char(#[trigger] s@[m]),
            fz == (forall|m: int| j < m < k ==> #[trigger] s@[m] == '0'),
        decreases n - k,
    {
        let c = s.get_char(k);
        if !('0' <= c && c <= '9') {
            proof {
                assert(b[k - i] == s@[k as int]);
                assert(!digit_char(b[k - i]));
            }
            return None;
        }
        if c != '0' {
            fz = false;
        }
        k = k + 1;
    }
    proof {
        assert(b[wlen as int] == '.');
        assert forall|m: int| (wlen as int) < m < b.len() implies digit_char(#[trigger] b[m]) by {
            assert(b[m] == s@[i + m]);
        }
        assert(numeral_ok(s@));
        assert forall|m: int| (wlen as int) < m < b.len() implies (b[m] == '0' <==> s@[i + m]
            == '0') by {
            assert(b[m] == s@[i + m]);
        }
        if fz {
            assert forall|m: int| (wlen as int) < m < b.len() implies #[trigger] b[m] == '0' by {
                assert(b[m] == s@[i + m]);
            }
        } else {
            let m0 = choose|m: int| j < m < n && !(#[trigger] s@[m] == '0');
            assert(b[m0 - i] == s@[m0]);
        }
        assert(fz == numeral_frac_zero(s@));
    }
    let neg = sign_neg && (acc > 0 || !fz);
    Some((neg, acc, fz))
}

/// Every character after the leading `#` is a hexadecimal digit.
pub open spec fn hex_tail(cs: Seq<char>) -> bool {
    forall|i: int| 1 <= i < cs.len() ==> hex_digit_char(#[trigger] cs[i])
}

/// Exact outcome of the hex notation check: `#` followed by 3, 4, 6 or 8
/// hexadecimal digits.
pub open spec fn hex_result(cs: Seq<char>) -> Result<(), Error> {
    if cs.len() == 0 || cs[0] != '#' {
        Err(Error::Color(ColorError::InvalidFormat))
    } else if !(cs.len() == 4 || cs.len() == 5 || cs.len() == 7 || cs.len() == 9) {
        Err(Error::Color(ColorError::InvalidFormat))
    } else if !hex_tail(cs) {
        Err(Error::Color(ColorError::InvalidFormat))
    } else {
        Ok(())
    }
}

pub fn validate_hex(hex: &str) -> (r: Result<(), Error>)
    ensures
        r == hex_result(hex@),
{
    let n = hex.unicode_len();
    if n == 0 || hex.get_char(0) != '#' {
        return Err(Error::Color(ColorError::InvalidFormat));
    }
    if !(n == 4 || n == 5 || n == 7 || n == 9) {
        return Err(Error::Color(ColorError::InvalidFormat));
    }
    let mut i: usize = 1;
    while i < n
        invariant
            n == hex@.len(),
            1 <= i <= n,
            forall|m: int| 1 <= m < i ==> hex_digit_char(#[trigger] hex@[m]),
        decreases n - i,
    {
        let c = hex.get_char(i);
        if !(('0' <= c && c <= '9') || ('a' <= c && c <= 'f') || ('A' <= c && c <= 'F')) {
            return Err(Error::Color(ColorError::InvalidFormat));
        }
        i = i + 1;
    }
    Ok(())
}

/// Exact outcome of the hue check: a numeral in `[0, 360)`.
pub open spec fn hue_result(cs: Seq<char>) -> Result<(), Error> {
    if !numeral_ok(cs) {
        Err(Error::Color(ColorError::InvalidFormat))
    } else if !below_strict(cs, 360) {
        Err(Error::Color(ColorError::OutOfRange))
    } else {
        Ok(())
    }
}

pub fn validate_hue(s: &str) -> (r: Result<(), Error>)
    ensures
        r == hue_result(s@),
{
    match parse_numeral(s) {
        None => Err(Error::Color(ColorError::InvalidFormat)),
        Some((neg, w, _fz)) => {
            if !neg && w < 360 {
                Ok(())
            } else {
                Err(Error::Color(ColorError::OutOfRange))
            }
        },
    }
}

/// Exact outcome of the alpha check: a numeral in `[0, 1]`.
pub open spec fn alpha_result(cs: Seq<char>) -> Result<(), Error> {
    if !numeral_ok(cs) {
        Err(Error::Color(ColorError::InvalidFormat))
    } else if !within_max(cs, 1) {
        Err(Error::Color(ColorError::OutOfRange))
    } else {
        Ok(())
    }
}

pub fn validate_alpha(s: &str) -> (r: Result<(), Error>)
    ensures
        r == alpha_result(s@),
{
    match parse_numeral(s) {
        None => Err(Error::Color(ColorError::InvalidFormat)),
        Some((neg, w, fz)) => {
            if !neg && (w == 0 || (w == 1 && fz)) {
                Ok(())
            } else {
                Err(Error::Color(ColorError::OutOfRange))
            }
        },
    }
}

/// Exact outcome of the percentage check: a numeral in `[0, 100]` followed
/// by `%`.
pub open spec fn percentage_result(cs: Seq<char>) -> Result<(), Error> {
    if cs.len() == 0 || cs.last() != '%' {
        Err(Error::Color(ColorError::InvalidFormat))
    } else if !numeral_ok(cs.drop_last()) {
        Err(Error::Color(ColorError::InvalidFormat))
    } else if !within_max(cs.drop_last(), 100) {
        Err(Error::Color(ColorError::OutOfRange))
    } else {
        Ok(())
    }
}

pub fn validate_percentage(s: &str) -> (r: Result<(), Error>)
    ensures
        r == percentage_result(s@),
{
    let n = s.unicode_len();
    if n == 0 || s.get_char(n - 1) != '%' {
        return Err(Error::Color(ColorError::InvalidFormat));
    }
    let t = s.substring_char(0, n - 1);
    proof {
        assert(t@ =~= s@.drop_last());
    }
    match parse_numeral(t) {
        None => Err(Error::Color(ColorError::InvalidFormat)),
        Some((neg, w, fz)) => {
            if !neg && (w < 100 || (w == 100 && fz)) {
                Ok(())
            } else {
                Err(Error::Color(ColorError::OutOfRange))
            }
        },
    }
}

/// Exact outcome of one comma-separated component: either a percentage in
/// `[0, 100]` or a plain numeral in `[0, max]`.
pub open spec fn component_result(cs: Seq<char>, max: int) -> Result<(), Error> {
    if cs.len() > 0 && cs.last() == '%' {
        percentage_result(cs)
    } else if !numeral_ok(cs) {
        Err(Error::Color(ColorError::InvalidFormat))
    } else if !within_max(cs, max) {
        Err(Error::Color(ColorError::OutOfRange))
    } else {
        Ok(())
    }
}

fn validate_color_component(s: &str, max: u32) -> (r: Result<(), Error>)
    requires
        max <= 1000,
    ensures
        r == component_result(s@, max as int),
{
    let n = s.unicode_len();
    if n > 0 && s.get_char(n - 1) == '%' {
        return validate_percentage(s);
    }
    match parse_numeral(s) {
        None => Err(Error::Color(ColorError::InvalidFormat)),
        Some((neg, w, fz)) => {
            if !neg && (w < max || (w == max && fz)) {
                Ok(())
            } else {
                Err(Error::Color(ColorError::OutOfRange))
            }
        },
    }
}

/// Index of the first comma, if any.
pub open spec fn first_comma(cs: Seq<char>) -> Option<int>
    decreases cs.len(),
{
    if cs.len() == 0 {
        None
    } else if cs[0] == ',' {
        Some(0)
    } else {
        match first_comma(cs.skip(1)) {
            Some(k) => Some(k + 1),
            None => None,
        }
    }
}

proof fn lemma_first_comma(cs: Seq<char>, k: int)
    requires
        0 <= k <= cs.len(),
        forall|i: int| 0 <= i < k ==> #[trigger] cs[i] != ',',
        k == cs.len() || cs[k] == ',',
    ensures
        if k == cs.len() {
            first_comma(cs) is None
        } else {
            first_comma(cs) == Some(k)
        },
    decreases cs.len(),
{
    if cs.len() == 0 {
    } else if cs[0] == ',' {
        assert(k == 0);
    } else {
        assert forall|i: int| 0 <= i < k - 1 implies #[trigger] cs.skip(1)[i] != ',' by {
            assert(cs.skip(1)[i] == cs[i + 1]);
        }
        if k < cs.len() {
            assert(cs.skip(1)[k - 1] == cs[k]);
        }
        lemma_first_comma(cs.skip(1), k - 1);
    }
}

/// The comma-separated segments of `cs`, commas removed; an input without a
/// comma is one segment, so the result is never empty.
pub open spec fn split_commas(cs: Seq<char>) -> Seq<Seq<char>>
    decreases cs.len(),
{
    match first_comma(cs) {
        Some(k) => if 0 <= k < cs.len() {
            seq![cs.take(k)] + split_commas(cs.skip(k + 1))
        } else {
            seq![cs]
        },
        None => seq![cs],
    }
}

/// Splits at every comma.
fn split_commas_str<'a>(s: &'a str) -> (parts: Vec<&'a str>)
    ensures
        parts@.map_values(|p: &str| p@) == split_commas(s@),
    decreases s@.len(),
{
    let n = s.unicode_len();
    let mut i: usize = 0;
    while i < n
        invariant
            n == s@.len(),
            i <= n,
            forall|m: int| 0 <= m < i ==> #[trigger] s@[m] != ',',
        decreases n - i,
    {
        if s.get_char(i) == ',' {
            proof {
                lemma_first_comma(s@, i as int);
            }
            let head = s.substring_char(0, i);
            let tail = s.substring_char(i + 1, n);
            proof {
                assert(head@ =~= s@.take(i as int));
                assert(tail@ =~= s@.skip(i as int + 1));
            }
            let rest = split_commas_str(tail);
            let mut parts: Vec<&str> = Vec::new();
            parts.push(head);
            let mut idx: usize = 0;
            while idx < rest.len()
                invariant
                    idx <= rest@.len(),
                    parts@ =~= seq![head].add(rest@.take(idx as int)),
                decreases rest@.len() - idx,
            {
                parts.push(rest[idx]);
                proof {
                    assert(rest@.take(idx as int + 1) =~= rest@.take(idx as int).push(
                        rest@[idx as int],
                    ));
                }
                idx = idx + 1;
            }
            proof {
                assert(rest@.take(rest@.len() as int) =~= rest@);
                assert(parts@.map_values(|p: &str| p@) =~= split_commas(s@));
            }
            return parts;
        }
        i = i + 1;
    }
    proof {
        lemma_first_comma(s@, n as int);
    }
    let mut parts: Vec<&str> = Vec::new();
    parts.push(s);
    proof {
        assert(parts@.map_values(|p: &str| p@) =~= split_commas(s@));
    }
    parts
}

/// `cs` with trailing blanks removed.
pub open spec fn trim_back_spec(cs: Seq<char>) -> Seq<char>
    decreases cs.len(),
{
    if cs.len() > 0 && blank_char(cs.last()) {
        trim_back_spec(cs.drop_last())
    } else {
        cs
    }
}

/// `cs` with leading and trailing blanks removed.
pub open spec fn trim_spec(cs: Seq<char>) -> Seq<char> {
    trim_back_spec(trim_front_spec(cs))
}

fn trim_back(s: &str) -> (r: &str)
    ensures
        r@ == trim_back_spec(s@),
    decreases s@.len(),
{
    let n = s.unicode_len();
    if n > 0 {
        let c = s.get_char(n - 1);
        if c == ' ' || c == '\t' {
            let rest = s.substring_char(0, n - 1);
            proof {
                assert(rest@ =~= s@.drop_last());
            }
            return trim_back(rest);
        }
    }
    s
}

/// Removes leading and trailing blanks.
fn trim_str(s: &str) -> (r: &str)
    ensures
        r@ == trim_spec(s@),
{
    trim_back(crate::text::trim_front(s))
}

/// The notation's inner text: what stands between the opening parenthesis
/// and the closing one.
pub open spec fn call_inner(cs: Seq<char>, prefix: Seq<char>) -> Seq<Seq<char>> {
    split_commas(cs.subrange(prefix.len() as int, cs.len() - 1))
}

/// The notation opens with `prefix` and closes with a parenthesis.
pub open spec fn call_shape(cs: Seq<char>, prefix: Seq<char>) -> bool {
    crate::text::starts_with(cs, prefix) && prefix.len() < cs.len() && cs.last() == ')'
}

/// Exact outcome of the `rgb(r, g, b)` check: three components, each in
/// `[0, 255]` or a percentage, judged left to right.
pub open spec fn rgb_result(cs: Seq<char>) -> Result<(), Error> {
    let parts = call_inner(cs, "rgb("@);
    if !call_shape(cs, "rgb("@) {
        Err(Error::Color(ColorError::InvalidFormat))
    } else if parts.len() != 3 {
        Err(Error::Color(ColorError::InvalidFormat))
    } else if component_result(trim_spec(parts[0]), 255) is Err {
        component_result(trim_spec(parts[0]), 255)
    } else if component_result(trim_spec(parts[1]), 255) is Err {
        component_result(trim_spec(parts[1]), 255)
    } else if component_result(trim_spec(parts[2]), 255) is Err {
        component_result(trim_spec(parts[2]), 255)
    } else {
        Ok(())
    }
}

pub fn validate_rgb(rgb: &str) -> (r: Result<(), Error>)
    ensures
        r == rgb_result(rgb@),
{
    proof {
        reveal_strlit("rgb(");
    }
    let n = rgb.unicode_len();
    if !(str_starts_with(rgb, "rgb(") && 4 < n && rgb.get_char(n - 1) == ')') {
        return Err(Error::Color(ColorError::InvalidFormat));
    }
    let inner = rgb.substring_char(4, n - 1);
    proof {
        assert(inner@ =~= rgb@.subrange(4, n as int - 1));
    }
    let parts = split_commas_str(inner);
    if parts.len() != 3 {
        return Err(Error::Color(ColorError::InvalidFormat));
    }
    let c0 = validate_color_component(trim_str(parts[0]), 255);
    if let Err(e) = c0 {
        return Err(e);
    }
    let c1 = validate_color_component(trim_str(parts[1]), 255);
    if let Err(e) = c1 {
        return Err(e);
    }
    let c2 = validate_color_component(trim_str(parts[2]), 255);
    if let Err(e) = c2 {
        return Err(e);
    }
    Ok(())
}

/// Exact outcome of the `rgba(r, g, b, a)` check: three color components
/// and an alpha in `[0, 1]`, judged left to right.
pub open spec fn rgba_result(cs: Seq<char>) -> Result<(), Error> {
    let parts = call_inner(cs, "rgba("@);
    if !call_shape(cs, "rgba("@) {
        Err(Error::Color(ColorError::InvalidFormat))
    } else if parts.len() != 4 {
        Err(Error::Color(ColorError::InvalidFormat))
    } else if component_result(trim_spec(parts[0]), 255) is Err {
        component_result(trim_spec(parts[0]), 255)
    } else if component_result(trim_spec(parts[1]), 255) is Err {
        component_result(trim_spec(parts[1]), 255)
    } else if component_result(trim_spec(parts[2]), 255) is Err {
        component_result(trim_spec(parts[2]), 255)
    } else if component_result(trim_spec(parts[3]), 1) is Err {
        component_result(trim_spec(parts[3]), 1)
    } else {
        Ok(())
    }
}

pub fn validate_rgba(rgba: &str) -> (r: Result<(), Error>)
    ensures
        r == rgba_result(rgba@),
{
    proof {
        reveal_strlit("rgba(");
    }
    let n = rgba.unicode_len();
    if !(str_starts_with(rgba, "rgba(") && 5 < n && rgba.get_char(n - 1) == ')') {
        return Err(Error::Color(ColorError::InvalidFormat));
    }
    let inner = rgba.substring_char(5, n - 1);
    proof {
        assert(inner@ =~= rgba@.subrange(5, n as int - 1));
    }
    let parts = split_commas_str(inner);
    if parts.len() != 4 {
        return Err(Error::Color(ColorError::InvalidFormat));
    }
    let c0 = validate_color_component(trim_str(parts[0]), 255);
    if let Err(e) = c0 {
        return Err(e);
    }
    let c1 = validate_color_component(trim_str(parts[1]), 255);
    if let Err(e) = c1 {
        return Err(e);
    }
    let c2 = validate_color_component(trim_str(parts[2]), 255);
    if let Err(e) = c2 {
        return Err(e);
    }
    let c3 = validate_color_component(trim_str(parts[3]), 1);
    if let Err(e) = c3 {
        return Err(e);
    }
    Ok(())
}

/// Exact outcome of the `hsl(h, s, l)` check: a hue and two percentages,
/// judged left to right.
pub open spec fn hsl_result(cs: Seq<char>) -> Result<(), Error> {
    let parts = call_inner(cs, "hsl("@);
    if !call_shape(cs, "hsl("@) {
        Err(Error::Color(ColorError::InvalidFormat))
    } else if parts.len() != 3 {
        Err(Error::Color(ColorError::InvalidFormat))
    } else if hue_result(trim_spec(parts[0])) is Err {
        hue_result(trim_spec(parts[0]))
    } else if percentage_result(trim_spec(parts[1])) is Err {
        percentage_result(trim_spec(parts[1]))
    } else if percentage_result(trim_spec(parts[2])) is Err {
        percentage_result(trim_spec(parts[2]))
    } else {
        Ok(())
    }
}

pub fn validate_hsl(hsl: &str) -> (r: Result<(), Error>)
    ensures
        r == hsl_result(hsl@),
{
    proof {
        reveal_strlit("hsl(");
    }
    let n = hsl.unicode_len();
    if !(str_starts_with(hsl, "hsl(") && 4 < n && hsl.get_char(n - 1) == ')') {
        return Err(Error::Color(ColorError::InvalidFormat));
    }
    let inner = hsl.substring_char(4, n - 1);
    proof {
        assert(inner@ =~= hsl@.subrange(4, n as int - 1));
    }
    let parts = split_commas_str(inner);
    if parts.len() != 3 {
        return Err(Error::Color(ColorError::InvalidFormat));
    }
    let c0 = validate_hue(trim_str(parts[0]));
    if let Err(e) = c0 {
        return Err(e);
    }
    let c1 = validate_percentage(trim_str(parts[1]));
    if let Err(e) = c1 {
        return Err(e);
    }
    let c2 = validate_percentage(trim_str(parts[2]));
    if let Err(e) = c2 {
        return Err(e);
    }
    Ok(())
}

/// Exact outcome of the `hsla(h, s, l, a)` check: a hue, two percentages
/// and an alpha, judged left to right.
pub open spec fn hsla_result(cs: Seq<char>) -> Result<(), Error> {
    let parts = call_inner(cs, "hsla("@);
    if !call_shape(cs, "hsla("@) {
        Err(Error::Color(ColorError::InvalidFormat))
    } else if parts.len() != 4 {
        Err(Error::Color(ColorError::InvalidFormat))
    } else if hue_result(trim_spec(parts[0])) is Err {
        hue_result(trim_spec(parts[0]))
    } else if percentage_result(trim_spec(parts[1])) is Err {
        percentage_result(trim_spec(parts[1]))
    } else if percentage_result(trim_spec(parts[2])) is Err {
        percentage_result(trim_spec(parts[2]))
    } else if alpha_result(trim_spec(parts[3])) is Err {
        alpha_result(trim_spec(parts[3]))
    } else {
        Ok(())
    }
}

pub fn validate_hsla(s: &str) -> (r: Result<(), Error>)
    ensures
        r == hsla_result(s@),
{
    proof {
        reveal_strlit("hsla(");
    }
    let n = s.unicode_len();
    if !(str_starts_with(s, "hsla(") && 5 < n && s.get_char(n - 1) == ')') {
        return Err(Error::Color(ColorError::InvalidFormat));
    }
    let inner = s.substring_char(5, n - 1);
    proof {
        assert(inner@ =~= s@.subrange(5, n as int - 1));
    }
    let parts = split_commas_str(inner);
    if parts.len() != 4 {
        return Err(Error::Color(ColorError::InvalidFormat));
    }
    let c0 = validate_hue(trim_str(parts[0]));
    if let Err(e) = c0 {
        return Err(e);
    }
    let c1 = validate_percentage(trim_str(parts[1]));
    if let Err(e) = c1 {
        return Err(e);
    }
    let c2 = validate_percentage(trim_str(parts[2]));
    if let Err(e) = c2 {
        return Err(e);
    }
    let c3 = validate_alpha(trim_str(parts[3]));
    if let Err(e) = c3 {
        return Err(e);
    }
    Ok(())
}

/// Exact outcome of notation detection: the leading characters pick the
/// notation, and an unrecognized opening is a format error.
pub open spec fn detect_result(cs: Seq<char>) -> Result<(), Error> {
    if cs.len() > 0 && cs[0] == '#' {
        hex_result(cs)
    } else if crate::text::starts_with(cs, "rgb("@) {
        rgb_result(cs)
    } else if crate::text::starts_with(cs, "rgba("@) {
        rgba_result(cs)
    } else if crate::text::starts_with(cs, "hsl("@) {
        hsl_result(cs)
    } else if crate::text::starts_with(cs, "hsla("@) {
        hsla_result(cs)
    } else {
        Err(Error::Color(ColorError::InvalidFormat))
    }
}

pub fn try_detect_format(color: &str) -> (r: Result<(), Error>)
    ensures
        r == detect_result(color@),
{
    let n = color.unicode_len();
    if n > 0 && color.get_char(0) == '#' {
        validate_hex(color)
    } else if str_starts_with(color, "rgb(") {
        validate_rgb(color)
    } else if str_starts_with(color, "rgba(") {
        validate_rgba(color)
    } else if str_starts_with(color, "hsl(") {
        validate_hsl(color)
    } else if str_starts_with(color, "hsla(") {
        validate_hsla(color)
    } else {
        Err(Error::Color(ColorError::InvalidFormat))
    }
}

/// Exact outcome of the color rule: a value with no string form fails with
/// the custom message when one was declared; a present value is judged
/// against the requested notation, or against the detected one.
pub open spec fn color_rule(
    s: Option<Seq<char>>,
    format: Option<ColorFormat>,
    msg: Option<String>,
) -> Result<(), Error> {
    match s {
        None => match msg {
            Some(m) => Err(Error::Color(ColorError::Custom(m))),
            None => Err(Error::Color(ColorError::InvalidFormat)),
        },
        Some(cs) => match format {
            Some(ColorFormat::Hex) => hex_result(cs),
            Some(ColorFormat::Rgb) => rgb_result(cs),
            Some(ColorFormat::Rgba) => rgba_result(cs),
            Some(ColorFormat::Hsl) => hsl_result(cs),
            Some(ColorFormat::Hsla) => hsla_result(cs),
            None => detect_result(cs),
        },
    }
}

/// A value with a string form that can be read as a color.
pub trait ValidateColor {
    /// The string form the rule judges, if the value has one.
    spec fn spec_color(&self) -> Option<Seq<char>>;

    fn color(&self) -> (r: Option<&str>)
        ensures
            match r {
                Some(s) => self.spec_color() == Some(s@),
                None => self.spec_color() is None,
            },
    ;

    fn validate_color(&self, format: Option<ColorFormat>, msg: Option<String>) -> (r: Result<
        (),
        Error,
    >)
        ensures
            r == color_rule(self.spec_color(), format, msg),
    {
        match self.color() {
            None => match msg {
                Some(m) => Err(Error::Color(ColorError::Custom(m))),
                None => Err(Error::Color(ColorError::InvalidFormat)),
            },
            Some(color) => match format {
                Some(ColorFormat::Hex) => validate_hex(color),
                Some(ColorFormat::Rgb) => validate_rgb(color),
                Some(ColorFormat::Rgba) => validate_rgba(color),
                Some(ColorFormat::Hsl) => validate_hsl(color),
                Some(ColorFormat::Hsla) => validate_hsla(color),
                None => try_detect_format(color),
            },
        }
    }
}

impl ValidateColor for String {
    open spec fn spec_color(&self) -> Option<Seq<char>> {
        Some(self@)
    }

    fn color(&self) -> (r: Option<&str>) {
        Some(self.as_str())
    }
}

impl ValidateColor for &str {
    open spec fn spec_color(&self) -> Option<Seq<char>> {
        Some(self@)
    }

    fn color(&self) -> (r: Option<&str>) {
        Some(self)
    }
}

impl ValidateColor for Cow<'_, str> {
    open spec fn spec_color(&self) -> Option<Seq<char>> {
        Some(self@)
    }

    fn color(&self) -> (r: Option<&str>) {
        Some(cow_str(self))
    }
}

impl<T: ValidateColor> ValidateColor for Option<T> {
    open spec fn spec_color(&self) -> Option<Seq<char>> {
        match self {
            Some(s) => s.spec_color(),
            None => None,
        }
    }

    fn color(&self) -> (r: Option<&str>) {
        match self {
            Some(s) => s.color(),
            None => None,
        }
    }
}

} // verus!
