use vstd::prelude::*;

use crate::text::{is_substring, matches_at, str_contains_str};

verus! {

/// The decimal numeral for `n`, most significant digit first.
pub open spec fn dec_digits(n: int) -> Seq<char>
    decreases n,
{
    if n < 0 {
        Seq::empty()
    } else if n < 10 {
        seq![dec_digit(n)]
    } else {
        dec_digits(n / 10).push(dec_digit(n % 10))
    }
}

/// The character for one decimal digit.
pub open spec fn dec_digit(d: int) -> char {
    if d == 0 {
        '0'
    } else if d == 1 {
        '1'
    } else if d == 2 {
        '2'
    } else if d == 3 {
        '3'
    } else if d == 4 {
        '4'
    } else if d == 5 {
        '5'
    } else if d == 6 {
        '6'
    } else if d == 7 {
        '7'
    } else if d == 8 {
        '8'
    } else {
        '9'
    }
}

fn push_digit(out: &mut String, d: usize)
    requires
        d < 10,
    ensures
        final(out)@ == old(out)@ + seq![dec_digit(d as int)],
{
    proof {
        reveal_strlit("0");
        reveal_strlit("1");
        reveal_strlit("2");
        reveal_strlit("3");
        reveal_strlit("4");
        reveal_strlit("5");
        reveal_strlit("6");
        reveal_strlit("7");
        reveal_strlit("8");
        reveal_strlit("9");
    }
    let lit: &str = if d == 0 {
        "0"
    } else if d == 1 {
        "1"
    } else if d == 2 {
        "2"
    } else if d == 3 {
        "3"
    } else if d == 4 {
        "4"
    } else if d == 5 {
        "5"
    } else if d == 6 {
        "6"
    } else if d == 7 {
        "7"
    } else if d == 8 {
        "8"
    } else {
        "9"
    };
    proof {
        assert(lit@ =~= seq![dec_digit(d as int)]);
    }
    out.append(lit);
}

fn render_usize(out: &mut String, n: usize)
    ensures
        final(out)@ == old(out)@ + dec_digits(n as int),
    decreases n,
{
    if n < 10 {
        push_digit(out, n);
    } else {
        render_usize(out, n / 10);
        push_digit(out, n % 10);
        proof {
            assert(old(out)@ + dec_digits(n as int / 10) + seq![dec_digit(n as int % 10)] =~= old(
                out,
            )@ + dec_digits(n as int));
        }
    }
}

/// Writes `n` in decimal.
pub fn usize_to_string(n: usize) -> (s: String)
    ensures
        s@ == dec_digits(n as int),
{
    let mut out = String::new();
    render_usize(&mut out, n);
    proof {
        assert(Seq::<char>::empty() + dec_digits(n as int) =~= dec_digits(n as int));
    }
    out
}

/// `s` with every occurrence of `pat` replaced by `rep`, scanning left to
/// right without revisiting replaced text.
pub open spec fn replace_all(s: Seq<char>, pat: Seq<char>, rep: Seq<char>) -> Seq<char>
    decreases s.len(),
{
    if pat.len() == 0 || s.len() < pat.len() {
        s
    } else if s.take(pat.len() as int) == pat {
        rep + replace_all(s.skip(pat.len() as int), pat, rep)
    } else {
        seq![s[0]] + replace_all(s.skip(1), pat, rep)
    }
}

/// Replaces every occurrence of `pat` in `s` by `rep`.
pub fn replace_str(s: &str, pat: &str, rep: &str) -> (r: String)
    requires
        pat@.len() > 0,
    ensures
        r@ == replace_all(s@, pat@, rep@),
{
    let n = s.unicode_len();
    let m = pat.unicode_len();
    let mut out = String::new();
    let mut i: usize = 0;
    proof {
        assert(s@.skip(0) =~= s@);
        assert(out@ + replace_all(s@, pat@, rep@) =~= replace_all(s@, pat@, rep@));
    }
    while i < n
        invariant
            n == s@.len(),
            m == pat@.len(),
            0 < m,
            i <= n,
            replace_all(s@, pat@, rep@) == out@ + replace_all(s@.skip(i as int), pat@, rep@),
        decreases n - i,
    {
        let hit = if m <= n - i {
            crate::text::str_match_at(s, pat, i)
        } else {
            false
        };
        proof {
            let tail = s@.skip(i as int);
            if hit {
                assert(tail.take(m as int) =~= s@.subrange(i as int, i as int + m as int));
                assert(tail.skip(m as int) =~= s@.skip(i as int + m as int));
            } else {
                if m <= n - i {
                    if tail.take(m as int) == pat@ {
                        assert(s@.subrange(i as int, i as int + m as int) =~= tail.take(m as int));
                        assert(matches_at(s@, pat@, i as int));
                    }
                } else {
                    assert(tail.len() < pat@.len());
                }
                assert(seq![tail[0]] =~= s@.subrange(i as int, i as int + 1));
                assert(tail.skip(1) =~= s@.skip(i as int + 1));
                if tail.len() < pat@.len() {
                    assert(tail =~= seq![tail[0]] + tail.skip(1));
                    assert(tail.skip(1).len() < pat@.len());
                }
            }
        }
        if hit {
            out.append(rep);
            i = i + m;
        } else {
            let piece = s.substring_char(i, i + 1);
            proof {
                assert(piece@ =~= s@.subrange(i as int, i as int + 1));
            }
            out.append(piece);
            i = i + 1;
        }
    }
    proof {
        assert(s@.skip(n as int) =~= Seq::<char>::empty());
        assert(out@ + Seq::<char>::empty() =~= out@);
    }
    out
}

/// Outcome of checking and filling one message template: the text with
/// `{{min}}` and `{{max}}` written out, or the name of the parameter that a
/// placeholder demands but the rule does not bind.
pub open spec fn template_result(t: Seq<char>, min: Option<int>, max: Option<int>) -> Result<
    Seq<char>,
    Seq<char>,
> {
    if is_substring(t, "{{min}}"@) && min is None {
        Err("min"@)
    } else if is_substring(t, "{{max}}"@) && max is None {
        Err("max"@)
    } else {
        let t1 = match min {
            Some(v) => replace_all(t, "{{min}}"@, dec_digits(v)),
            None => t,
        };
        let t2 = match max {
            Some(v) => replace_all(t1, "{{max}}"@, dec_digits(v)),
            None => t1,
        };
        Ok(t2)
    }
}

/// Checks a message template against the bound parameters and substitutes
/// them: a placeholder without a matching parameter is a build failure,
/// reported as the parameter's name.
pub fn apply_template(template: &str, min: Option<usize>, max: Option<usize>) -> (r: Result<
    String,
    String,
>)
    ensures
        match r {
            Ok(s) => template_result(template@, opt_int(min), opt_int(max)) == Ok::<
                Seq<char>,
                Seq<char>,
            >(s@),
            Err(k) => template_result(template@, opt_int(min), opt_int(max)) == Err::<
                Seq<char>,
                Seq<char>,
            >(k@),
        },
{
    proof {
        reveal_strlit("{{min}}");
        reveal_strlit("{{max}}");
    }
    if min.is_none() && str_contains_str(template, "{{min}}") {
        return Err(String::from_str("min"));
    }
    if max.is_none() && str_contains_str(template, "{{max}}") {
        return Err(String::from_str("max"));
    }
    let t1 = match min {
        Some(v) => replace_str(template, "{{min}}", usize_to_string(v).as_str()),
        None => String::from_str(template),
    };
    let t2 = match max {
        Some(v) => replace_str(t1.as_str(), "{{max}}", usize_to_string(v).as_str()),
        None => t1,
    };
    Ok(t2)
}

/// The widening of a bound to the mathematical integers.
pub open spec fn opt_int(o: Option<usize>) -> Option<int> {
    match o {
        Some(v) => Some(v as int),
        None => None,
    }
}

} // verus!
