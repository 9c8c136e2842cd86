use vstd::prelude::*;

use crate::text::{
    digit_char, digit_prefix_len, digits_value, str_eq, trim_front, trim_front_spec,
};

verus! {

/// The rule kinds the declaration grammar recognizes.
#[derive(Debug, Clone, Copy, PartialEq, Eq, Structural)]
pub enum RuleKind {
    Length,
    Range,
    Contains,
    Required,
}

/// One raw argument value: an unsigned integer or a quoted string.
#[derive(Debug)]
pub enum ArgValue {
    Int(usize),
    Text(String),
}

/// One raw argument of a rule call: a `key = value` pair or a positional
/// array of string literals.
#[derive(Debug)]
pub enum RawArg {
    Named { key: String, value: ArgValue },
    Values(Vec<String>),
}

/// One recognized rule entry of a field's declaration, arguments still raw.
#[derive(Debug)]
pub struct RuleInvocation {
    pub field: String,
    pub kind: RuleKind,
    pub args: Vec<RawArg>,
}

/// What went wrong while reading a declaration; fatal to the build.
#[derive(Debug)]
pub enum BuildFault {
    /// The entry is neither a bare marker nor a well-formed rule call.
    MalformedEntry,
    /// The entry names no recognized rule; carries the offending name.
    UnknownRule(String),
    /// A message template uses a placeholder whose parameter the rule does
    /// not bind; carries the parameter's name.
    MissingPlaceholder(String),
    /// A containment rule with no required values.
    EmptyContains,
}

/// A build-time diagnostic, anchored to the field it concerns.
#[derive(Debug)]
pub struct BuildError {
    pub field: String,
    pub fault: BuildFault,
}

/// The mathematical reading of an argument value.
pub ghost enum AbsValue {
    Int(int),
    Text(Seq<char>),
}

/// The mathematical reading of a raw argument.
pub ghost enum AbsArg {
    Named { key: Seq<char>, value: AbsValue },
    Values(Seq<Seq<char>>),
}

/// The mathematical reading of one parsed entry: its name and, for a call,
/// its arguments in order.
pub ghost struct AbsEntry {
    pub name: Seq<char>,
    pub args: Option<Seq<AbsArg>>,
}

impl ArgValue {
    pub open spec fn abs(&self) -> AbsValue {
        match self {
            ArgValue::Int(v) => AbsValue::Int(*v as int),
            ArgValue::Text(s) => AbsValue::Text(s@),
        }
    }
}

impl RawArg {
    pub open spec fn abs(&self) -> AbsArg {
        match self {
            RawArg::Named { key, value } => AbsArg::Named { key: key@, value: value.abs() },
            RawArg::Values(vs) => AbsArg::Values(vs@.map_values(|s: String| s@)),
        }
    }
}

/// The mathematical reading of an argument list.
pub open spec fn abs_args(args: Seq<RawArg>) -> Seq<AbsArg> {
    args.map_values(|a: RawArg| a.abs())
}

/// A character that may stand in a rule or key name.
pub open spec fn ident_char(c: char) -> bool {
    digit_char(c) || ('a' <= c && c <= 'z') || ('A' <= c && c <= 'Z') || c == '_'
}

/// Length of the initial run of name characters.
pub open spec fn ident_len(cs: Seq<char>) -> int
    decreases cs.len(),
{
    if cs.len() > 0 && ident_char(cs[0]) {
        1 + ident_len(cs.skip(1))
    } else {
        0
    }
}

/// Length of the initial run of characters before a closing quote.
pub open spec fn quote_run(cs: Seq<char>) -> int
    decreases cs.len(),
{
    if cs.len() > 0 && cs[0] != '"' {
        1 + quote_run(cs.skip(1))
    } else {
        0
    }
}

/// Reads a quoted string literal; yields its text and what follows the
/// closing quote.
pub open spec fn sp_string(cs: Seq<char>) -> Option<(Seq<char>, Seq<char>)> {
    if cs.len() > 0 && cs[0] == '"' {
        let ql = quote_run(cs.skip(1));
        if 1 + ql < cs.len() {
            Some((cs.subrange(1, 1 + ql), cs.skip(2 + ql)))
        } else {
            None
        }
    } else {
        None
    }
}

/// Reads an argument value: an integer that fits the machine word, or a
/// string literal.
pub open spec fn sp_value(cs: Seq<char>) -> Option<(AbsValue, Seq<char>)> {
    if cs.len() > 0 && digit_char(cs[0]) {
        let dl = digit_prefix_len(cs);
        if digits_value(cs.take(dl)) <= usize::MAX {
            Some((AbsValue::Int(digits_value(cs.take(dl))), cs.skip(dl)))
        } else {
            None
        }
    } else {
        match sp_string(cs) {
            Some((t, r)) => Some((AbsValue::Text(t), r)),
            None => None,
        }
    }
}

/// Reads the items of an array literal, the opening bracket already
/// consumed and blanks skipped; yields what follows the closing bracket.
pub open spec fn sp_array_items(cs: Seq<char>) -> Option<(Seq<Seq<char>>, Seq<char>)>
    decreases cs.len(),
{
    if cs.len() > 0 && cs[0] == ']' {
        Some((Seq::empty(), cs.skip(1)))
    } else {
        match sp_string(cs) {
            Some((s, r)) => {
                let r1 = trim_front_spec(r);
                if r1.len() > 0 && r1[0] == ',' {
                    let tail = trim_front_spec(r1.skip(1));
                    if tail.len() < cs.len() {
                        match sp_array_items(tail) {
                            Some((items, r2)) => Some((seq![s] + items, r2)),
                            None => None,
                        }
                    } else {
                        None
                    }
                } else if r1.len() > 0 && r1[0] == ']' {
                    Some((seq![s], r1.skip(1)))
                } else {
                    None
                }
            },
            None => None,
        }
    }
}

/// Reads one argument: an array literal or a `key = value` pair.
pub open spec fn sp_arg(cs: Seq<char>) -> Option<(AbsArg, Seq<char>)> {
    if cs.len() > 0 && cs[0] == '[' {
        match sp_array_items(trim_front_spec(cs.skip(1))) {
            Some((items, r)) => Some((AbsArg::Values(items), r)),
            None => None,
        }
    } else {
        let il = ident_len(cs);
        if il > 0 {
            let key = cs.take(il);
            let r = trim_front_spec(cs.skip(il));
            if r.len() > 0 && r[0] == '=' {
                match sp_value(trim_front_spec(r.skip(1))) {
                    Some((v, r2)) => Some((AbsArg::Named { key, value: v }, r2)),
                    None => None,
                }
            } else {
                None
            }
        } else {
            None
        }
    }
}

/// Reads a comma-separated argument list, blanks already skipped; stops
/// before the closing parenthesis, which stays in the leftover.
pub open spec fn sp_args(cs: Seq<char>) -> Option<(Seq<AbsArg>, Seq<char>)>
    decreases cs.len(),
{
    if cs.len() > 0 && cs[0] == ')' {
        Some((Seq::empty(), cs))
    } else {
        match sp_arg(cs) {
            Some((a, r)) => {
                let r1 = trim_front_spec(r);
                if r1.len() > 0 && r1[0] == ',' {
                    let tail = trim_front_spec(r1.skip(1));
                    if tail.len() < cs.len() {
                        match sp_args(tail) {
                            Some((rest, r2)) => Some((seq![a] + rest, r2)),
                            None => None,
                        }
                    } else {
                        None
                    }
                } else {
                    Some((seq![a], r1))
                }
            },
            None => None,
        }
    }
}

/// Reads one whole entry: a bare name, or a call `name(args)` with nothing
/// but blanks around it.
pub open spec fn sp_entry(cs: Seq<char>) -> Option<AbsEntry> {
    let t = trim_front_spec(cs);
    let il = ident_len(t);
    if il == 0 {
        None
    } else {
        let name = t.take(il);
        let r = trim_front_spec(t.skip(il));
        if r.len() == 0 {
            Some(AbsEntry { name, args: None })
        } else if r[0] == '(' {
            match sp_args(trim_front_spec(r.skip(1))) {
                Some((args, r2)) => if r2.len() > 0 && r2[0] == ')' && trim_front_spec(
                    r2.skip(1),
                ).len() == 0 {
                    Some(AbsEntry { name, args: Some(args) })
                } else {
                    None
                },
                None => None,
            }
        } else {
            None
        }
    }
}

/// The kind a call entry's name denotes.
pub open spec fn kind_for(name: Seq<char>) -> Option<RuleKind> {
    if name == "len"@ {
        Some(RuleKind::Length)
    } else if name == "rng"@ {
        Some(RuleKind::Range)
    } else if name == "contains"@ {
        Some(RuleKind::Contains)
    } else if name == "required"@ {
        Some(RuleKind::Required)
    } else {
        None
    }
}

/// What `parse_entry` owes its caller: a malformed entry or an unrecognized
/// name is a diagnostic on the given field; a recognized one is the
/// invocation whose arguments read exactly as the text does. A bare marker
/// is lawful only for the rule that takes no arguments.
pub open spec fn entry_post(
    r: Result<RuleInvocation, BuildError>,
    field: Seq<char>,
    text: Seq<char>,
) -> bool {
    match sp_entry(text) {
        None => match r {
            Err(e) => e.field@ == field && e.fault is MalformedEntry,
            Ok(_) => false,
        },
        Some(abs) => match abs.args {
            None => if abs.name == "required"@ {
                match r {
                    Ok(inv) => inv.field@ == field && inv.kind == RuleKind::Required
                        && inv.args@.len() == 0,
                    Err(_) => false,
                }
            } else {
                match r {
                    Err(e) => e.field@ == field && match e.fault {
                        BuildFault::UnknownRule(nm) => nm@ == abs.name,
                        _ => false,
                    },
                    Ok(_) => false,
                }
            },
            Some(aa) => match kind_for(abs.name) {
                Some(k) => match r {
                    Ok(inv) => inv.field@ == field && inv.kind == k && abs_args(inv.args@) == aa,
                    Err(_) => false,
                },
                None => match r {
                    Err(e) => e.field@ == field && match e.fault {
                        BuildFault::UnknownRule(nm) => nm@ == abs.name,
                        _ => false,
                    },
                    Ok(_) => false,
                },
            },
        },
    }
}

/// Length of the initial run of name characters.
fn ident_prefix_len(s: &str) -> (l: usize)
    ensures
        l as int == ident_len(s@),
        l <= s@.len(),
    decreases s@.len(),
{
    let n = s.unicode_len();
    if n > 0 {
        let c = s.get_char(0);
        if ('0' <= c && c <= '9') || ('a' <= c && c <= 'z') || ('A' <= c && c <= 'Z') || c == '_' {
            let rest = s.substring_char(1, n);
            proof {
                assert(rest@ =~= s@.skip(1));
            }
            return 1 + ident_prefix_len(rest);
        }
    }
    0
}

/// Length of the initial run of characters before a closing quote.
fn quote_prefix_len(s: &str) -> (l: usize)
    ensures
        l as int == quote_run(s@),
        l <= s@.len(),
    decreases s@.len(),
{
    let n = s.unicode_len();
    if n > 0 {
        let c = s.get_char(0);
        if c != '"' {
            let rest = s.substring_char(1, n);
            proof {
                assert(rest@ =~= s@.skip(1));
            }
            return 1 + quote_prefix_len(rest);
        }
    }
    0
}

proof fn lemma_digits_nonneg(cs: Seq<char>)
    requires
        forall|i: int| 0 <= i < cs.len() ==> digit_char(#[trigger] cs[i]),
    ensures
        digits_value(cs) >= 0,
    decreases cs.len(),
{
    if cs.len() > 0 {
        assert forall|i: int| 0 <= i < cs.drop_last().len() implies digit_char(
            #[trigger] cs.drop_last()[i],
        ) by {
            assert(cs.drop_last()[i] == cs[i]);
        }
        lemma_digits_nonneg(cs.drop_last());
    }
}

proof fn lemma_digits_mono(cs: Seq<char>, j: int)
    requires
        0 <= j <= cs.len(),
        forall|i: int| 0 <= i < cs.len() ==> digit_char(#[trigger] cs[i]),
    ensures
        digits_value(cs) >= digits_value(cs.take(j)),
    decreases cs.len() - j,
{
    if j == cs.len() {
        assert(cs.take(j) =~= cs);
    } else {
        let p = cs.take(j + 1);
        assert(p.drop_last() =~= cs.take(j));
        assert(p.last() == cs[j]);
        assert forall|i: int| 0 <= i < cs.take(j).len() implies digit_char(
            #[trigger] cs.take(j)[i],
        ) by {
            assert(cs.take(j)[i] == cs[i]);
        }
        lemma_digits_nonneg(cs.take(j));
        assert(digits_value(p) == digits_value(cs.take(j)) * 10 + (cs[j] as u32 - '0' as u32));
        assert(digits_value(p) >= digits_value(cs.take(j)));
        lemma_digits_mono(cs, j + 1);
    }
}

/// Reads the integer the initial digit run denotes, refusing one that does
/// not fit the machine word; yields the value and the run's length.
fn parse_int_prefix(s: &str) -> (r: Option<(usize, usize)>)
    requires
        s@.len() > 0 && digit_char(s@[0]),
    ensures
        match r {
            Some((v, dl)) => {
                &&& dl as int == digit_prefix_len(s@)
                &&& dl <= s@.len()
                &&& v as int == digits_value(s@.take(dl as int))
                &&& digits_value(s@.take(digit_prefix_len(s@))) <= usize::MAX
            },
            None => digits_value(s@.take(digit_prefix_len(s@))) > usize::MAX,
        },
{
    let n = s.unicode_len();
    let mut dl: usize = 0;
    loop
        invariant
            n == s@.len(),
            dl <= n,
            forall|m: int| 0 <= m < dl ==> digit_char(#[trigger] s@[m]),
        ensures
            dl <= n,
            forall|m: int| 0 <= m < dl ==> digit_char(#[trigger] s@[m]),
            dl == n || !digit_char(s@[dl as int]),
        decreases n - dl,
    {
        if dl == n {
            break;
        }
        let c = s.get_char(dl);
        if !('0' <= c && c <= '9') {
            break;
        }
        dl = dl + 1;
    }
    proof {
        crate::text::lemma_digit_prefix_len(s@, dl as int);
    }
    let ghost run = s@.take(dl as int);
    let mut j: usize = 0;
    let mut acc: usize = 0;
    while j < dl
        invariant
            n == s@.len(),
            dl <= n,
            j <= dl,
            dl as int == digit_prefix_len(s@),
            run == s@.take(dl as int),
            forall|m: int| 0 <= m < dl ==> digit_char(#[trigger] s@[m]),
            acc as int == digits_value(s@.take(j as int)),
        decreases dl - j,
    {
        let c = s.get_char(j);
        let d: usize = (c as u32 - '0' as u32) as usize;
        proof {
            let p = s@.take(j as int + 1);
            assert(p.drop_last() =~= s@.take(j as int));
            assert(p.last() == s@[j as int]);
        }
        let wide: u128 = acc as u128 * 10 + d as u128;
        if wide > usize::MAX as u128 {
            proof {
                assert forall|m: int| 0 <= m < run.len() implies digit_char(#[trigger] run[m]) by {
                    assert(run[m] == s@[m]);
                }
                assert(run.take(j as int + 1) =~= s@.take(j as int + 1));
                lemma_digits_mono(run, j as int + 1);
            }
            return None;
        }
        acc = wide as usize;
        j = j + 1;
    }
    proof {
        assert(s@.take(dl as int) =~= run);
    }
    Some((acc, dl))
}

/// Reads a quoted string literal off the front of `s`.
fn p_string<'a>(s: &'a str) -> (r: Option<(String, &'a str)>)
    ensures
        match r {
            Some((t, rest)) => sp_string(s@) == Some((t@, rest@)),
            None => sp_string(s@) is None,
        },
{
    let n = s.unicode_len();
    if n == 0 || s.get_char(0) != '"' {
        return None;
    }
    let inner = s.substring_char(1, n);
    proof {
        assert(inner@ =~= s@.skip(1));
    }
    let ql = quote_prefix_len(inner);
    if 1 + ql >= n {
        return None;
    }
    let text = s.substring_char(1, 1 + ql);
    let rest = s.substring_char(2 + ql, n);
    proof {
        assert(text@ =~= s@.subrange(1, 1 + ql as int));
        assert(rest@ =~= s@.skip(2 + ql as int));
    }
    Some((String::from_str(text), rest))
}

/// Reads an argument value off the front of `s`.
fn p_value<'a>(s: &'a str) -> (r: Option<(ArgValue, &'a str)>)
    ensures
        match r {
            Some((v, rest)) => sp_value(s@) == Some((v.abs(), rest@)),
            None => sp_value(s@) is None,
        },
{
    let n = s.unicode_len();
    if n > 0 {
        let c = s.get_char(0);
        if '0' <= c && c <= '9' {
            return match parse_int_prefix(s) {
                Some((v, dl)) => {
                    let rest = s.substring_char(dl, n);
                    proof {
                        assert(rest@ =~= s@.skip(digit_prefix_len(s@)));
                    }
                    Some((ArgValue::Int(v), rest))
                },
                None => None,
            };
        }
    }
    match p_string(s) {
        Some((t, rest)) => Some((ArgValue::Text(t), rest)),
        None => None,
    }
}

/// Reads the items of an array literal, the opening bracket already
/// consumed and blanks skipped.
fn p_array_items<'a>(s: &'a str) -> (r: Option<(Vec<String>, &'a str)>)
    ensures
        match r {
            Some((vs, rest)) => sp_array_items(s@) == Some(
                (vs@.map_values(|x: String| x@), rest@),
            ),
            None => sp_array_items(s@) is None,
        },
    decreases s@.len(),
{
    let n = s.unicode_len();
    if n > 0 && s.get_char(0) == ']' {
        let rest = s.substring_char(1, n);
        let vs: Vec<String> = Vec::new();
        proof {
            assert(rest@ =~= s@.skip(1));
            assert(vs@.map_values(|x: String| x@) =~= Seq::<Seq<char>>::empty());
        }
        return Some((vs, rest));
    }
    match p_string(s) {
        None => None,
        Some((item, r0)) => {
            let r1 = trim_front(r0);
            let rn = r1.unicode_len();
            if rn > 0 && r1.get_char(0) == ',' {
                let tail0 = r1.substring_char(1, rn);
                proof {
                    assert(tail0@ =~= r1@.skip(1));
                }
                let tail = trim_front(tail0);
                if tail.unicode_len() < n {
                    match p_array_items(tail) {
                        Some((items, r2)) => {
                            let ghost expect = seq![item@] + items@.map_values(|x: String| x@);
                            let mut vs: Vec<String> = Vec::new();
                            vs.push(item);
                            let mut more = items;
                            vs.append(&mut more);
                            proof {
                                assert(vs@.map_values(|x: String| x@) =~= expect);
                            }
                            Some((vs, r2))
                        },
                        None => None,
                    }
                } else {
                    None
                }
            } else if rn > 0 && r1.get_char(0) == ']' {
                let rest = r1.substring_char(1, rn);
                proof {
                    assert(rest@ =~= r1@.skip(1));
                }
                let mut vs: Vec<String> = Vec::new();
                vs.push(item);
                proof {
                    assert(vs@.map_values(|x: String| x@) =~= seq![vs@[0]@]);
                }
                Some((vs, rest))
            } else {
                None
            }
        },
    }
}

/// Reads one argument off the front of `s`.
fn p_arg<'a>(s: &'a str) -> (r: Option<(RawArg, &'a str)>)
    ensures
        match r {
            Some((a, rest)) => sp_arg(s@) == Some((a.abs(), rest@)),
            None => sp_arg(s@) is None,
        },
{
    let n = s.unicode_len();
    if n > 0 && s.get_char(0) == '[' {
        let inner0 = s.substring_char(1, n);
        proof {
            assert(inner0@ =~= s@.skip(1));
        }
        let inner = trim_front(inner0);
        return match p_array_items(inner) {
            Some((items, rest)) => Some((RawArg::Values(items), rest)),
            None => None,
        };
    }
    let il = ident_prefix_len(s);
    if il == 0 {
        return None;
    }
    let key = s.substring_char(0, il);
    let after0 = s.substring_char(il, n);
    proof {
        assert(key@ =~= s@.take(ident_len(s@)));
        assert(after0@ =~= s@.skip(ident_len(s@)));
    }
    let r1 = trim_front(after0);
    let rn = r1.unicode_len();
    if rn > 0 && r1.get_char(0) == '=' {
        let v0 = r1.substring_char(1, rn);
        proof {
            assert(v0@ =~= r1@.skip(1));
        }
        match p_value(trim_front(v0)) {
            Some((v, rest)) => Some(
                (RawArg::Named { key: String::from_str(key), value: v }, rest),
            ),
            None => None,
        }
    } else {
        None
    }
}

/// Reads a comma-separated argument list, blanks already skipped; the
/// closing parenthesis stays in the leftover.
fn p_args<'a>(s: &'a str) -> (r: Option<(Vec<RawArg>, &'a str)>)
    ensures
        match r {
            Some((args, rest)) => sp_args(s@) == Some((abs_args(args@), rest@)),
            None => sp_args(s@) is None,
        },
    decreases s@.len(),
{
    let n = s.unicode_len();
    if n > 0 && s.get_char(0) == ')' {
        let vs: Vec<RawArg> = Vec::new();
        proof {
            assert(abs_args(vs@) =~= Seq::<AbsArg>::empty());
        }
        return Some((vs, s));
    }
    match p_arg(s) {
        None => None,
        Some((a, r0)) => {
            let r1 = trim_front(r0);
            let rn = r1.unicode_len();
            if rn > 0 && r1.get_char(0) == ',' {
                let tail0 = r1.substring_char(1, rn);
                proof {
                    assert(tail0@ =~= r1@.skip(1));
                }
                let tail = trim_front(tail0);
                if tail.unicode_len() < n {
                    match p_args(tail) {
                        Some((rest_args, r2)) => {
                            let ghost expect = seq![a.abs()] + abs_args(rest_args@);
                            let mut vs: Vec<RawArg> = Vec::new();
                            vs.push(a);
                            let mut more = rest_args;
                            vs.append(&mut more);
                            proof {
                                assert(abs_args(vs@) =~= expect);
                            }
                            Some((vs, r2))
                        },
                        None => None,
                    }
                } else {
                    None
                }
            } else {
                let mut vs: Vec<RawArg> = Vec::new();
                vs.push(a);
                proof {
                    assert(abs_args(vs@) =~= seq![vs@[0].abs()]);
                }
                Some((vs, r1))
            }
        },
    }
}

/// Reads one rule entry of a field's declaration: a bare marker or a call
/// with named and positional arguments, exactly as the grammar allows, and
/// refuses anything else as a build-time diagnostic on that field.
pub fn parse_entry(field: &str, text: &str) -> (r: Result<RuleInvocation, BuildError>)
    ensures
        entry_post(r, field@, text@),
{
    let t = trim_front(text);
    let il = ident_prefix_len(t);
    if il == 0 {
        return Err(
            BuildError { field: String::from_str(field), fault: BuildFault::MalformedEntry },
        );
    }
    let tn = t.unicode_len();
    let name = t.substring_char(0, il);
    let after0 = t.substring_char(il, tn);
    proof {
        assert(name@ =~= t@.take(ident_len(t@)));
        assert(after0@ =~= t@.skip(ident_len(t@)));
    }
    let rest = trim_front(after0);
    let rn = rest.unicode_len();
    if rn == 0 {
        // a bare marker
        if str_eq(name, "required") {
            return Ok(
                RuleInvocation {
                    field: String::from_str(field),
                    kind: RuleKind::Required,
                    args: Vec::new(),
                },
            );
        }
        return Err(
            BuildError {
                field: String::from_str(field),
                fault: BuildFault::UnknownRule(String::from_str(name)),
            },
        );
    }
    if rest.get_char(0) != '(' {
        return Err(
            BuildError { field: String::from_str(field), fault: BuildFault::MalformedEntry },
        );
    }
    let inner0 = rest.substring_char(1, rn);
    proof {
        assert(inner0@ =~= rest@.skip(1));
    }
    let inner = trim_front(inner0);
    match p_args(inner) {
        None => Err(BuildError { field: String::from_str(field), fault: BuildFault::MalformedEntry }),
        Some((args, after)) => {
            let an = after.unicode_len();
            if !(an > 0 && after.get_char(0) == ')') {
                return Err(
                    BuildError {
                        field: String::from_str(field),
                        fault: BuildFault::MalformedEntry,
                    },
                );
            }
            let tail0 = after.substring_char(1, an);
            proof {
                assert(tail0@ =~= after@.skip(1));
            }
            let tail = trim_front(tail0);
            if tail.unicode_len() != 0 {
                return Err(
                    BuildError {
                        field: String::from_str(field),
                        fault: BuildFault::MalformedEntry,
                    },
                );
            }
            let kind = if str_eq(name, "len") {
                Some(RuleKind::Length)
            } else if str_eq(name, "rng") {
                Some(RuleKind::Range)
            } else if str_eq(name, "contains") {
                Some(RuleKind::Contains)
            } else if str_eq(name, "required") {
                Some(RuleKind::Required)
            } else {
                None
            };
            match kind {
                Some(k) => Ok(
                    RuleInvocation { field: String::from_str(field), kind: k, args },
                ),
                None => Err(
                    BuildError {
                        field: String::from_str(field),
                        fault: BuildFault::UnknownRule(String::from_str(name)),
                    },
                ),
            }
        },
    }
}

} // verus!
