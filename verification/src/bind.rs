use vstd::prelude::*;

use crate::grammar::{
    abs_args, AbsArg, AbsValue, ArgValue, BuildError, BuildFault, RawArg, RuleInvocation,
};
use crate::template::{apply_template, opt_int, template_result};
use crate::text::str_eq;

verus! {

/// The message of an option, read mathematically.
pub open spec fn opt_text(o: Option<String>) -> Option<Seq<char>> {
    match o {
        Some(s) => Some(s@),
        None => None,
    }
}

/// The bound state of a bounds-carrying rule: its limits and its message,
/// read mathematically.
pub ghost struct AbsBounds {
    pub min: Option<int>,
    pub max: Option<int>,
    pub msg: Option<Seq<char>>,
}

/// How a bounds-carrying rule reads its raw arguments, one at a time and in
/// order: `min` and `max` take integers, `msg` takes a string whose
/// template is checked against the bounds seen so far, and anything else is
/// passed over. A placeholder with no matching bound stops the build and
/// names the missing parameter.
pub open spec fn bounds_fold(args: Seq<AbsArg>, st: AbsBounds) -> Result<AbsBounds, Seq<char>>
    decreases args.len(),
{
    if args.len() == 0 {
        Ok(st)
    } else {
        let rest = args.skip(1);
        match args[0] {
            AbsArg::Named { key, value } => if key == "min"@ {
                match value {
                    AbsValue::Int(v) => bounds_fold(
                        rest,
                        AbsBounds { min: Some(v), max: st.max, msg: st.msg },
                    ),
                    _ => bounds_fold(rest, st),
                }
            } else if key == "max"@ {
                match value {
                    AbsValue::Int(v) => bounds_fold(
                        rest,
                        AbsBounds { min: st.min, max: Some(v), msg: st.msg },
                    ),
                    _ => bounds_fold(rest, st),
                }
            } else if key == "msg"@ {
                match value {
                    AbsValue::Text(t) => match template_result(t, st.min, st.max) {
                        Ok(t2) => bounds_fold(
                            rest,
                            AbsBounds { min: st.min, max: st.max, msg: Some(t2) },
                        ),
                        Err(k) => Err(k),
                    },
                    _ => bounds_fold(rest, st),
                }
            } else {
                bounds_fold(rest, st)
            },
            AbsArg::Values(_) => bounds_fold(rest, st),
        }
    }
}

/// The bound state the three components stand for.
pub open spec fn mk_bounds(min: Option<usize>, max: Option<usize>, msg: Option<String>) -> AbsBounds {
    AbsBounds { min: opt_int(min), max: opt_int(max), msg: opt_text(msg) }
}

/// Binds the arguments of a bounds-carrying rule.
fn bind_bounds(inv: &RuleInvocation) -> (r: Result<
    (Option<usize>, Option<usize>, Option<String>),
    BuildError,
>)
    ensures
        match r {
            Ok((min, max, msg)) => bounds_fold(
                abs_args(inv.args@),
                AbsBounds { min: None, max: None, msg: None },
            ) == Ok::<AbsBounds, Seq<char>>(mk_bounds(min, max, msg)),
            Err(e) => {
                &&& e.field@ == inv.field@
                &&& match e.fault {
                    BuildFault::MissingPlaceholder(k) => bounds_fold(
                        abs_args(inv.args@),
                        AbsBounds { min: None, max: None, msg: None },
                    ) == Err::<AbsBounds, Seq<char>>(k@),
                    _ => false,
                }
            },
        },
{
    let mut min: Option<usize> = None;
    let mut max: Option<usize> = None;
    let mut msg: Option<String> = None;
    let n = inv.args.len();
    let mut i: usize = 0;
    proof {
        assert(abs_args(inv.args@).skip(0) =~= abs_args(inv.args@));
    }
    while i < n
        invariant
            n == inv.args@.len(),
            i <= n,
            bounds_fold(abs_args(inv.args@), AbsBounds { min: None, max: None, msg: None })
                == bounds_fold(abs_args(inv.args@).skip(i as int), mk_bounds(min, max, msg)),
        decreases n - i,
    {
        proof {
            let aa = abs_args(inv.args@);
            assert(aa[i as int] == inv.args@[i as int].abs());
            assert(aa.skip(i as int)[0] == aa[i as int]);
            assert(aa.skip(i as int).skip(1) =~= aa.skip(i as int + 1));
        }
        match &inv.args[i] {
            RawArg::Named { key, value } => {
                if str_eq(key.as_str(), "min") {
                    match value {
                        ArgValue::Int(v) => {
                            min = Some(*v);
                        },
                        _ => {},
                    }
                } else if str_eq(key.as_str(), "max") {
                    match value {
                        ArgValue::Int(v) => {
                            max = Some(*v);
                        },
                        _ => {},
                    }
                } else if str_eq(key.as_str(), "msg") {
                    match value {
                        ArgValue::Text(t) => {
                            match apply_template(t.as_str(), min, max) {
                                Ok(s) => {
                                    msg = Some(s);
                                },
                                Err(k) => {
                                    return Err(
                                        BuildError {
                                            field: inv.field.clone(),
                                            fault: BuildFault::MissingPlaceholder(k),
                                        },
                                    );
                                },
                            }
                        },
                        _ => {},
                    }
                }
            },
            RawArg::Values(_) => {},
        }
        i = i + 1;
    }
    proof {
        assert(abs_args(inv.args@).skip(n as int) =~= Seq::<AbsArg>::empty());
    }
    Ok((min, max, msg))
}

/// The length rule, bound: exclusive bounds on a count of characters or
/// elements, and an optional message with its placeholders written out.
#[derive(Debug)]
pub struct Length {
    pub min: Option<usize>,
    pub max: Option<usize>,
    pub msg: Option<String>,
}

impl Length {
    /// The bound state this rule stands for.
    pub open spec fn abs(&self) -> AbsBounds {
        mk_bounds(self.min, self.max, self.msg)
    }

    /// Binds the raw arguments of a length rule.
    pub fn parse(inv: &RuleInvocation) -> (r: Result<Length, BuildError>)
        ensures
            match r {
                Ok(b) => bounds_fold(
                    abs_args(inv.args@),
                    AbsBounds { min: None, max: None, msg: None },
                ) == Ok::<AbsBounds, Seq<char>>(b.abs()),
                Err(e) => {
                    &&& e.field@ == inv.field@
                    &&& match e.fault {
                        BuildFault::MissingPlaceholder(k) => bounds_fold(
                            abs_args(inv.args@),
                            AbsBounds { min: None, max: None, msg: None },
                        ) == Err::<AbsBounds, Seq<char>>(k@),
                        _ => false,
                    }
                },
            },
    {
        match bind_bounds(inv) {
            Ok((min, max, msg)) => Ok(Length { min, max, msg }),
            Err(e) => Err(e),
        }
    }
}

/// The range rule, bound: inclusive bounds on a numeric magnitude, and an
/// optional message with its placeholders written out.
#[derive(Debug)]
pub struct Range {
    pub min: Option<usize>,
    pub max: Option<usize>,
    pub msg: Option<String>,
}

impl Range {
    /// The bound state this rule stands for.
    pub open spec fn abs(&self) -> AbsBounds {
        mk_bounds(self.min, self.max, self.msg)
    }

    /// Binds the raw arguments of a range rule.
    pub fn parse(inv: &RuleInvocation) -> (r: Result<Range, BuildError>)
        ensures
            match r {
                Ok(b) => bounds_fold(
                    abs_args(inv.args@),
                    AbsBounds { min: None, max: None, msg: None },
                ) == Ok::<AbsBounds, Seq<char>>(b.abs()),
                Err(e) => {
                    &&& e.field@ == inv.field@
                    &&& match e.fault {
                        BuildFault::MissingPlaceholder(k) => bounds_fold(
                            abs_args(inv.args@),
                            AbsBounds { min: None, max: None, msg: None },
                        ) == Err::<AbsBounds, Seq<char>>(k@),
                        _ => false,
                    }
                },
            },
    {
        match bind_bounds(inv) {
            Ok((min, max, msg)) => Ok(Range { min, max, msg }),
            Err(e) => Err(e),
        }
    }
}

/// How the containment rule reads its raw arguments: every positional array
/// contributes its values in order, `msg` takes a string, and anything else
/// is passed over.
pub open spec fn contains_fold(
    args: Seq<AbsArg>,
    values: Seq<Seq<char>>,
    msg: Option<Seq<char>>,
) -> (Seq<Seq<char>>, Option<Seq<char>>)
    decreases args.len(),
{
    if args.len() == 0 {
        (values, msg)
    } else {
        let rest = args.skip(1);
        match args[0] {
            AbsArg::Values(vs) => contains_fold(rest, values + vs, msg),
            AbsArg::Named { key, value } => if key == "msg"@ {
                match value {
                    AbsValue::Text(t) => contains_fold(rest, values, Some(t)),
                    _ => contains_fold(rest, values, msg),
                }
            } else {
                contains_fold(rest, values, msg)
            },
        }
    }
}

/// The containment rule, bound: the values that must all be present, and an
/// optional message.
#[derive(Debug)]
pub struct Contains {
    pub values: Vec<String>,
    pub msg: Option<String>,
}

impl Contains {
    /// The bound state this rule stands for.
    pub open spec fn abs(&self) -> (Seq<Seq<char>>, Option<Seq<char>>) {
        (self.values@.map_values(|s: String| s@), opt_text(self.msg))
    }

    /// Binds the raw arguments of a containment rule; one with no required
    /// values is refused at build time.
    pub fn parse(inv: &RuleInvocation) -> (r: Result<Contains, BuildError>)
        ensures
            ({
                let folded = contains_fold(abs_args(inv.args@), Seq::empty(), None);
                match r {
                    Ok(c) => c.abs() == folded && c.values@.len() > 0,
                    Err(e) => {
                        &&& e.field@ == inv.field@
                        &&& e.fault is EmptyContains
                        &&& folded.0.len() == 0
                    },
                }
            }),
    {
        let mut values: Vec<String> = Vec::new();
        let mut msg: Option<String> = None;
        let n = inv.args.len();
        let mut i: usize = 0;
        proof {
            assert(values@.map_values(|s: String| s@) =~= Seq::<Seq<char>>::empty());
            assert(abs_args(inv.args@).skip(0) =~= abs_args(inv.args@));
        }
        while i < n
            invariant
                n == inv.args@.len(),
                i <= n,
                contains_fold(abs_args(inv.args@), Seq::empty(), None) == contains_fold(
                    abs_args(inv.args@).skip(i as int),
                    values@.map_values(|s: String| s@),
                    opt_text(msg),
                ),
            decreases n - i,
        {
            proof {
                let aa = abs_args(inv.args@);
                assert(aa[i as int] == inv.args@[i as int].abs());
                assert(aa.skip(i as int)[0] == aa[i as int]);
                assert(aa.skip(i as int).skip(1) =~= aa.skip(i as int + 1));
            }
            match &inv.args[i] {
                RawArg::Values(vs) => {
                    let ghost before = values@.map_values(|s: String| s@);
                    let m = vs.len();
                    let mut j: usize = 0;
                    while j < m
                        invariant
                            m == vs@.len(),
                            j <= m,
                            values@.map_values(|s: String| s@) =~= before + vs@.map_values(
                                |s: String| s@,
                            ).take(j as int),
                        decreases m - j,
                    {
                        let ghost vprev = values@;
                        values.push(vs[j].clone());
                        proof {
                            assert(values@.map_values(|s: String| s@) =~= vprev.map_values(
                                |s: String| s@,
                            ).push(vs@[j as int]@));
                            assert(vs@.map_values(|s: String| s@).take(j as int + 1)
                                =~= vs@.map_values(|s: String| s@).take(j as int).push(
                                vs@[j as int]@,
                            ));
                            assert(before + vs@.map_values(|s: String| s@).take(j as int + 1)
                                =~= (before + vs@.map_values(|s: String| s@).take(j as int)).push(
                                vs@[j as int]@,
                            ));
                        }
                        j = j + 1;
                    }
                    proof {
                        assert(vs@.map_values(|s: String| s@).take(m as int) =~= vs@.map_values(
                            |s: String| s@,
                        ));
                    }
                },
                RawArg::Named { key, value } => {
                    if str_eq(key.as_str(), "msg") {
                        match value {
                            ArgValue::Text(t) => {
                                msg = Some(t.clone());
                            },
                            _ => {},
                        }
                    }
                },
            }
            i = i + 1;
        }
        proof {
            assert(abs_args(inv.args@).skip(n as int) =~= Seq::<AbsArg>::empty());
        }
        if values.len() == 0 {
            proof {
                assert(values@.map_values(|s: String| s@) =~= Seq::<Seq<char>>::empty());
            }
            return Err(BuildError { field: inv.field.clone(), fault: BuildFault::EmptyContains });
        }
        Ok(Contains { values, msg })
    }
}

/// How the marker rule reads its raw arguments: only `msg` is recognized.
pub open spec fn required_fold(args: Seq<AbsArg>, msg: Option<Seq<char>>) -> Option<Seq<char>>
    decreases args.len(),
{
    if args.len() == 0 {
        msg
    } else {
        let rest = args.skip(1);
        match args[0] {
            AbsArg::Named { key, value } => if key == "msg"@ {
                match value {
                    AbsValue::Text(t) => required_fold(rest, Some(t)),
                    _ => required_fold(rest, msg),
                }
            } else {
                required_fold(rest, msg)
            },
            AbsArg::Values(_) => required_fold(rest, msg),
        }
    }
}

/// The presence rule, bound: an optional message.
#[derive(Debug)]
pub struct Required {
    pub msg: Option<String>,
}

impl Required {
    /// Binds the raw arguments of a presence rule; every argument list is
    /// acceptable.
    pub fn parse(inv: &RuleInvocation) -> (r: Result<Required, BuildError>)
        ensures
            match r {
                Ok(c) => opt_text(c.msg) == required_fold(abs_args(inv.args@), None),
                Err(_) => false,
            },
    {
        let mut msg: Option<String> = None;
        let n = inv.args.len();
        let mut i: usize = 0;
        proof {
            assert(abs_args(inv.args@).skip(0) =~= abs_args(inv.args@));
        }
        while i < n
            invariant
                n == inv.args@.len(),
                i <= n,
                required_fold(abs_args(inv.args@), None) == required_fold(
                    abs_args(inv.args@).skip(i as int),
                    opt_text(msg),
                ),
            decreases n - i,
        {
            proof {
                let aa = abs_args(inv.args@);
                assert(aa[i as int] == inv.args@[i as int].abs());
                assert(aa.skip(i as int)[0] == aa[i as int]);
                assert(aa.skip(i as int).skip(1) =~= aa.skip(i as int + 1));
            }
            match &inv.args[i] {
                RawArg::Named { key, value } => {
                    if str_eq(key.as_str(), "msg") {
                        match value {
                            ArgValue::Text(t) => {
                                msg = Some(t.clone());
                            },
                            _ => {},
                        }
                    }
                },
                RawArg::Values(_) => {},
            }
            i = i + 1;
        }
        proof {
            assert(abs_args(inv.args@).skip(n as int) =~= Seq::<AbsArg>::empty());
        }
        Ok(Required { msg })
    }
}

} // verus!
