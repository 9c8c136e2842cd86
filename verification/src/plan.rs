use vstd::prelude::*;

use crate::bind::{contains_fold, bounds_fold, required_fold, AbsBounds, Contains, Length, Range, Required};
use crate::error::Error;
use crate::grammar::{kind_for, parse_entry, sp_entry, BuildError, BuildFault, RuleKind};
use crate::rules::contains::{contains_rule, ValidateContains};
use crate::rules::length::{length_rule, ValidateLength};
use crate::rules::range::{range_rule, ValidateRange};
use crate::rules::required::{required_rule, ValidateRequired};
use crate::text::{is_substring, str_contains_str, str_eq};

verus! {

/// A field value as the generated routine sees it, through its capability
/// views: a text, a magnitude, a list of texts, a flag, or nothing at all
/// (an unset optional).
#[derive(Debug)]
pub enum Value {
    Text(String),
    Number(usize),
    Items(Vec<String>),
    Flag(bool),
    Missing,
}

impl ValidateLength for Value {
    open spec fn spec_length(&self) -> Option<usize> {
        match self {
            Value::Text(s) => Some(s@.len() as usize),
            Value::Items(vs) => Some(vs@.len() as usize),
            Value::Number(_) => None,
            Value::Flag(_) => None,
            Value::Missing => None,
        }
    }

    fn length(&self) -> (r: Option<usize>) {
        match self {
            Value::Text(s) => Some(s.as_str().unicode_len()),
            Value::Items(vs) => Some(vs.len()),
            Value::Number(_) => None,
            Value::Flag(_) => None,
            Value::Missing => None,
        }
    }
}

impl ValidateRange for Value {
    open spec fn spec_value(&self) -> Option<usize> {
        match self {
            Value::Number(n) => Some(*n),
            Value::Text(_) => None,
            Value::Items(_) => None,
            Value::Flag(_) => None,
            Value::Missing => None,
        }
    }

    fn value(&self) -> (r: Option<usize>) {
        match self {
            Value::Number(n) => Some(*n),
            Value::Text(_) => None,
            Value::Items(_) => None,
            Value::Flag(_) => None,
            Value::Missing => None,
        }
    }
}

impl ValidateRequired for Value {
    open spec fn spec_empty(&self) -> bool {
        match self {
            Value::Text(s) => s@.len() == 0,
            Value::Items(vs) => vs@.len() == 0,
            Value::Number(_) => false,
            Value::Flag(_) => false,
            Value::Missing => true,
        }
    }

    fn empty(&self) -> (r: bool) {
        match self {
            Value::Text(s) => s.as_str().unicode_len() == 0,
            Value::Items(vs) => vs.len() == 0,
            Value::Number(_) => false,
            Value::Flag(_) => false,
            Value::Missing => true,
        }
    }
}

impl<'a> ValidateContains<'a, String> for Value {
    open spec fn spec_contains_value(&self, value: String) -> bool {
        match self {
            Value::Text(s) => is_substring(s@, value@),
            Value::Items(vs) => exists|i: int| 0 <= i < vs@.len() && vs@[i]@ == value@,
            Value::Number(_) => false,
            Value::Flag(_) => false,
            Value::Missing => false,
        }
    }

    fn contains_value(&self, value: &String) -> (r: bool) {
        match self {
            Value::Text(s) => str_contains_str(s.as_str(), value.as_str()),
            Value::Items(vs) => vs.contains_value(value),
            Value::Number(_) => false,
            Value::Flag(_) => false,
            Value::Missing => false,
        }
    }
}

/// One rule of a field plan, bound and ready to run.
#[derive(Debug)]
pub enum BoundRule {
    Length(Length),
    Range(Range),
    Contains(Contains),
    Required(Required),
}

/// Exact outcome of one bound rule against one field value, through the
/// value's views.
pub open spec fn rule_check(rule: BoundRule, v: Value) -> Result<(), Error> {
    match rule {
        BoundRule::Length(b) => length_rule(v.spec_length(), b.min, b.max, b.msg),
        BoundRule::Range(b) => range_rule(v.spec_value(), b.min, b.max, b.msg),
        BoundRule::Contains(c) => contains_rule(
            forall|i: int|
                0 <= i < c.values@.len() ==> v.spec_contains_value(#[trigger] c.values@[i]),
            c.msg,
        ),
        BoundRule::Required(q) => required_rule(v.spec_empty(), q.msg),
    }
}

fn clone_msg(m: &Option<String>) -> (r: Option<String>)
    ensures
        r == *m,
{
    match m {
        Some(s) => Some(s.clone()),
        None => None,
    }
}

impl Length {
    /// Runs the bound length rule against a field value.
    pub fn check(&self, v: &Value) -> (r: Result<(), Error>)
        ensures
            r == length_rule(v.spec_length(), self.min, self.max, self.msg),
    {
        v.validate_length(self.min, self.max, clone_msg(&self.msg))
    }
}

impl Range {
    /// Runs the bound range rule against a field value.
    pub fn check(&self, v: &Value) -> (r: Result<(), Error>)
        ensures
            r == range_rule(v.spec_value(), self.min, self.max, self.msg),
    {
        v.validate_range(self.min, self.max, clone_msg(&self.msg))
    }
}

impl Contains {
    /// Runs the bound containment rule against a field value.
    pub fn check(&self, v: &Value) -> (r: Result<(), Error>)
        ensures
            r == contains_rule(
                forall|i: int|
                    0 <= i < self.values@.len() ==> v.spec_contains_value(
                        #[trigger] self.values@[i],
                    ),
                self.msg,
            ),
    {
        v.validate_contains(self.values.as_slice(), clone_msg(&self.msg))
    }
}

impl Required {
    /// Runs the bound presence rule against a field value.
    pub fn check(&self, v: &Value) -> (r: Result<(), Error>)
        ensures
            r == required_rule(v.spec_empty(), self.msg),
    {
        v.validate_required(clone_msg(&self.msg))
    }
}

impl BoundRule {
    /// Runs one bound rule against a field value.
    pub fn check(&self, v: &Value) -> (r: Result<(), Error>)
        ensures
            r == rule_check(*self, *v),
    {
        match self {
            BoundRule::Length(b) => b.check(v),
            BoundRule::Range(b) => b.check(v),
            BoundRule::Contains(c) => c.check(v),
            BoundRule::Required(q) => q.check(v),
        }
    }
}

/// One field's rules, in declaration order.
#[derive(Debug)]
pub struct FieldPlan {
    pub field: String,
    pub rules: Vec<BoundRule>,
}

/// The whole build artifact: every field's plan, in declaration order. Its
/// `validate` method is the generated routine.
#[derive(Debug)]
pub struct ValidationPlan {
    pub name: String,
    pub fields: Vec<FieldPlan>,
}

/// The value an instance gives a field: the first entry under that name, or
/// nothing when the instance has none.
pub open spec fn lookup(vals: Seq<(String, Value)>, name: Seq<char>) -> Value
    decreases vals.len(),
{
    if vals.len() == 0 {
        Value::Missing
    } else if vals[0].0@ == name {
        vals[0].1
    } else {
        lookup(vals.skip(1), name)
    }
}

/// Exact outcome of one field's rules, in order, against one value: the
/// first violation wins.
pub open spec fn rules_result(rules: Seq<BoundRule>, v: Value) -> Result<(), Error>
    decreases rules.len(),
{
    if rules.len() == 0 {
        Ok(())
    } else {
        match rule_check(rules[0], v) {
            Err(e) => Err(e),
            Ok(_) => rules_result(rules.skip(1), v),
        }
    }
}

/// Exact outcome of one field plan against an instance.
pub open spec fn field_result(fp: FieldPlan, vals: Seq<(String, Value)>) -> Result<(), Error> {
    rules_result(fp.rules@, lookup(vals, fp.field@))
}

/// Exact outcome of a whole plan against an instance: fields are judged in
/// declaration order and the first violation wins.
pub open spec fn plan_result(fields: Seq<FieldPlan>, vals: Seq<(String, Value)>) -> Result<
    (),
    Error,
>
    decreases fields.len(),
{
    if fields.len() == 0 {
        Ok(())
    } else {
        match field_result(fields[0], vals) {
            Err(e) => Err(e),
            Ok(_) => plan_result(fields.skip(1), vals),
        }
    }
}

fn lookup_value<'a>(vals: &'a Vec<(String, Value)>, name: &str) -> (r: Option<&'a Value>)
    ensures
        match r {
            Some(v) => *v == lookup(vals@, name@),
            None => lookup(vals@, name@) == Value::Missing,
        },
{
    let n = vals.len();
    let mut i: usize = 0;
    proof {
        assert(vals@.skip(0) =~= vals@);
    }
    while i < n
        invariant
            n == vals@.len(),
            i <= n,
            lookup(vals@, name@) == lookup(vals@.skip(i as int), name@),
        decreases n - i,
    {
        proof {
            assert(vals@.skip(i as int)[0] == vals@[i as int]);
            assert(vals@.skip(i as int).skip(1) =~= vals@.skip(i as int + 1));
        }
        let pair = &vals[i];
        if str_eq(pair.0.as_str(), name) {
            return Some(&pair.1);
        }
        i = i + 1;
    }
    None
}

impl ValidationPlan {
    /// The generated routine: runs every field's rules in declaration order
    /// against the instance's values and returns at the first violation;
    /// later rules, on the same field or any later one, are never judged.
    pub fn validate(&self, instance: &Vec<(String, Value)>) -> (r: Result<(), Error>)
        ensures
            r == plan_result(self.fields@, instance@),
    {
        let nf = self.fields.len();
        let mut i: usize = 0;
        proof {
            assert(self.fields@.skip(0) =~= self.fields@);
        }
        while i < nf
            invariant
                nf == self.fields@.len(),
                i <= nf,
                plan_result(self.fields@, instance@) == plan_result(
                    self.fields@.skip(i as int),
                    instance@,
                ),
            decreases nf - i,
        {
            proof {
                assert(self.fields@.skip(i as int)[0] == self.fields@[i as int]);
                assert(self.fields@.skip(i as int).skip(1) =~= self.fields@.skip(i as int + 1));
            }
            let fp = &self.fields[i];
            let missing = Value::Missing;
            let looked = lookup_value(instance, fp.field.as_str());
            let v: &Value = match looked {
                Some(v) => v,
                None => &missing,
            };
            proof {
                assert(*v == lookup(instance@, self.fields@[i as int].field@));
                assert(fp.rules@.skip(0) =~= fp.rules@);
            }
            let nr = fp.rules.len();
            let mut j: usize = 0;
            while j < nr
                invariant
                    nf == self.fields@.len(),
                    i < nf,
                    plan_result(self.fields@, instance@) == plan_result(
                        self.fields@.skip(i as int),
                        instance@,
                    ),
                    *fp == self.fields@[i as int],
                    *v == lookup(instance@, self.fields@[i as int].field@),
                    nr == fp.rules@.len(),
                    j <= nr,
                    rules_result(fp.rules@, *v) == rules_result(fp.rules@.skip(j as int), *v),
                decreases nr - j,
            {
                proof {
                    assert(fp.rules@.skip(j as int)[0] == fp.rules@[j as int]);
                    assert(fp.rules@.skip(j as int).skip(1) =~= fp.rules@.skip(j as int + 1));
                }
                match fp.rules[j].check(v) {
                    Err(e) => {
                        return Err(e);
                    },
                    Ok(_) => {},
                }
                j = j + 1;
            }
            proof {
                assert(fp.rules@.skip(nr as int) =~= Seq::<BoundRule>::empty());
            }
            i = i + 1;
        }
        proof {
            assert(self.fields@.skip(nf as int) =~= Seq::<FieldPlan>::empty());
        }
        Ok(())
    }
}

/// A build-time fault, read mathematically.
pub ghost enum AbsFault {
    Malformed,
    Unknown(Seq<char>),
    Missing(Seq<char>),
    Empty,
}

impl BuildFault {
    pub open spec fn abs(&self) -> AbsFault {
        match self {
            BuildFault::MalformedEntry => AbsFault::Malformed,
            BuildFault::UnknownRule(nm) => AbsFault::Unknown(nm@),
            BuildFault::MissingPlaceholder(k) => AbsFault::Missing(k@),
            BuildFault::EmptyContains => AbsFault::Empty,
        }
    }
}

/// A bound rule, read mathematically.
pub ghost enum AbsRule {
    Length(AbsBounds),
    Range(AbsBounds),
    Contains { values: Seq<Seq<char>>, msg: Option<Seq<char>> },
    Required(Option<Seq<char>>),
}

impl BoundRule {
    pub open spec fn abs(&self) -> AbsRule {
        match self {
            BoundRule::Length(b) => AbsRule::Length(b.abs()),
            BoundRule::Range(b) => AbsRule::Range(b.abs()),
            BoundRule::Contains(c) => AbsRule::Contains {
                values: c.abs().0,
                msg: c.abs().1,
            },
            BoundRule::Required(q) => AbsRule::Required(crate::bind::opt_text(q.msg)),
        }
    }
}

/// What one entry's text denotes once parsed and bound: a rule, or the
/// build fault that refuses it.
pub open spec fn entry_rule(text: Seq<char>) -> Result<AbsRule, AbsFault> {
    match sp_entry(text) {
        None => Err(AbsFault::Malformed),
        Some(abs) => match abs.args {
            None => if abs.name == "required"@ {
                Ok(AbsRule::Required(None))
            } else {
                Err(AbsFault::Unknown(abs.name))
            },
            Some(aa) => match kind_for(abs.name) {
                Some(RuleKind::Length) => match bounds_fold(
                    aa,
                    AbsBounds { min: None, max: None, msg: None },
                ) {
                    Ok(b) => Ok(AbsRule::Length(b)),
                    Err(k) => Err(AbsFault::Missing(k)),
                },
                Some(RuleKind::Range) => match bounds_fold(
                    aa,
                    AbsBounds { min: None, max: None, msg: None },
                ) {
                    Ok(b) => Ok(AbsRule::Range(b)),
                    Err(k) => Err(AbsFault::Missing(k)),
                },
                Some(RuleKind::Contains) => {
                    let folded = contains_fold(aa, Seq::empty(), None);
                    if folded.0.len() == 0 {
                        Err(AbsFault::Empty)
                    } else {
                        Ok(AbsRule::Contains { values: folded.0, msg: folded.1 })
                    }
                },
                Some(RuleKind::Required) => Ok(AbsRule::Required(required_fold(aa, None))),
                None => Err(AbsFault::Unknown(abs.name)),
            },
        },
    }
}

/// Parses and binds one rule entry of a field's declaration.
pub fn bind_entry(field: &str, text: &str) -> (r: Result<BoundRule, BuildError>)
    ensures
        match r {
            Ok(b) => entry_rule(text@) == Ok::<AbsRule, AbsFault>(b.abs()),
            Err(e) => {
                &&& e.field@ == field@
                &&& entry_rule(text@) == Err::<AbsRule, AbsFault>(e.fault.abs())
            },
        },
{
    let inv = match parse_entry(field, text) {
        Ok(inv) => inv,
        Err(e) => {
            return Err(e);
        },
    };
    match inv.kind {
        RuleKind::Length => match Length::parse(&inv) {
            Ok(b) => Ok(BoundRule::Length(b)),
            Err(e) => Err(e),
        },
        RuleKind::Range => match Range::parse(&inv) {
            Ok(b) => Ok(BoundRule::Range(b)),
            Err(e) => Err(e),
        },
        RuleKind::Contains => match Contains::parse(&inv) {
            Ok(b) => Ok(BoundRule::Contains(b)),
            Err(e) => Err(e),
        },
        RuleKind::Required => match Required::parse(&inv) {
            Ok(b) => Ok(BoundRule::Required(b)),
            Err(e) => Err(e),
        },
    }
}

/// One field of the declaration read by the build: its identifier and its
/// rule entries, in order.
#[derive(Debug)]
pub struct FieldDecl {
    pub name: String,
    pub rules: Vec<String>,
}

/// The rules one field's entries denote, bound in order; the first
/// offending entry's fault wins.
pub open spec fn field_rules_spec(entries: Seq<Seq<char>>) -> Result<Seq<AbsRule>, AbsFault>
    decreases entries.len(),
{
    if entries.len() == 0 {
        Ok(Seq::empty())
    } else {
        match entry_rule(entries[0]) {
            Ok(rule) => match field_rules_spec(entries.skip(1)) {
                Ok(rest) => Ok(seq![rule] + rest),
                Err(f) => Err(f),
            },
            Err(f) => Err(f),
        }
    }
}

/// One field plan, read mathematically.
pub ghost struct AbsFieldPlan {
    pub field: Seq<char>,
    pub rules: Seq<AbsRule>,
}

/// The rules of a field plan, read mathematically.
pub open spec fn abs_rules(rs: Seq<BoundRule>) -> Seq<AbsRule> {
    rs.map_values(|r: BoundRule| r.abs())
}

/// The field plans, read mathematically.
pub open spec fn abs_fields(fs: Seq<FieldPlan>) -> Seq<AbsFieldPlan> {
    fs.map_values(|f: FieldPlan| AbsFieldPlan { field: f.field@, rules: abs_rules(f.rules@) })
}

/// The plan a declaration denotes, field by field in order; the first
/// offending entry stops the build with its field's name and the fault.
pub open spec fn plan_spec(decls: Seq<FieldDecl>) -> Result<Seq<AbsFieldPlan>, (Seq<char>, AbsFault)>
    decreases decls.len(),
{
    if decls.len() == 0 {
        Ok(Seq::empty())
    } else {
        match field_rules_spec(decls[0].rules@.map_values(|s: String| s@)) {
            Ok(rules) => match plan_spec(decls.skip(1)) {
                Ok(rest) => Ok(seq![AbsFieldPlan { field: decls[0].name@, rules }] + rest),
                Err(f) => Err(f),
            },
            Err(f) => Err((decls[0].name@, f)),
        }
    }
}

/// Builds the validation plan for one data structure: reads each field's
/// rule entries in declaration order, binds them, and lays the field plans
/// out in the same order; the first offending entry stops the build with
/// its diagnostic.
pub fn valid(name: &str, decls: &Vec<FieldDecl>) -> (r: Result<ValidationPlan, BuildError>)
    ensures
        match r {
            Ok(plan) => {
                &&& plan.name@ == name@
                &&& plan_spec(decls@) == Ok::<Seq<AbsFieldPlan>, (Seq<char>, AbsFault)>(
                    abs_fields(plan.fields@),
                )
            },
            Err(e) => match plan_spec(decls@) {
                Err((f, fault)) => e.field@ == f && e.fault.abs() == fault,
                Ok(_) => false,
            },
        },
{
    let nd = decls.len();
    let mut fields: Vec<FieldPlan> = Vec::new();
    let mut i: usize = 0;
    proof {
        assert(decls@.skip(0) =~= decls@);
        assert(abs_fields(fields@) =~= Seq::<AbsFieldPlan>::empty());
    }
    while i < nd
        invariant
            nd == decls@.len(),
            i <= nd,
            plan_spec(decls@) == match plan_spec(decls@.skip(i as int)) {
                Ok(rest) => Ok::<Seq<AbsFieldPlan>, (Seq<char>, AbsFault)>(
                    abs_fields(fields@) + rest,
                ),
                Err(f) => Err::<Seq<AbsFieldPlan>, (Seq<char>, AbsFault)>(f),
            },
        decreases nd - i,
    {
        proof {
            assert(decls@.skip(i as int)[0] == decls@[i as int]);
            assert(decls@.skip(i as int).skip(1) =~= decls@.skip(i as int + 1));
        }
        let decl = &decls[i];
        let ghost entry_views = decl.rules@.map_values(|s: String| s@);
        let ne = decl.rules.len();
        let mut rules: Vec<BoundRule> = Vec::new();
        let mut j: usize = 0;
        proof {
            assert(entry_views.skip(0) =~= entry_views);
            assert(abs_rules(rules@) =~= Seq::<AbsRule>::empty());
        }
        while j < ne
            invariant
                nd == decls@.len(),
                i < nd,
                plan_spec(decls@) == match plan_spec(decls@.skip(i as int)) {
                    Ok(rest) => Ok::<Seq<AbsFieldPlan>, (Seq<char>, AbsFault)>(
                        abs_fields(fields@) + rest,
                    ),
                    Err(f) => Err::<Seq<AbsFieldPlan>, (Seq<char>, AbsFault)>(f),
                },
                *decl == decls@[i as int],
                entry_views == decl.rules@.map_values(|s: String| s@),
                ne == decl.rules@.len(),
                j <= ne,
                field_rules_spec(entry_views) == match field_rules_spec(
                    entry_views.skip(j as int),
                ) {
                    Ok(rest) => Ok::<Seq<AbsRule>, AbsFault>(abs_rules(rules@) + rest),
                    Err(f) => Err::<Seq<AbsRule>, AbsFault>(f),
                },
            decreases ne - j,
        {
            proof {
                assert(entry_views[j as int] == decl.rules@[j as int]@);
                assert(entry_views.skip(j as int)[0] == entry_views[j as int]);
                assert(entry_views.skip(j as int).skip(1) =~= entry_views.skip(j as int + 1));
            }
            match bind_entry(decl.name.as_str(), decl.rules[j].as_str()) {
                Ok(rule) => {
                    let ghost rprev = rules@;
                    rules.push(rule);
                    proof {
                        let x = rules@[rprev.len() as int].abs();
                        assert(abs_rules(rules@) =~= abs_rules(rprev).push(x));
                        match field_rules_spec(entry_views.skip(j as int + 1)) {
                            Ok(rest2) => {
                                assert(abs_rules(rprev) + (seq![x] + rest2) =~= abs_rules(rules@)
                                    + rest2);
                            },
                            Err(_) => {},
                        }
                    }
                },
                Err(e) => {
                    proof {
                        assert(decls@.skip(i as int)[0] == decls@[i as int]);
                    }
                    return Err(e);
                },
            }
            j = j + 1;
        }
        let ghost built = abs_rules(rules@);
        proof {
            assert(entry_views.skip(ne as int) =~= Seq::<Seq<char>>::empty());
            assert(built + Seq::<AbsRule>::empty() =~= built);
        }
        let ghost fprev = fields@;
        fields.push(FieldPlan { field: decl.name.clone(), rules });
        proof {
            let afp = AbsFieldPlan { field: decls@[i as int].name@, rules: built };
            assert(fields@[fprev.len() as int].field@ == decls@[i as int].name@);
            assert(fields@[fprev.len() as int].rules@ == rules@);
            assert(abs_fields(fields@) =~= abs_fields(fprev).push(afp));
            match plan_spec(decls@.skip(i as int + 1)) {
                Ok(rest) => {
                    assert(abs_fields(fprev) + (seq![afp] + rest) =~= abs_fields(fields@) + rest);
                },
                Err(_) => {},
            }
        }
        i = i + 1;
    }
    proof {
        assert(decls@.skip(nd as int) =~= Seq::<FieldDecl>::empty());
    }
    Ok(ValidationPlan { name: String::from_str(name), fields })
}

} // verus!
