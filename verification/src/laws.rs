use vstd::prelude::*;

use crate::error::Error;
use crate::plan::{
    field_result, plan_result, rule_check, rules_result, BoundRule, FieldPlan, Value,
};
use crate::rules::contains::contains_rule;
use crate::rules::length::length_rule;
use crate::rules::range::range_rule;
use crate::rules::required::required_rule;
use crate::template::template_result;
use crate::text::is_substring;

verus! {

/// A count that sits exactly on a declared length bound is always a
/// violation: the length rule's bounds are exclusive.
pub proof fn lemma_length_boundary_fails(
    count: usize,
    min: Option<usize>,
    max: Option<usize>,
    msg: Option<String>,
)
    requires
        min == Some(count) || max == Some(count),
    ensures
        length_rule(Some(count), min, max, msg) is Err,
{
}

/// A count strictly inside the declared length bounds always passes.
pub proof fn lemma_length_inside_passes(
    count: usize,
    min: Option<usize>,
    max: Option<usize>,
    msg: Option<String>,
)
    requires
        match min {
            Some(m) => m < count,
            None => true,
        },
        match max {
            Some(m) => count < m,
            None => true,
        },
    ensures
        length_rule(Some(count), min, max, msg) is Ok,
{
}

/// A magnitude that sits exactly on a declared range bound always passes,
/// provided it does not break the other bound: the range rule's bounds are
/// inclusive, unlike the length rule's.
pub proof fn lemma_range_boundary_passes(
    value: usize,
    min: Option<usize>,
    max: Option<usize>,
    msg: Option<String>,
)
    requires
        min == Some(value) || max == Some(value),
        match min {
            Some(m) => m <= value,
            None => true,
        },
        match max {
            Some(m) => value <= m,
            None => true,
        },
    ensures
        range_rule(Some(value), min, max, msg) is Ok,
{
}

/// A magnitude strictly inside the declared range bounds always passes.
pub proof fn lemma_range_inside_passes(
    value: usize,
    min: Option<usize>,
    max: Option<usize>,
    msg: Option<String>,
)
    requires
        match min {
            Some(m) => m <= value,
            None => true,
        },
        match max {
            Some(m) => value <= m,
            None => true,
        },
    ensures
        range_rule(Some(value), min, max, msg) is Ok,
{
}

/// The containment rule passes exactly when every required value was found.
pub proof fn lemma_contains_all_or_nothing(all_present: bool, msg: Option<String>)
    ensures
        contains_rule(all_present, msg) is Ok <==> all_present,
{
}

/// A present, non-empty value always passes the required rule.
pub proof fn lemma_required_present(msg: Option<String>)
    ensures
        required_rule(false, msg) is Ok,
{
}

/// A missing value fails the required rule with the structured error,
/// unless a custom message was declared, which then replaces it.
pub proof fn lemma_required_missing(msg: Option<String>)
    ensures
        match msg {
            Some(m) => required_rule(true, Some(m)) == Err::<(), Error>(Error::Custom(m)),
            None => required_rule(true, None) == Err::<(), Error>(Error::Required),
        },
{
}

/// A message template that uses the `{{min}}` placeholder while the rule
/// binds no minimum is refused, naming the parameter; it never yields a
/// message for run time.
pub proof fn lemma_template_needs_min(t: Seq<char>, max: Option<int>)
    requires
        is_substring(t, "{{min}}"@),
    ensures
        template_result(t, None, max) == Err::<Seq<char>, Seq<char>>("min"@),
{
}

/// Declaration order decides the reported failure across fields: when every
/// field declared before `i` passes and field `i` fails, the routine
/// reports field `i`'s error, whatever stands after it.
pub proof fn lemma_declaration_order(fields: Seq<FieldPlan>, vals: Seq<(String, Value)>, i: int)
    requires
        0 <= i < fields.len(),
        field_result(fields[i], vals) is Err,
        forall|k: int| 0 <= k < i ==> field_result(#[trigger] fields[k], vals) is Ok,
    ensures
        plan_result(fields, vals) == field_result(fields[i], vals),
    decreases i,
{
    if i == 0 {
    } else {
        assert(field_result(fields[0], vals) is Ok);
        assert forall|k: int| 0 <= k < i - 1 implies field_result(
            #[trigger] fields.skip(1)[k],
            vals,
        ) is Ok by {
            assert(fields.skip(1)[k] == fields[k + 1]);
        }
        assert(fields.skip(1)[i - 1] == fields[i]);
        lemma_declaration_order(fields.skip(1), vals, i - 1);
    }
}

/// Within one field, declaration order decides likewise: the first failing
/// rule's error is the one reported.
pub proof fn lemma_rule_order(rules: Seq<BoundRule>, v: Value, i: int)
    requires
        0 <= i < rules.len(),
        rule_check(rules[i], v) is Err,
        forall|k: int| 0 <= k < i ==> rule_check(#[trigger] rules[k], v) is Ok,
    ensures
        rules_result(rules, v) == rule_check(rules[i], v),
    decreases i,
{
    if i == 0 {
    } else {
        assert(rule_check(rules[0], v) is Ok);
        assert forall|k: int| 0 <= k < i - 1 implies rule_check(
            #[trigger] rules.skip(1)[k],
            v,
        ) is Ok by {
            assert(rules.skip(1)[k] == rules[k + 1]);
        }
        assert(rules.skip(1)[i - 1] == rules[i]);
        lemma_rule_order(rules.skip(1), v, i - 1);
    }
}

} // verus!
