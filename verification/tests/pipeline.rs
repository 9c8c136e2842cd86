use validrs::error::Error;
use validrs::grammar::BuildFault;
use validrs::plan::{valid, FieldDecl, Value};
use validrs::template::apply_template;

fn decl(name: &str, rules: &[&str]) -> FieldDecl {
    FieldDecl {
        name: name.to_string(),
        rules: rules.iter().map(|r| r.to_string()).collect(),
    }
}

fn user_decls() -> Vec<FieldDecl> {
    vec![
        decl(
            "name",
            &[r#"len(min = 1, max = 16, msg = "The length must be at least {{min}} character and no more than {{max}} characters")"#],
        ),
        decl(
            "age",
            &[r#"rng(min = 18, max = 120, msg = "The age must be at least {{min}} and no more than {{max}}")"#],
        ),
        decl("email", &[r#"contains(["@", "."], msg = "The provided email is not correct")"#]),
        decl("allow", &["required"]),
        decl("roles", &[r#"required(msg = "At least 1 role is required")"#]),
    ]
}

fn user_instance(name: &str, age: usize, email: &str) -> Vec<(String, Value)> {
    vec![
        ("name".to_string(), Value::Text(name.to_string())),
        ("age".to_string(), Value::Number(age)),
        ("email".to_string(), Value::Text(email.to_string())),
        ("allow".to_string(), Value::Flag(true)),
        ("roles".to_string(), Value::Items(vec!["user".to_string()])),
    ]
}

#[test]
fn user_struct_validates() {
    let plan = valid("User", &user_decls()).unwrap();
    assert_eq!(plan.fields.len(), 5);
    let r = plan.validate(&user_instance("John", 20, "@."));
    assert!(r.is_ok());
}

#[test]
fn underage_user_fails_with_custom_message() {
    let plan = valid("User", &user_decls()).unwrap();
    let r = plan.validate(&user_instance("John", 15, "@."));
    match r {
        Err(Error::Custom(m)) => {
            assert_eq!(m, "The age must be at least 18 and no more than 120")
        },
        other => panic!("expected the range rule's custom message, got {:?}", other),
    }
}

#[test]
fn mismatched_email_fails_without_message() {
    let decls = vec![
        decl("name", &["len(min = 1, max = 16)"]),
        decl("email", &[r#"contains(["@", "."])"#]),
    ];
    let plan = valid("User", &decls).unwrap();
    let instance = vec![
        ("name".to_string(), Value::Text("John".to_string())),
        ("email".to_string(), Value::Text("nomatch".to_string())),
    ];
    assert!(matches!(plan.validate(&instance), Err(Error::DoNotContains)));
}

#[test]
fn first_declared_field_reports_first() {
    let decls = vec![
        decl("a", &["rng(min = 10)"]),
        decl("b", &["rng(min = 10, msg = \"b failed\")"]),
    ];
    let plan = valid("Pair", &decls).unwrap();
    let instance = vec![
        ("a".to_string(), Value::Number(1)),
        ("b".to_string(), Value::Number(1)),
    ];
    // both fields fail; the error belongs to the field declared first
    assert!(matches!(
        plan.validate(&instance),
        Err(Error::InvalidRange { min: Some(10), max: None })
    ));
}

#[test]
fn first_declared_rule_reports_first() {
    let decls = vec![decl("a", &["rng(min = 10)", "rng(max = 0, msg = \"second\")"])];
    let plan = valid("Pair", &decls).unwrap();
    let instance = vec![("a".to_string(), Value::Number(1))];
    // both rules on the field fail; the first declared one is reported
    assert!(matches!(
        plan.validate(&instance),
        Err(Error::InvalidRange { min: Some(10), max: None })
    ));
}

#[test]
fn min_placeholder_without_min_is_a_build_error() {
    let decls = vec![decl("name", &[r#"len(max = 16, msg = "at least {{min}}")"#])];
    let err = valid("User", &decls).unwrap_err();
    assert_eq!(err.field, "name");
    match err.fault {
        BuildFault::MissingPlaceholder(k) => assert_eq!(k, "min"),
        other => panic!("expected a missing-placeholder fault, got {:?}", fault_name(&other)),
    }
}

#[test]
fn max_placeholder_without_max_is_a_build_error() {
    let decls = vec![decl("name", &[r#"rng(min = 1, msg = "at most {{max}}")"#])];
    let err = valid("User", &decls).unwrap_err();
    assert_eq!(err.field, "name");
    assert!(matches!(err.fault, BuildFault::MissingPlaceholder(_)));
}

#[test]
fn empty_contains_is_a_build_error() {
    let decls = vec![decl("email", &["contains([])"])];
    let err = valid("User", &decls).unwrap_err();
    assert_eq!(err.field, "email");
    assert!(matches!(err.fault, BuildFault::EmptyContains));

    let decls = vec![decl("email", &["contains()"])];
    let err = valid("User", &decls).unwrap_err();
    assert!(matches!(err.fault, BuildFault::EmptyContains));
}

#[test]
fn contains_with_values_requires_all() {
    let decls = vec![decl("email", &[r#"contains(["@", "."])"#])];
    let plan = valid("User", &decls).unwrap();
    let ok = vec![("email".to_string(), Value::Text("a@b.c".to_string()))];
    assert!(plan.validate(&ok).is_ok());
    // one of the two required values is missing
    let partial = vec![("email".to_string(), Value::Text("a@bc".to_string()))];
    assert!(matches!(plan.validate(&partial), Err(Error::DoNotContains)));
}

#[test]
fn required_on_missing_value() {
    let decls = vec![decl("allow", &["required"])];
    let plan = valid("User", &decls).unwrap();
    let absent = vec![("allow".to_string(), Value::Missing)];
    assert!(matches!(plan.validate(&absent), Err(Error::Required)));

    let decls = vec![decl("allow", &[r#"required(msg = "say yes or no")"#])];
    let plan = valid("User", &decls).unwrap();
    let absent = vec![("allow".to_string(), Value::Missing)];
    match plan.validate(&absent) {
        Err(Error::Custom(m)) => assert_eq!(m, "say yes or no"),
        other => panic!("expected the custom message, got {:?}", other),
    }
}

#[test]
fn unknown_rule_is_a_build_error() {
    let decls = vec![decl("name", &["frobnicate(min = 1)"])];
    let err = valid("User", &decls).unwrap_err();
    assert_eq!(err.field, "name");
    match err.fault {
        BuildFault::UnknownRule(nm) => assert_eq!(nm, "frobnicate"),
        _ => panic!("expected an unknown-rule fault"),
    }
}

#[test]
fn bare_marker_other_than_required_is_refused() {
    let decls = vec![decl("name", &["len"])];
    let err = valid("User", &decls).unwrap_err();
    assert!(matches!(err.fault, BuildFault::UnknownRule(_)));
}

#[test]
fn malformed_entry_is_a_build_error() {
    let decls = vec![decl("name", &["len(min = )"])];
    let err = valid("User", &decls).unwrap_err();
    assert!(matches!(err.fault, BuildFault::MalformedEntry));

    let decls = vec![decl("name", &["= 3"])];
    let err = valid("User", &decls).unwrap_err();
    assert!(matches!(err.fault, BuildFault::MalformedEntry));
}

#[test]
fn template_substitution_is_textual() {
    let filled = apply_template("between {{min}} and {{max}}!", Some(1), Some(16)).unwrap();
    assert_eq!(filled, "between 1 and 16!");
    let filled = apply_template("{{max}}{{max}}", None, Some(120)).unwrap();
    assert_eq!(filled, "120120");
    let missing = apply_template("need {{min}}", None, Some(2)).unwrap_err();
    assert_eq!(missing, "min");
}

#[test]
fn no_op_rules_pass_everything() {
    // a length or range rule with no bound at all never fires
    let decls = vec![decl("name", &["len()", "rng()"])];
    let plan = valid("User", &decls).unwrap();
    let instance = vec![("name".to_string(), Value::Text(String::new()))];
    assert!(plan.validate(&instance).is_ok());
}

#[test]
fn grammar_tolerates_blanks_and_trailing_commas() {
    let decls = vec![decl("name", &["  len( min = 0 , max = 2 , )  "])];
    let plan = valid("User", &decls).unwrap();
    let ok = vec![("name".to_string(), Value::Text("x".to_string()))];
    assert!(plan.validate(&ok).is_ok());

    let decls = vec![decl("email", &[r#"contains(["@",])"#])];
    let plan = valid("User", &decls).unwrap();
    let ok = vec![("email".to_string(), Value::Text("a@b".to_string()))];
    assert!(plan.validate(&ok).is_ok());

    let decls = vec![decl("allow", &["required()"])];
    assert!(valid("User", &decls).is_ok());
}

#[test]
fn field_absent_from_instance_counts_as_missing() {
    let decls = vec![decl("allow", &["required"])];
    let plan = valid("User", &decls).unwrap();
    let unrelated = vec![("other".to_string(), Value::Number(1))];
    assert!(matches!(plan.validate(&unrelated), Err(Error::Required)));
}

fn fault_name(f: &BuildFault) -> &'static str {
    match f {
        BuildFault::MalformedEntry => "malformed",
        BuildFault::UnknownRule(_) => "unknown rule",
        BuildFault::MissingPlaceholder(_) => "missing placeholder",
        BuildFault::EmptyContains => "empty contains",
    }
}
