use valico::json_schema::errors::{ErrorKind, SchemaError};
use valico::json_schema::scope::Scope;
use valico::number::Number;
use valico::value::Value;

fn num(x: f64) -> Value {
    Value::Number(Number::from_bits(x.to_bits()).unwrap())
}

fn whole(n: i32) -> Value {
    Value::Number(Number::from_i32(n))
}

fn obj(members: Vec<(&str, Value)>) -> Value {
    Value::Object(members.into_iter().map(|(name, value)| (name.to_string(), value)).collect())
}

fn maximum(number: f64, exclusive: bool) -> Value {
    let mut members = vec![("maximum", num(number))];
    if exclusive {
        members.push(("exclusiveMaximum", Value::Bool(exclusive)));
    }
    obj(members)
}

fn minimum(number: f64, exclusive: bool) -> Value {
    let mut members = vec![("minimum", num(number))];
    if exclusive {
        members.push(("exclusiveMinimum", Value::Bool(exclusive)));
    }
    obj(members)
}

fn malformed(error: SchemaError) -> (String, String) {
    match error {
        SchemaError::Malformed { path, detail } => (path, detail),
    }
}

#[test]
fn validate_maximum() {
    let mut scope = Scope::new();
    let schema = scope.compile_and_return(&maximum(10f64, false), true).ok().unwrap();

    assert_eq!(schema.validate(&whole(9)).is_valid(), true);
    assert_eq!(schema.validate(&whole(10)).is_valid(), true);
    assert_eq!(schema.validate(&whole(11)).is_valid(), false);
}

#[test]
fn validate_exclusive_maximum() {
    let mut scope = Scope::new();
    let schema = scope.compile_and_return(&maximum(10f64, true), true).ok().unwrap();

    assert_eq!(schema.validate(&whole(9)).is_valid(), true);
    assert_eq!(schema.validate(&whole(10)).is_valid(), false);
    assert_eq!(schema.validate(&whole(11)).is_valid(), false);
}

#[test]
fn mailformed_maximum() {
    let mut scope = Scope::new();

    assert!(scope.compile_and_return(&obj(vec![("maximum", Value::Bool(true))]), true).is_err());
}

#[test]
fn mailformed_exclusive_maximum() {
    let mut scope = Scope::new();

    assert!(scope
        .compile_and_return(&obj(vec![("exclusiveMaximum", Value::Bool(true))]), true)
        .is_err());

    assert!(scope
        .compile_and_return(
            &obj(vec![
                ("maximum", whole(10)),
                ("exclusiveMaximum", Value::String("".to_string())),
            ]),
            true
        )
        .is_err());
}

#[test]
fn validate_minumum() {
    let mut scope = Scope::new();
    let schema = scope.compile_and_return(&minimum(10f64, false), true).ok().unwrap();

    assert_eq!(schema.validate(&whole(9)).is_valid(), false);
    assert_eq!(schema.validate(&whole(10)).is_valid(), true);
    assert_eq!(schema.validate(&whole(11)).is_valid(), true);
}

#[test]
fn validate_exclusive_minimum() {
    let mut scope = Scope::new();
    let schema = scope.compile_and_return(&minimum(10f64, true), true).ok().unwrap();

    assert_eq!(schema.validate(&whole(9)).is_valid(), false);
    assert_eq!(schema.validate(&whole(10)).is_valid(), false);
    assert_eq!(schema.validate(&whole(11)).is_valid(), true);
}

#[test]
fn mailformed_minumum() {
    let mut scope = Scope::new();

    assert!(scope.compile_and_return(&obj(vec![("minimum", Value::Bool(true))]), true).is_err());
}

#[test]
fn mailformed_exclusive_minumum() {
    let mut scope = Scope::new();

    assert!(scope
        .compile_and_return(&obj(vec![("exclusiveMinimum", Value::Bool(true))]), true)
        .is_err());

    assert!(scope
        .compile_and_return(
            &obj(vec![
                ("minimum", whole(10)),
                ("exclusiveMinimum", Value::String("".to_string())),
            ]),
            true
        )
        .is_err());
}

#[test]
fn explicit_false_flag_is_inclusive() {
    let mut scope = Scope::new();
    let def = obj(vec![("maximum", num(10.0)), ("exclusiveMaximum", Value::Bool(false))]);
    let schema = scope.compile_and_return(&def, true).ok().unwrap();
    assert!(schema.validate(&num(10.0)).is_valid());
    assert!(!schema.validate(&num(10.5)).is_valid());
}

#[test]
fn bound_violation_is_one_range_record() {
    let mut scope = Scope::new();
    let schema = scope.compile_and_return(&maximum(10.0, false), true).ok().unwrap();
    let state = schema.validate_in(&num(11.0), "a/b");
    assert_eq!(state.errors.len(), 1);
    assert_eq!(state.errors[0].kind, ErrorKind::Range);
    assert_eq!(state.errors[0].path, "a/b");
    assert_eq!(state.errors[0].detail, "Maximum condition is not met");

    let mut scope = Scope::new();
    let schema = scope.compile_and_return(&minimum(10.0, true), true).ok().unwrap();
    let state = schema.validate(&num(10.0));
    assert_eq!(state.errors.len(), 1);
    assert_eq!(state.errors[0].kind, ErrorKind::Range);
    assert_eq!(state.errors[0].path, "");
    assert_eq!(state.errors[0].detail, "Minimum condition is not met");
}

#[test]
fn bounds_pass_what_is_not_a_number() {
    let mut scope = Scope::new();
    let def = obj(vec![("maximum", num(1.0)), ("minimum", num(0.0))]);
    let schema = scope.compile_and_return(&def, true).ok().unwrap();
    assert!(schema.validate(&Value::Null).is_valid());
    assert!(schema.validate(&Value::Bool(true)).is_valid());
    assert!(schema.validate(&Value::String("12".to_string())).is_valid());
    assert!(schema.validate(&Value::Array(vec![num(12.0)])).is_valid());
    assert!(schema.validate(&obj(vec![("maximum", num(12.0))])).is_valid());
}

#[test]
fn both_bounds_report_in_keyword_order() {
    let mut scope = Scope::new();
    // An empty interval: every number violates one bound, 5 violates both.
    let def = obj(vec![("minimum", num(7.0)), ("maximum", num(3.0))]);
    let schema = scope.compile_and_return(&def, true).ok().unwrap();
    let state = schema.validate(&num(5.0));
    assert_eq!(state.errors.len(), 2);
    assert_eq!(state.errors[0].detail, "Maximum condition is not met");
    assert_eq!(state.errors[1].detail, "Minimum condition is not met");
}

#[test]
fn fractions_and_negative_numbers_are_ordered() {
    let mut scope = Scope::new();
    let schema = scope.compile_and_return(&maximum(-0.5, false), true).ok().unwrap();
    assert!(schema.validate(&num(-0.5)).is_valid());
    assert!(schema.validate(&num(-0.75)).is_valid());
    assert!(schema.validate(&num(-1e300)).is_valid());
    assert!(!schema.validate(&num(-0.25)).is_valid());
    assert!(!schema.validate(&num(0.0)).is_valid());
    assert!(!schema.validate(&num(5e-324)).is_valid());

    let mut scope = Scope::new();
    let schema = scope.compile_and_return(&minimum(0.0, true), true).ok().unwrap();
    assert!(!schema.validate(&num(0.0)).is_valid());
    assert!(!schema.validate(&num(-0.0)).is_valid());
    assert!(schema.validate(&num(5e-324)).is_valid());
    assert!(!schema.validate(&num(-5e-324)).is_valid());
}

#[test]
fn pairing_error_comes_first() {
    let mut scope = Scope::new();
    let (path, detail) = malformed(
        scope
            .compile_and_return(&obj(vec![("exclusiveMaximum", Value::Null)]), true)
            .err()
            .unwrap(),
    );
    assert_eq!(path, "");
    assert_eq!(detail, "`exclusiveMinimum/exclusiveMaximum` can't go without minimum/maximum");
}

#[test]
fn bound_kind_is_checked_before_flag_kind() {
    let mut scope = Scope::new();
    let def = obj(vec![
        ("minimum", Value::String("10".to_string())),
        ("exclusiveMinimum", Value::String("not-a-bool".to_string())),
    ]);
    let (_, detail) = malformed(scope.compile_and_return(&def, true).err().unwrap());
    assert_eq!(detail, "the `minimum/maximum` value must be a number");

    let def = obj(vec![
        ("minimum", num(10.0)),
        ("exclusiveMinimum", Value::String("not-a-bool".to_string())),
    ]);
    let (_, detail) = malformed(scope.compile_and_return(&def, true).err().unwrap());
    assert_eq!(detail, "`exclusiveMaximum/exclusiveMaximum` must be boolean");
}

#[test]
fn failed_compilation_leaves_the_scope_as_it_was() {
    let mut scope = Scope::new();
    assert_eq!(scope.len(), 0);
    assert!(scope.compile_and_return(&obj(vec![("maximum", Value::Null)]), true).is_err());
    assert_eq!(scope.len(), 0);
    assert!(scope.compile_and_return(&maximum(1.0, false), true).is_ok());
    assert_eq!(scope.len(), 1);
}

#[test]
fn absent_keywords_give_no_validator() {
    let mut scope = Scope::new();
    let schema = scope.compile_and_return(&obj(vec![]), true).ok().unwrap();
    assert!(schema.validate(&num(1e308)).is_valid());
    assert!(schema.validate(&Value::String("x".to_string())).is_valid());
}
