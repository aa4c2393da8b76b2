use valico::json_schema::errors::{
    ErrorKind, ErrorRecord, RecordView, SchemaError, SchemaErrorView,
};
use valico::json_schema::keywords::{Extended, Keyword, KeywordResult, StandardKeyword};
use valico::json_schema::schema::{Directory, SchemaId, WalkContext, WalkContextView};
use valico::json_schema::scope::Scope;
use valico::json_schema::validators::maxmin::Maximum;
use valico::json_schema::validators::ref_::Ref;
use valico::json_schema::state::ValidationState;
use valico::json_schema::validators::{Constraint, NoCustom, Validator, ValidatorView};
use vstd::seq::Seq;
use valico::number::Number;
use valico::value::{Json, Value};

fn n(x: f64) -> Value {
    Value::Number(Number::from_bits(x.to_bits()).unwrap())
}

fn s(text: &str) -> Value {
    Value::String(text.to_string())
}

fn o(members: Vec<(&str, Value)>) -> Value {
    Value::Object(members.into_iter().map(|(name, value)| (name.to_string(), value)).collect())
}

fn parts(error: SchemaError) -> (String, String) {
    match error {
        SchemaError::Malformed { path, detail } => (path, detail),
    }
}

#[test]
fn self_reference_compiles_and_validation_ends() {
    let mut scope = Scope::new();
    let def = o(vec![("$ref", s("#")), ("maximum", n(10.0))]);
    let schema = scope.compile_and_return(&def, true).ok().unwrap();
    assert!(schema.validate(&n(9.0)).is_valid());
    // The reference back into the schema that is being applied adds nothing.
    assert_eq!(schema.validate(&n(11.0)).errors.len(), 1);
}

#[test]
fn reference_to_a_definition() {
    let mut scope = Scope::new();
    let def = o(vec![
        ("definitions", o(vec![("small", o(vec![("maximum", n(10.0))]))])),
        ("$ref", s("#/definitions/small")),
        ("minimum", n(0.0)),
    ]);
    let schema = scope.compile_and_return(&def, true).ok().unwrap();
    assert_eq!(scope_len_after(&def), 2);
    assert!(schema.validate(&n(5.0)).is_valid());
    let state = schema.validate_in(&n(11.0), "v");
    assert_eq!(state.errors.len(), 1);
    assert_eq!(state.errors[0].kind, ErrorKind::Range);
    assert_eq!(state.errors[0].path, "v");
    assert_eq!(state.errors[0].detail, "Maximum condition is not met");
    let state = schema.validate(&n(-1.0));
    assert_eq!(state.errors.len(), 1);
    assert_eq!(state.errors[0].detail, "Minimum condition is not met");
}

fn scope_len_after(def: &Value) -> usize {
    let mut scope = Scope::new();
    scope.compile_and_return(def, true).ok().unwrap();
    scope.len()
}

#[test]
fn mutual_references_compile_and_validate() {
    let mut scope = Scope::new();
    // `a` refers forward to `b`, which refers back to `a` and to the root.
    let def = o(vec![
        (
            "definitions",
            o(vec![
                ("a", o(vec![("$ref", s("#/definitions/b")), ("maximum", n(10.0))])),
                ("b", o(vec![("$ref", s("#/definitions/a")), ("minimum", n(0.0))])),
            ]),
        ),
        ("$ref", s("#/definitions/a")),
    ]);
    let schema = scope.compile_and_return(&def, true).ok().unwrap();
    assert!(schema.validate(&n(5.0)).is_valid());
    assert_eq!(schema.validate(&n(11.0)).errors.len(), 1);
    assert_eq!(schema.validate(&n(-1.0)).errors.len(), 1);
    assert!(schema.validate(&s("x")).is_valid());
}

#[test]
fn nested_definitions_are_found_by_their_pointer() {
    let mut scope = Scope::new();
    let def = o(vec![
        (
            "definitions",
            o(vec![(
                "outer",
                o(vec![(
                    "definitions",
                    o(vec![("inner", o(vec![("format", s("ipv4"))]))]),
                )]),
            )]),
        ),
        ("$ref", s("#/definitions/outer/definitions/inner")),
    ]);
    let schema = scope.compile_and_return(&def, true).ok().unwrap();
    assert!(schema.validate(&s("1.2.3.4")).is_valid());
    assert!(!schema.validate(&s("1.2.3")).is_valid());
    assert_eq!(scope.len(), 3);
}

#[test]
fn unknown_reference_is_a_compile_error_at_the_schema() {
    let mut scope = Scope::new();
    let (path, detail) =
        parts(scope.compile_and_return(&o(vec![("$ref", s("nowhere"))]), true).err().unwrap());
    assert_eq!(path, "");
    assert_eq!(detail, "The value of $ref names no schema of the scope");

    let def = o(vec![(
        "definitions",
        o(vec![("a", o(vec![("$ref", s("#/definitions/missing"))]))]),
    )]);
    let (path, detail) = parts(scope.compile_and_return(&def, true).err().unwrap());
    assert_eq!(path, "definitions/a");
    assert_eq!(detail, "The value of $ref names no schema of the scope");
    assert_eq!(scope.len(), 0);
}

#[test]
fn reference_must_be_a_string() {
    let mut scope = Scope::new();
    let (_, detail) =
        parts(scope.compile_and_return(&o(vec![("$ref", n(1.0))]), true).err().unwrap());
    assert_eq!(detail, "The value of $ref must be a string");
}

#[test]
fn registered_documents_are_found_by_name() {
    let mut scope = Scope::new();
    let first = o(vec![
        ("definitions", o(vec![("d", o(vec![("minimum", n(3.0))]))])),
        ("maximum", n(10.0)),
    ]);
    assert_eq!(scope.compile_and_register(&first, "http://example.com/first").ok(), Some(0));
    let second = o(vec![("$ref", s("http://example.com/first")), ("minimum", n(0.0))]);
    assert_eq!(scope.compile_and_register(&second, "second").ok(), Some(2));
    let third = o(vec![("$ref", s("http://example.com/first#/definitions/d"))]);
    assert_eq!(scope.compile_and_register(&third, "third").ok(), Some(3));

    let found = scope.resolve("second").unwrap();
    assert_eq!(found.index, 2);
    assert!(found.validate(&n(5.0)).is_valid());
    assert_eq!(found.validate(&n(11.0)).errors.len(), 1);
    assert_eq!(found.validate(&n(-1.0)).errors.len(), 1);

    let found = scope.resolve("third").unwrap();
    assert!(found.validate(&n(3.0)).is_valid());
    assert!(!found.validate(&n(2.0)).is_valid());

    assert_eq!(scope.resolve("http://example.com/first#/definitions/d").unwrap().index, 1);
    assert_eq!(scope.resolve("http://example.com/first#").unwrap().index, 0);
    assert!(scope.resolve("fourth").is_none());
    assert!(scope.resolve("").is_none());
    assert!(scope.resolve("#").is_none());
    assert!(scope.resolve("#/definitions/d").is_none());
    assert!(scope.resolve("second#/definitions/d").is_none());
}

#[test]
fn an_identifier_is_registered_once() {
    let mut scope = Scope::new();
    assert!(scope.compile_and_register(&o(vec![]), "a").is_ok());
    let (path, detail) = parts(scope.compile_and_register(&o(vec![]), "a").err().unwrap());
    assert_eq!(path, "");
    assert_eq!(detail, "The identifier is already registered in the scope");
    assert_eq!(scope.len(), 1);
    assert!(scope.compile_and_register(&o(vec![]), "b").is_ok());
    assert_eq!(scope.len(), 2);
}

#[test]
fn a_root_takes_the_name_of_its_id() {
    let mut scope = Scope::new();
    let def = o(vec![("id", s("named")), ("maximum", n(1.0))]);
    assert_eq!(scope.compile_and_return(&def, true).ok().unwrap().index, 0);
    assert_eq!(scope.resolve("named").unwrap().index, 0);
    // Compiled again as a root, the name is taken.
    assert!(scope.compile_and_return(&def, true).is_err());
    // Compiled as something that is not a root, it takes no name.
    assert_eq!(scope.compile_and_return(&def, false).ok().unwrap().index, 1);
    assert_eq!(scope.resolve("named").unwrap().index, 0);

    let (path, detail) = parts(
        scope.compile_and_return(&o(vec![("id", n(1.0))]), true).err().unwrap(),
    );
    assert_eq!(path, "");
    assert_eq!(detail, "The value of id must be a string");
    assert!(scope.compile_and_return(&o(vec![("id", n(1.0))]), false).is_ok());
}

#[test]
fn a_schema_must_be_an_object() {
    let mut scope = Scope::new();
    for def in [Value::Null, Value::Bool(true), n(1.0), s("x"), Value::Array(vec![])] {
        let (path, detail) = parts(scope.compile_and_return(&def, true).err().unwrap());
        assert_eq!(path, "");
        assert_eq!(detail, "The schema must be an object");
    }
    let def = o(vec![("definitions", Value::Array(vec![]))]);
    let (_, detail) = parts(scope.compile_and_return(&def, true).err().unwrap());
    assert_eq!(detail, "The value of definitions must be an object");
    let def = o(vec![("definitions", o(vec![("a", o(vec![])), ("b", n(1.0))]))]);
    let (path, detail) = parts(scope.compile_and_return(&def, true).err().unwrap());
    assert_eq!(path, "definitions/b");
    assert_eq!(detail, "The schema must be an object");
    assert_eq!(scope.len(), 0);
}

#[test]
fn error_in_a_definition_names_its_place() {
    let mut scope = Scope::new();
    let def = o(vec![(
        "definitions",
        o(vec![("a", o(vec![("definitions", o(vec![("b", o(vec![("maximum", s("x"))]))]))]))]),
    )]);
    let (path, detail) = parts(scope.compile_and_return(&def, true).err().unwrap());
    assert_eq!(path, "definitions/a/definitions/b");
    assert_eq!(detail, "the `minimum/maximum` value must be a number");
}

#[test]
fn compiling_twice_gives_validators_that_agree() {
    let def = o(vec![
        ("definitions", o(vec![("a", o(vec![("format", s("ipv6"))]))])),
        ("$ref", s("#/definitions/a")),
        ("maximum", n(10.0)),
        ("exclusiveMaximum", Value::Bool(true)),
    ]);
    let mut first = Scope::new();
    let mut second = Scope::new();
    let a = first.compile_and_return(&def, true).ok().unwrap();
    let b = second.compile_and_return(&def, true).ok().unwrap();
    for value in [n(9.0), n(10.0), n(11.0), s("::1"), s("nope"), Value::Null, o(vec![])] {
        let x = a.validate(&value);
        let y = b.validate(&value);
        assert_eq!(x.errors.len(), y.errors.len());
        for (p, q) in x.errors.iter().zip(y.errors.iter()) {
            assert_eq!(p.kind, q.kind);
            assert_eq!(p.path, q.path);
            assert_eq!(p.detail, q.detail);
        }
    }
}

#[test]
fn validators_validate_through_the_scope() {
    let mut scope = Scope::new();
    scope.compile_and_register(&o(vec![("maximum", n(10.0))]), "a").ok().unwrap();
    let reference = Validator::Ref(Ref { target: 0 });
    assert!(reference.validate(&n(10.0), "p", &scope).is_valid());
    assert_eq!(reference.validate(&n(11.0), "p", &scope).errors.len(), 1);
    assert!(reference.check(&n(11.0), "p", &scope).is_valid());
    assert!(Ref { target: 7 }.validate(&n(11.0), "p", &scope).is_valid());
    let bound = Validator::Maximum(Maximum {
        number: Number::from_bits(10f64.to_bits()).unwrap(),
        exclusive: true,
    });
    assert_eq!(bound.validate(&n(10.0), "p", &scope).errors.len(), 1);
    assert_eq!(scope.validate_at(0, &n(11.0), "q").errors[0].path, "q");
    assert!(scope.validate_at(5, &n(11.0), "q").is_valid());
}

#[test]
fn a_chain_of_references_reports_in_order() {
    let mut scope = Scope::new();
    let def = o(vec![
        (
            "definitions",
            o(vec![
                ("a", o(vec![("$ref", s("#/definitions/b")), ("maximum", n(2.0))])),
                ("b", o(vec![("$ref", s("#")), ("maximum", n(1.0)), ("format", s("ipv4"))])),
            ]),
        ),
        ("$ref", s("#/definitions/a")),
        ("maximum", n(3.0)),
        ("minimum", n(9.0)),
    ]);
    assert_eq!(scope.compile_and_return(&def, true).ok().unwrap().index, 0);
    assert_eq!(scope.len(), 3);
    // What a reference finds comes where the reference stands: before the
    // bounds of the schema that holds it. The reference of `b` back to the
    // root, which is being applied, adds nothing.
    let state = scope.validate_at(0, &n(5.0), "at");
    let details: Vec<(usize, &str)> =
        state.errors.iter().map(|e| (e.path.len(), e.detail.as_str())).collect();
    assert_eq!(
        details,
        [
            (2, "Maximum condition is not met"),
            (2, "Maximum condition is not met"),
            (2, "Maximum condition is not met"),
            (2, "Minimum condition is not met"),
        ]
    );
    assert_eq!(scope.validate_at(2, &n(1.5), "b").errors.len(), 2);
    assert_eq!(scope.validate_at(1, &n(1.5), "a").errors.len(), 2);
    assert_eq!(scope.validate_at(0, &n(1.5), "r").errors.len(), 2);
}

#[test]
fn a_flag_without_its_bound_fails_whatever_its_value() {
    for flag in ["exclusiveMaximum", "exclusiveMinimum"] {
        for value in [Value::Bool(true), Value::Bool(false), Value::Null, n(1.0), s("x")] {
            let mut scope = Scope::new();
            let (path, detail) =
                parts(scope.compile_and_return(&o(vec![(flag, value)]), true).err().unwrap());
            assert_eq!(path, "");
            assert_eq!(
                detail,
                "`exclusiveMinimum/exclusiveMaximum` can't go without minimum/maximum"
            );
        }
    }
    // The flag of one bound does not go with the other bound.
    let mut scope = Scope::new();
    let def = o(vec![("maximum", n(1.0)), ("exclusiveMinimum", Value::Bool(true))]);
    assert!(scope.compile_and_return(&def, true).is_err());
}

/// A constraint of the caller's own kind: members that an object must have.
#[derive(Debug)]
struct Required {
    names: Vec<String>,
}

impl Constraint for Required {
    fn outcome(&self, _value: Json, _path: Seq<char>) -> Seq<RecordView> {
        unreachable!()
    }

    fn validate(&self, val: &Value, path: &str) -> ValidationState {
        let mut state = ValidationState::new();
        if val.is_object() {
            for name in &self.names {
                if val.find(name).is_none() {
                    state.append(ValidationState::error(ErrorRecord {
                        kind: ErrorKind::Required,
                        path: format!("{}/{}", path, name),
                        detail: "This member is required".to_string(),
                    }));
                }
            }
        }
        state
    }
}

/// The keyword of the caller that compiles it: `required`, a list of names.
struct RequiredKeyword;

impl Keyword<Required> for RequiredKeyword {
    fn compiled(
        &self,
        _def: Json,
        _ctx: WalkContextView,
    ) -> Result<Option<ValidatorView<Required>>, SchemaErrorView> {
        unreachable!()
    }

    fn compile(&self, def: &Value, ctx: &WalkContext) -> KeywordResult<Required> {
        let malformed = || SchemaError::Malformed {
            path: ctx.fragment.join("/"),
            detail: "required must be a list of names".to_string(),
        };
        match def.find("required") {
            None => Ok(None),
            Some(Value::Array(items)) => {
                let mut names = Vec::new();
                for item in items {
                    names.push(item.as_str().ok_or_else(malformed)?.to_string());
                }
                Ok(Some(Validator::Custom(Required { names })))
            }
            Some(_) => Err(malformed()),
        }
    }
}

#[test]
fn a_scope_takes_keywords_and_constraints_of_the_caller() {
    let mut scope = Scope::extensible();
    scope.add_keyword(Extended::Custom(RequiredKeyword));
    let def = o(vec![
        ("definitions", o(vec![("named", o(vec![("required", Value::Array(vec![s("name")]))]))])),
        ("$ref", s("#/definitions/named")),
        ("required", Value::Array(vec![s("id"), s("kind")])),
        ("maximum", n(5.0)),
    ]);
    let schema = scope.compile_and_return(&def, true).ok().unwrap();
    let complete = o(vec![("id", n(1.0)), ("kind", n(2.0)), ("name", n(3.0))]);
    assert!(schema.validate(&complete).is_valid());
    assert!(schema.validate(&n(1.0)).is_valid());
    assert_eq!(schema.validate(&n(6.0)).errors.len(), 1);
    let state = schema.validate_in(&o(vec![("kind", Value::Null)]), "at");
    let found: Vec<(ErrorKind, &str)> =
        state.errors.iter().map(|e| (e.kind, e.path.as_str())).collect();
    assert_eq!(found, [(ErrorKind::Required, "at/name"), (ErrorKind::Required, "at/id")]);

    match &scope.schema_at(0).unwrap().validators[2] {
        Validator::Custom(required) => assert_eq!(required.names, ["id", "kind"]),
        other => panic!("{:?}", other),
    }

    let def = o(vec![("definitions", o(vec![("a", o(vec![("required", n(1.0))]))]))]);
    let (path, detail) = parts(scope.compile_and_return(&def, true).err().unwrap());
    assert_eq!(path, "definitions/a");
    assert_eq!(detail, "required must be a list of names");

    // A scope can also be made of chosen keywords alone.
    let mut scope: Scope<StandardKeyword, NoCustom> =
        Scope::with_keywords(vec![StandardKeyword::Maximum]);
    let def = o(vec![("minimum", Value::Null), ("maximum", n(5.0))]);
    let schema = scope.compile_and_return(&def, true).ok().unwrap();
    assert!(!schema.validate(&n(6.0)).is_valid());
}

#[test]
fn directory_resolves_references() {
    let id = |root: usize, name: Option<&str>, pointer: &str| SchemaId {
        root,
        name: name.map(|x| x.to_string()),
        pointer: pointer.to_string(),
    };
    let directory = Directory {
        ids: vec![
            id(0, Some("a"), ""),
            id(0, None, "/definitions/x"),
            id(2, None, ""),
            id(2, None, "/definitions/x"),
            id(4, Some("b#c"), ""),
        ],
    };
    assert_eq!(directory.resolve(0, "#"), Some(0));
    assert_eq!(directory.resolve(0, ""), Some(0));
    assert_eq!(directory.resolve(2, "#"), Some(2));
    assert_eq!(directory.resolve(0, "#/definitions/x"), Some(1));
    assert_eq!(directory.resolve(2, "#/definitions/x"), Some(3));
    assert_eq!(directory.resolve(2, "a#/definitions/x"), Some(1));
    assert_eq!(directory.resolve(2, "a"), Some(0));
    assert_eq!(directory.resolve(2, "b"), None);
    assert_eq!(directory.resolve(0, "#/definitions/y"), None);
    assert_eq!(directory.resolve(0, "#/definitions/x#"), None);
    assert_eq!(directory.named("a"), Some(0));
    assert_eq!(directory.named("b#c"), Some(4));
    // A reference is cut at its first `#`, so a name that holds one is not reached.
    assert_eq!(directory.resolve(0, "b#c"), None);
    assert_eq!(directory.locate(2, ""), Some(2));
    assert_eq!(directory.locate(3, ""), None);
}

#[test]
fn a_compiled_schema_holds_what_was_declared() {
    let mut scope = Scope::new();
    let def = o(vec![
        ("id", s("x")),
        ("format", s("uuid")),
        ("maximum", n(10.0)),
        ("exclusiveMaximum", Value::Bool(true)),
        ("definitions", o(vec![("a", o(vec![("format", s("ipv4")), ("$ref", s("#"))]))])),
    ]);
    assert_eq!(scope.compile_and_return(&def, true).ok().unwrap().index, 0);

    let schema = scope.schema_at(0).unwrap();
    assert_eq!(schema.id.root, 0);
    assert_eq!(schema.id.name.as_deref(), Some("x"));
    assert_eq!(schema.id.pointer, "");
    assert_eq!(schema.validators.len(), 2);
    match &schema.validators[0] {
        Validator::Maximum(bound) => {
            assert_eq!(bound.number.to_bits(), 10f64.to_bits());
            assert!(bound.exclusive);
        }
        other => panic!("{:?}", other),
    }
    match &schema.validators[1] {
        Validator::Uuid(format) => assert!(format.fragment.is_empty()),
        other => panic!("{:?}", other),
    }

    let schema = scope.schema_at(1).unwrap();
    assert_eq!(schema.id.root, 0);
    assert_eq!(schema.id.name, None);
    assert_eq!(schema.id.pointer, "/definitions/a");
    assert_eq!(schema.validators.len(), 2);
    match &schema.validators[0] {
        Validator::Ref(reference) => assert_eq!(reference.target, 0),
        other => panic!("{:?}", other),
    }
    match &schema.validators[1] {
        Validator::Ipv4(format) => assert_eq!(format.fragment, ["definitions", "a"]),
        other => panic!("{:?}", other),
    }
    assert_eq!(scope.identity_at(1).unwrap().pointer, "/definitions/a");
    assert!(scope.schema_at(2).is_none());
    assert!(scope.identity_at(2).is_none());
}
