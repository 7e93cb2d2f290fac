use envl::compile;
use envl::config::error::ErrorKind as ConfigErrorKind;
use envl::config::generate_ast as generate_config_ast;
use envl::types::Value;
use envl::unify::{VarData, VariableHashMap, check_envl_vars, parse_var, unify};
use envl::types::{Position, Type};
use envl::vars::error::ErrorKind as VarsErrorKind;
use envl::vars::generate_ast as generate_vars_ast;
use envl::vars::variable::{VariableValue, VariableWithoutPosition};

fn entry<'a>(env: &'a VariableHashMap, name: &str) -> &'a VarData {
    &env.iter().find(|(n, _)| n == name).expect("entry must exist").1
}

#[test]
fn env_check() {
    let mut schema = String::from("settings {}\nvars {\n");
    schema.push_str("    a: string,\n");
    schema.push_str("    b: int,\n");
    schema.push_str("    c: bool,\n");
    schema.push_str("    d: array<int>,\n");
    schema.push_str("    e: struct { v: struct { a: string; }; x: int; y: bool; z: array<string>; }\n");
    schema.push_str("}\n");
    let mut values = String::from("a = \"123\";\n");
    values.push_str("b = 123;\n");
    values.push_str("c = true;\n");
    values.push_str("d = [123, 456];\n");
    values.push_str("e = { v: { a: \"hello world\" }, x: 111, y: false, z: [\"hello\", \"world\"] };\n");

    let env = compile(
        ".envlconf".to_string(),
        schema,
        ".envl".to_string(),
        values,
    )
    .expect("the pipeline must succeed");

    assert_eq!(entry(&env, "a").value, Value::String("123".to_string()));
    assert_eq!(entry(&env, "b").value, Value::Int(123));
    assert_eq!(entry(&env, "c").value, Value::Bool(true));
    assert_eq!(
        entry(&env, "d").value,
        Value::Array(vec![Value::Int(123), Value::Int(456)])
    );
    let e = &entry(&env, "e").value;
    let expected_v = Value::Struct(vec![("a".to_string(), Value::String("hello world".to_string()))]);
    match e {
        Value::Struct(fields) => {
            let get = |n: &str| &fields.iter().find(|(k, _)| k == n).expect("field").1;
            assert_eq!(get("v"), &expected_v);
            assert_eq!(get("x"), &Value::Int(111));
            assert_eq!(get("y"), &Value::Bool(false));
            assert_eq!(
                get("z"),
                &Value::Array(vec![
                    Value::String("hello".to_string()),
                    Value::String("world".to_string()),
                ])
            );
        },
        other => panic!("e must be a struct, got {:?}", other),
    }
}

#[test]
fn unification_succeeds_on_matching_kinds() {
    let schema = "settings {} vars { a: int, b: bool, c: array<int> }".to_string();
    let values = "a = 123; b = true; c = [1, 2, 3];".to_string();
    let env = compile(".envlconf".to_string(), schema, ".envl".to_string(), values)
        .expect("unification must succeed");
    assert_eq!(env.len(), 3);
    assert_eq!(entry(&env, "a").value, Value::Int(123));
    assert_eq!(entry(&env, "b").value, Value::Bool(true));
    assert_eq!(
        entry(&env, "c").value,
        Value::Array(vec![Value::Int(1), Value::Int(2), Value::Int(3)])
    );
}

#[test]
fn unification_rejects_number_for_string() {
    let schema = "settings {} vars { a: string }".to_string();
    let values = "a = 123;".to_string();
    let r = compile(".envlconf".to_string(), schema, ".envl".to_string(), values);
    assert!(r.is_err());
    match r {
        Err(e) => {
            match &e.kind {
                envl::liberror::ErrorKind::Lib(lib) => {
                    assert_eq!(lib.message, "Invalid type");
                },
                other => panic!("expected a unification error, got {:?}", other),
            }
            // positioned at a's assignment: its ';' on row 1
            let pos = e.position.expect("the diagnostic must carry a position");
            assert_eq!(pos.row, 1);
        },
        Ok(_) => unreachable!(),
    }
}

#[test]
fn values_parser_rejects_duplicate_names() {
    let r = generate_vars_ast(".envl".to_string(), "x = 1; x = 2;".to_string());
    match r {
        Err(e) => {
            assert_eq!(e.kind, VarsErrorKind::DuplicateVars);
            assert!(e.message.contains("x"));
        },
        Ok(_) => panic!("duplicate names must be rejected"),
    }
}

#[test]
fn schema_parser_requires_settings_and_vars() {
    let r = generate_config_ast(".envlconf".to_string(), "settings {}".to_string());
    match r {
        Err(e) => {
            assert_eq!(e.kind, ConfigErrorKind::SyntaxError);
            assert_eq!(e.code, 3);
            assert_eq!(e.message, "Settings and vars is required");
        },
        Ok(_) => panic!("a schema without a vars block must be rejected"),
    }
}

#[test]
fn char_literal_rejects_multiple_characters() {
    let r = generate_vars_ast(".envl".to_string(), "x = 'ab';".to_string());
    match r {
        Err(e) => {
            assert_eq!(e.kind, VarsErrorKind::MultipleCharacters);
            assert_eq!(e.code, 13);
        },
        Ok(_) => panic!("a multi-character char literal must be rejected"),
    }
}

#[test]
fn struct_unification_rejects_unknown_field() {
    let declared = Type::Struct(vec![
        ("a".to_string(), Type::Bool),
        ("b".to_string(), Type::Int),
    ]);
    let assigned = VariableValue::Struct(vec![
        ("a".to_string(), VariableValue::Bool(true)),
        ("c".to_string(), VariableValue::Number("1".to_string())),
    ]);
    let pos = Position { file_path: "t.envl".to_string(), row: 3, col: 7 };
    let r = parse_var(&declared, &assigned, &pos);
    match r {
        Err(e) => assert_eq!(e.position, Some(pos)),
        Ok(_) => panic!("an unknown field must be rejected"),
    }
}

#[test]
fn option_type_resolves_missing_assignment_to_null() {
    let schema = "settings {} vars { a: option<int>, b: option<struct { x: int; }> }".to_string();
    let values = "".to_string();
    let env = compile(".envlconf".to_string(), schema, ".envl".to_string(), values)
        .expect("missing option entries must resolve");
    assert_eq!(entry(&env, "a").value, Value::Null);
    assert_eq!(entry(&env, "b").value, Value::Null);
    assert_eq!(entry(&env, "a").basic_value, None);
}

#[test]
fn missing_non_option_assignment_fails() {
    let schema = "settings {} vars { a: int }".to_string();
    let values = "".to_string();
    let r = compile(".envlconf".to_string(), schema, ".envl".to_string(), values);
    assert!(r.is_err());
}

#[test]
fn settings_block_carries_values_file_path() {
    let schema = "settings { envl_file_path = \"custom.envl\"; } vars {}".to_string();
    let config = generate_config_ast(".envlconf".to_string(), schema).expect("must parse");
    assert_eq!(config.settings.envl_file_path, Some("custom.envl".to_string()));
}

#[test]
fn default_clause_is_validated_and_carried() {
    let schema = "settings {} vars { a: int (default: 123, actions: 456) }".to_string();
    let config = generate_config_ast(".envlconf".to_string(), schema).expect("must parse");
    let var = &config.vars.iter().find(|(n, _)| n == "a").expect("a").1;
    assert_eq!(var.default_value, Value::Int(123));
    assert_eq!(var.actions_value, Value::Int(456));
}

#[test]
fn default_clause_rejects_wrong_kind() {
    let schema = "settings {} vars { a: int (default: \"x\", actions: null) }".to_string();
    let r = generate_config_ast(".envlconf".to_string(), schema);
    match r {
        Err(e) => assert_eq!(e.kind, ConfigErrorKind::InvalidType),
        Ok(_) => panic!("a string default for an int declaration must be rejected"),
    }
}

#[test]
fn schema_parser_rejects_duplicate_declarations() {
    let schema = "settings {} vars { a: int, a: bool }".to_string();
    let r = generate_config_ast(".envlconf".to_string(), schema);
    match r {
        Err(e) => {
            assert_eq!(e.kind, ConfigErrorKind::DuplicateVars);
            assert_eq!(e.message, "a is duplicated");
        },
        Ok(_) => panic!("duplicate declarations must be rejected"),
    }
}

#[test]
fn int_bounds_are_enforced() {
    let schema = "settings {} vars { a: int }".to_string();
    let values = "a = 9223372036854775808;".to_string();
    let r = compile(".envlconf".to_string(), schema, ".envl".to_string(), values);
    assert!(r.is_err());

    let schema2 = "settings {} vars { a: uint }".to_string();
    let values2 = "a = 18446744073709551615;".to_string();
    let env = compile(".envlconf".to_string(), schema2, ".envl".to_string(), values2)
        .expect("the largest uint must fit");
    assert_eq!(entry(&env, "a").value, Value::Uint(18446744073709551615));
}

#[test]
fn check_envl_vars_flags_unbacked_null() {
    let bad: VariableHashMap = vec![(
        "a".to_string(),
        VarData {
            value: Value::Null,
            v_type: Type::Int,
            default_value: Value::Null,
            actions_value: Value::Null,
            basic_value: None,
            position: Position { file_path: "t".to_string(), row: 1, col: 1 },
        },
    )];
    assert!(check_envl_vars(&bad).is_err());

    let good: VariableHashMap = vec![(
        "a".to_string(),
        VarData {
            value: Value::Null,
            v_type: Type::Option(Box::new(Type::Int)),
            default_value: Value::Null,
            actions_value: Value::Null,
            basic_value: None,
            position: Position { file_path: "t".to_string(), row: 1, col: 1 },
        },
    )];
    assert!(check_envl_vars(&good).is_ok());

    // a non-Null default must be generable for the declared type
    let ungenerable: VariableHashMap = vec![(
        "a".to_string(),
        VarData {
            value: Value::Null,
            v_type: Type::Bool,
            default_value: Value::Int(1),
            actions_value: Value::Null,
            basic_value: None,
            position: Position { file_path: "t".to_string(), row: 1, col: 1 },
        },
    )];
    assert!(check_envl_vars(&ungenerable).is_err());

    let backed: VariableHashMap = vec![(
        "a".to_string(),
        VarData {
            value: Value::Null,
            v_type: Type::Int,
            default_value: Value::Int(1),
            actions_value: Value::Null,
            basic_value: None,
            position: Position { file_path: "t".to_string(), row: 1, col: 1 },
        },
    )];
    assert!(check_envl_vars(&backed).is_ok());
}

#[test]
fn unify_keeps_declaration_order() {
    let schema = "settings {} vars { z: int, a: int }".to_string();
    let config = generate_config_ast(".envlconf".to_string(), schema).expect("must parse");
    let vars = generate_vars_ast(".envl".to_string(), "a = 1; z = 2;".to_string()).expect("must parse");
    let env = unify(&config, &vars).expect("must unify");
    assert_eq!(env[0].0, "z");
    assert_eq!(env[1].0, "a");
    assert_eq!(env[0].1.value, Value::Int(2));
    assert_eq!(env[1].1.value, Value::Int(1));
}

#[test]
fn float_literals_keep_their_text() {
    let schema = "settings {} vars { a: float }".to_string();
    let values = "a = 1.5;".to_string();
    let env = compile(".envlconf".to_string(), schema, ".envl".to_string(), values)
        .expect("a float literal must unify");
    assert_eq!(entry(&env, "a").value, Value::Float("1.5".to_string()));
}

#[test]
fn negative_int_literals_unify() {
    let schema = "settings {} vars { a: int }".to_string();
    let values = "a = -42;".to_string();
    let env = compile(".envlconf".to_string(), schema, ".envl".to_string(), values)
        .expect("a negative int literal must unify");
    assert_eq!(entry(&env, "a").value, Value::Int(-42));
}

#[test]
fn default_clause_accepts_arrays_and_structs() {
    let mut schema = String::from("settings {} vars {\n");
    schema.push_str("    a: array<int> (default: [1, 2], actions: null),\n");
    schema.push_str("    b: struct { x: int; } (default: { x: 5; }, actions: null)\n");
    schema.push_str("}\n");
    let config = generate_config_ast(".envlconf".to_string(), schema).expect("must parse");
    let a = &config.vars.iter().find(|(n, _)| n == "a").expect("a").1;
    assert_eq!(a.default_value, Value::Array(vec![Value::Int(1), Value::Int(2)]));
    let b = &config.vars.iter().find(|(n, _)| n == "b").expect("b").1;
    assert_eq!(b.default_value, Value::Struct(vec![("x".to_string(), Value::Int(5))]));
}

#[test]
fn nested_option_types_unify_elementwise() {
    let schema = "settings {} vars { a: array<option<int>> }".to_string();
    let values = "a = [1, 2];".to_string();
    let env = compile(".envlconf".to_string(), schema, ".envl".to_string(), values)
        .expect("must unify");
    assert_eq!(entry(&env, "a").value, Value::Array(vec![Value::Int(1), Value::Int(2)]));
}

#[test]
fn uint_rejects_signed_literals() {
    let schema = "settings {} vars { a: uint }".to_string();
    let values = "a = -1;".to_string();
    let r = compile(".envlconf".to_string(), schema, ".envl".to_string(), values);
    assert!(r.is_err());
}

#[test]
fn assignments_compare_without_positions() {
    let assigns = generate_vars_ast(".envl".to_string(), "x = 1;\n\n\nx2 = 1;".to_string())
        .expect("must parse");
    let stripped: Vec<VariableWithoutPosition> = assigns
        .into_iter()
        .map(|v| VariableWithoutPosition { name: v.name, value: v.value })
        .collect();
    assert_eq!(
        stripped,
        vec![
            VariableWithoutPosition {
                name: "x".to_string(),
                value: VariableValue::Number("1".to_string()),
            },
            VariableWithoutPosition {
                name: "x2".to_string(),
                value: VariableValue::Number("1".to_string()),
            },
        ]
    );
}

#[test]
fn float_exponent_literals_unify() {
    let schema = "settings {} vars { a: float, b: float, c: float }".to_string();
    let values = "a = 1e5; b = -1E-3; c = 2.5e10;".to_string();
    let env = compile(".envlconf".to_string(), schema, ".envl".to_string(), values)
        .expect("exponent float literals must unify");
    assert_eq!(entry(&env, "a").value, Value::Float("1e5".to_string()));
    assert_eq!(entry(&env, "b").value, Value::Float("-1E-3".to_string()));
    assert_eq!(entry(&env, "c").value, Value::Float("2.5e10".to_string()));
}

#[test]
fn float_word_forms_are_rejected() {
    let schema = "settings {} vars { a: float }".to_string();
    let values = "a = inf;".to_string();
    let r = compile(".envlconf".to_string(), schema, ".envl".to_string(), values);
    assert!(r.is_err());
}
