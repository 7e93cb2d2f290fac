use envl::compile;
use envl::config::generate_ast as generate_config_ast;
use envl::generator::{gen_value, generate_file, generate_rust_file, struct_derive, value_literal};
use envl::typefile::gen_rust_typefile;
use envl::types::{Type, Value};
use envl::vars::generate_ast as generate_vars_ast;
use envl::unify::parse_var;

#[test]
fn leaf_literals_render_exactly() {
    assert_eq!(value_literal(&Value::Int(-5)), "-5");
    assert_eq!(value_literal(&Value::Int(123)), "123");
    assert_eq!(value_literal(&Value::Uint(0)), "0");
    assert_eq!(value_literal(&Value::Bool(true)), "true");
    assert_eq!(value_literal(&Value::Char('a')), "'a'");
    assert_eq!(value_literal(&Value::String("hi".to_string())), "\"hi\"");
    assert_eq!(value_literal(&Value::Float("1.5".to_string())), "1.5");
}

#[test]
fn value_expressions_render_exactly() {
    let name = "a".to_string();
    let r = gen_value(
        &name,
        &Type::Array(Box::new(Type::Int)),
        &Value::Array(vec![Value::Int(1), Value::Int(2)]),
    )
    .expect("must render");
    assert_eq!(r, "vec![1, 2]");

    let r = gen_value(&name, &Type::Option(Box::new(Type::Int)), &Value::Int(7)).expect("must render");
    assert_eq!(r, "Some(7)");

    let r = gen_value(&name, &Type::Option(Box::new(Type::Int)), &Value::Null).expect("must render");
    assert_eq!(r, "None");

    let r = gen_value(
        &name,
        &Type::Struct(vec![("x".to_string(), Type::Int), ("y".to_string(), Type::Bool)]),
        &Value::Struct(vec![
            ("x".to_string(), Value::Int(1)),
            ("y".to_string(), Value::Bool(false)),
        ]),
    )
    .expect("must render");
    assert_eq!(r, "Structa { x: 1, y: false }");

    assert!(gen_value(&name, &Type::Int, &Value::Bool(true)).is_err());
}

#[test]
fn generated_file_has_env_and_constructor() {
    let schema = "settings {} vars { a: int, b: string }".to_string();
    let values = "a = 5; b = \"hey\";".to_string();
    let env = compile(".envlconf".to_string(), schema, ".envl".to_string(), values)
        .expect("must compile");
    let text = generate_rust_file(&env).expect("must render");
    let expected = "#[derive(Debug, Clone, PartialEq)]\npub struct Env {\n    pub a: i64,\n    pub b: String,\n}\n\npub fn envl() -> Env {\n    Env {\n        a: 5,\n        b: String::from(\"hey\"),\n    }\n}\n";
    assert_eq!(text, expected);
}

#[test]
fn generated_file_emits_nested_struct_records() {
    let schema = "settings {} vars { e: struct { x: int; v: struct { a: string; }; } }".to_string();
    let values = "e = { x: 1, v: { a: \"z\" } };".to_string();
    let env = compile(".envlconf".to_string(), schema, ".envl".to_string(), values)
        .expect("must compile");
    let text = generate_rust_file(&env).expect("must render");
    assert!(text.contains("pub struct Structe {"));
    assert!(text.contains("pub struct StructStructev {"));
    assert!(text.contains("pub x: i64,"));
    assert!(text.contains("pub v: StructStructev,"));
    assert!(text.contains("e: Structe { x: 1, v: StructStructev { a: String::from(\"z\") } }"));
}

#[test]
fn generate_file_rejects_unknown_extension() {
    let env = compile(
        ".envlconf".to_string(),
        "settings {} vars {}".to_string(),
        ".envl".to_string(),
        "".to_string(),
    )
    .expect("must compile");
    assert!(generate_file(&env, &"out.rs".to_string()).is_ok());
    let r = generate_file(&env, &"out.txt".to_string());
    match r {
        Err(e) => assert_eq!(e.message, "Unsupported file"),
        Ok(_) => panic!("a non-Rust output must be rejected"),
    }
}

#[test]
fn typefile_marks_defaulted_fields_optional() {
    let schema = "settings {} vars { a: int (default: 1, actions: null), b: bool }".to_string();
    let config = generate_config_ast(".envlconf".to_string(), schema).expect("must parse");
    let text = gen_rust_typefile(&config).expect("must render");
    let expected = "pub struct Env {\n    pub a: Option<i64>,\n    pub b: bool,\n}\n";
    assert_eq!(text, expected);
}

#[test]
fn derive_line_is_fixed() {
    assert_eq!(struct_derive(), "#[derive(Debug, Clone, PartialEq)]");
}

#[test]
fn default_value_feeds_the_constructor() {
    let schema = "settings {} vars { a: option<int> (default: 9, actions: null) }".to_string();
    let config = generate_config_ast(".envlconf".to_string(), schema).expect("must parse");
    let vars = generate_vars_ast(".envl".to_string(), "".to_string()).expect("must parse");
    let env = envl::unify::unify(&config, &vars).expect("must unify");
    let expr = envl::generator::parse_var(&"a".to_string(), &env[0].1).expect("must render");
    assert_eq!(expr, "Some(9)");
}

#[test]
fn leaf_round_trip_through_values_source() {
    // render leaf values as literals, re-parse them as a values source,
    // and unify against the originating types
    let lits = vec![
        value_literal(&Value::Int(-7)),
        value_literal(&Value::Uint(8)),
        value_literal(&Value::Bool(true)),
        value_literal(&Value::String("ok".to_string())),
        value_literal(&Value::Char('q')),
        value_literal(&Value::Float("2.25".to_string())),
    ];
    let source = format!(
        "a = {}; b = {}; c = {}; d = {}; e = {}; f = {};",
        lits[0], lits[1], lits[2], lits[3], lits[4], lits[5]
    );
    let assigns = generate_vars_ast(".envl".to_string(), source).expect("must parse");
    let types = vec![Type::Int, Type::Uint, Type::Bool, Type::String, Type::Char, Type::Float];
    let back: Vec<Value> = assigns
        .iter()
        .zip(types.iter())
        .map(|(a, t)| parse_var(t, &a.value, &a.position).expect("must unify"))
        .collect();
    assert_eq!(
        back,
        vec![
            Value::Int(-7),
            Value::Uint(8),
            Value::Bool(true),
            Value::String("ok".to_string()),
            Value::Char('q'),
            Value::Float("2.25".to_string()),
        ]
    );
}
