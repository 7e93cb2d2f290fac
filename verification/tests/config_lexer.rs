use envl::config::lexer::Lexer;
use envl::config::token::Value;
use envl::types::Type;

fn generate_tokens(code: String) -> Vec<Value> {
    let lex = Lexer::new("test.envl".to_string(), code);
    lex.generate().into_iter().map(|t| t.value).collect::<Vec<_>>()
}

#[test]
fn test_default_file_test() {
    let tokens = generate_tokens("settings {} vars {}".to_string());
    assert_eq!(
        tokens,
        vec![
            Value::Settings,
            Value::LeftCurlyBracket,
            Value::RightCurlyBracket,
            Value::Vars,
            Value::LeftCurlyBracket,
            Value::RightCurlyBracket,
        ]
    );
}

#[test]
fn test_settings_test() {
    let tokens = generate_tokens(
        "settings {\n    envl_file_path = \"test.envl\";\n}\n\nvars {}\n".to_string(),
    );
    assert_eq!(
        tokens,
        vec![
            Value::Settings,
            Value::LeftCurlyBracket,
            Value::Ident(String::from("envl_file_path")),
            Value::Equal,
            Value::Ident(String::from("\"test.envl\"")),
            Value::Semi,
            Value::RightCurlyBracket,
            Value::Vars,
            Value::LeftCurlyBracket,
            Value::RightCurlyBracket,
        ]
    );
}

fn vars_test_expected() -> Vec<Value> {
    vec![
        Value::Settings,
        Value::LeftCurlyBracket,
        Value::RightCurlyBracket,
        Value::Vars,
        Value::LeftCurlyBracket,
        Value::Ident("a".to_string()),
        Value::Colon,
        Value::Type(Type::String),
        Value::Comma,
        Value::Ident("b".to_string()),
        Value::Colon,
        Value::Type(Type::Char),
        Value::Comma,
        Value::Ident("c".to_string()),
        Value::Colon,
        Value::Type(Type::Float),
        Value::Comma,
        Value::Ident("d".to_string()),
        Value::Colon,
        Value::Type(Type::Int),
        Value::Comma,
        Value::Ident("e".to_string()),
        Value::Colon,
        Value::Type(Type::Uint),
        Value::Comma,
        Value::Ident("f".to_string()),
        Value::Colon,
        Value::Type(Type::Bool),
        Value::Comma,
        Value::Ident("g".to_string()),
        Value::Colon,
        Value::Array,
        Value::LeftShift,
        Value::Type(Type::Int),
        Value::RightShift,
        Value::Comma,
        Value::Ident("h".to_string()),
        Value::Colon,
        Value::Struct,
        Value::LeftCurlyBracket,
        Value::Ident("a".to_string()),
        Value::Colon,
        Value::Type(Type::Bool),
        Value::Semi,
        Value::Ident("b".to_string()),
        Value::Colon,
        Value::Type(Type::Int),
        Value::Semi,
        Value::RightCurlyBracket,
        Value::Comma,
        Value::Ident("i".to_string()),
        Value::Colon,
        Value::Null,
        Value::RightCurlyBracket,
    ]
}

fn vars_test_source() -> String {
    let mut code = String::from("settings {} vars {\n");
    code.push_str("    a: string,\n");
    code.push_str("    b: char,\n");
    code.push_str("    c: float,\n");
    code.push_str("    d: int,\n");
    code.push_str("    e: uint,\n");
    code.push_str("    f: bool,\n");
    code.push_str("    g: array<int>,\n");
    code.push_str("    h: struct { a: bool; b: int; },\n");
    code.push_str("    i: null\n");
    code.push_str("}\n");
    code
}

#[test]
fn test_vars_test() {
    let tokens = generate_tokens(vars_test_source());
    assert_eq!(tokens, vars_test_expected());
}

#[test]
fn lexer_default_file_test() {
    let tokens = generate_tokens("settings {} vars {}".to_string());
    assert_eq!(
        tokens,
        vec![
            Value::Settings,
            Value::LeftCurlyBracket,
            Value::RightCurlyBracket,
            Value::Vars,
            Value::LeftCurlyBracket,
            Value::RightCurlyBracket,
        ]
    );
}

#[test]
fn lexer_settings_test() {
    let tokens = generate_tokens(
        "settings {\n    envl_file_path = \"test.envl\";\n}\n\nvars {}\n".to_string(),
    );
    assert_eq!(
        tokens,
        vec![
            Value::Settings,
            Value::LeftCurlyBracket,
            Value::Ident(String::from("envl_file_path")),
            Value::Equal,
            Value::Ident(String::from("\"test.envl\"")),
            Value::Semi,
            Value::RightCurlyBracket,
            Value::Vars,
            Value::LeftCurlyBracket,
            Value::RightCurlyBracket,
        ]
    );
}

#[test]
fn lexer_vars_test() {
    let tokens = generate_tokens(vars_test_source());
    assert_eq!(tokens, vars_test_expected());
}

#[test]
fn option_value_test() {
    let mut code = String::from("settings {} vars {\n");
    code.push_str("    a: int (default: 123, actions: 456),\n");
    code.push_str("    b: bool (default: false, actions: true),\n");
    code.push_str("    c: string (default: null, actions: null)\n");
    code.push_str("}\n");
    let tokens = generate_tokens(code);
    assert_eq!(
        tokens,
        vec![
            Value::Settings,
            Value::LeftCurlyBracket,
            Value::RightCurlyBracket,
            Value::Vars,
            Value::LeftCurlyBracket,
            Value::Ident("a".to_string()),
            Value::Colon,
            Value::Type(Type::Int),
            Value::LeftParentheses,
            Value::Ident("default".to_string()),
            Value::Colon,
            Value::Ident("123".to_string()),
            Value::Comma,
            Value::Ident("actions".to_string()),
            Value::Colon,
            Value::Ident("456".to_string()),
            Value::RightParentheses,
            Value::Comma,
            Value::Ident("b".to_string()),
            Value::Colon,
            Value::Type(Type::Bool),
            Value::LeftParentheses,
            Value::Ident("default".to_string()),
            Value::Colon,
            Value::Ident("false".to_string()),
            Value::Comma,
            Value::Ident("actions".to_string()),
            Value::Colon,
            Value::Ident("true".to_string()),
            Value::RightParentheses,
            Value::Comma,
            Value::Ident("c".to_string()),
            Value::Colon,
            Value::Type(Type::String),
            Value::LeftParentheses,
            Value::Ident("default".to_string()),
            Value::Colon,
            Value::Null,
            Value::Comma,
            Value::Ident("actions".to_string()),
            Value::Colon,
            Value::Null,
            Value::RightParentheses,
            Value::RightCurlyBracket,
        ]
    );
}
