use envl::vars::lexer::Lexer;
use envl::vars::token::Value;

fn generate_tokens(code: &str) -> Vec<Value> {
    let lex = Lexer::new("test.envl".to_string(), code.to_string());
    lex.generate().into_iter().map(|t| t.value).collect::<Vec<_>>()
}

#[test]
fn escape_sequences_map_to_control_characters() {
    let tokens = generate_tokens("x = \"a\\nb\\tc\\\\d\\\"e\";");
    let expect_arr = vec![
        Value::Ident("x".to_string()),
        Value::Equal,
        Value::Ident("\"a\nb\tc\\d\"e\"".to_string()),
        Value::Semi,
    ];
    assert_eq!(tokens, expect_arr);
}

#[test]
fn newline_flushes_a_pending_identifier() {
    let tokens = generate_tokens("abc\ndef =");
    let expect_arr = vec![
        Value::Ident("abc".to_string()),
        Value::Ident("def".to_string()),
        Value::Equal,
    ];
    assert_eq!(tokens, expect_arr);
}

#[test]
fn structural_characters_inside_quotes_are_content() {
    let tokens = generate_tokens("x = \"a, b; c = [d]\";");
    let expect_arr = vec![
        Value::Ident("x".to_string()),
        Value::Equal,
        Value::Ident("\"a, b; c = [d]\"".to_string()),
        Value::Semi,
    ];
    assert_eq!(tokens, expect_arr);
}

#[test]
fn token_positions_are_one_indexed_start_positions() {
    let lex = Lexer::new("t.envl".to_string(), "ab = 1;\ncd = 2;".to_string());
    let tokens = lex.generate();
    assert_eq!(tokens[0].position.row, 1);
    assert_eq!(tokens[0].position.col, 1);
    assert_eq!(tokens[1].position.row, 1);
    assert_eq!(tokens[1].position.col, 4);
    assert_eq!(tokens[4].position.row, 2);
    assert_eq!(tokens[4].position.col, 1);
}

#[test]
fn comment_token_is_kept_out_of_the_parse() {
    let assigns = envl::vars::generate_ast(
        ".envl".to_string(),
        "x = 1; // trailing note".to_string(),
    )
    .expect("comments must not disturb parsing");
    assert_eq!(assigns.len(), 1);
    assert_eq!(assigns[0].name, "x");
}
