pub mod ast;
pub mod error;
pub mod lexer;
pub mod option_value;
pub mod parser;
pub mod token;
pub mod value;
pub mod vars;

use vstd::prelude::*;

verus! {

use crate::config::ast::Config;
use crate::config::error::ParserError;
use crate::config::lexer::Lexer;
use crate::config::parser::Parser;
use crate::types::{type_v, type_wf};

/// Lexes and parses a schema source text. On success the declared names
/// are unique, every declared type is well-formed, and the text held both
/// a `settings` and a `vars` keyword; an empty text is refused.
pub fn generate_ast(file_path: String, code: String) -> (r: Result<Config, ParserError>)
    ensures
        match r {
            Result::Ok(c) => (forall|a: int, b: int|
                #![trigger c.vars@[a], c.vars@[b]]
                0 <= a < b < c.vars@.len() ==> c.vars@[a].0@ != c.vars@[b].0@) && (forall|k: int|
                0 <= k < c.vars@.len() ==> type_wf(type_v((#[trigger] c.vars@[k]).1.v_type)))
                && (exists|k: int|
                0 <= k < crate::config::lexer::spec_lex(file_path@, code@).len() && (
                #[trigger] crate::config::lexer::spec_lex(file_path@, code@)[k]).value is Vars)
                && (exists|k: int|
                0 <= k < crate::config::lexer::spec_lex(file_path@, code@).len() && (
                #[trigger] crate::config::lexer::spec_lex(file_path@, code@)[k]).value
                    is Settings),
            Result::Err(_) => true,
        },
        code@.len() == 0 ==> r is Err,
        ({
            let sp = crate::config::parser::spec_parse_config(
                crate::config::lexer::spec_lex(file_path@, code@),
                0,
                Option::None,
                Option::None,
                file_path@,
            );
            match r {
                Result::Ok(c) => sp == Result::<
                    (Option<Seq<char>>, Seq<(Seq<char>, crate::config::ast::VarV)>),
                    crate::config::error::ParserErrorV,
                >::Ok(
                    (
                        match c.settings.envl_file_path {
                            Option::Some(s) => Option::Some(s@),
                            Option::None => Option::None,
                        },
                        crate::config::vars::cvars_v(c.vars@),
                    ),
                ),
                Result::Err(e) => sp == Result::<
                    (Option<Seq<char>>, Seq<(Seq<char>, crate::config::ast::VarV)>),
                    crate::config::error::ParserErrorV,
                >::Err(e@),
            }
        }),
{
    let ghost f = file_path@;
    let ghost code_v = code@;
    let lexer = Lexer::new(file_path.clone(), code);
    let tokens = lexer.generate();
    proof {
        crate::config::lexer::lemma_lex_types_wf(f, code_v);
        assert(forall|k: int|
            0 <= k < tokens@.len() ==> #[trigger] crate::config::lexer::toks_v(tokens@)[k]
                == tokens@[k]@);
        if code_v.len() == 0 {
            assert(crate::config::lexer::spec_lex(f, code_v) =~= Seq::<
                crate::config::token::TokenV,
            >::empty());
            assert(tokens@.len() == 0);
        }
    }
    let parser = Parser::new(file_path, tokens);
    let r = parser.parse();
    proof {
        if r is Ok {
            let kv = choose|k: int|
                0 <= k < parser.tokens@.len() && (#[trigger] parser.tokens@[k]).value is Vars;
            assert(crate::config::lexer::toks_v(parser.tokens@)[kv] == parser.tokens@[kv]@);
            assert(crate::config::lexer::spec_lex(f, code_v)[kv].value is Vars);
            let ks = choose|k: int|
                0 <= k < parser.tokens@.len() && (#[trigger] parser.tokens@[k]).value is Settings;
            assert(crate::config::lexer::toks_v(parser.tokens@)[ks] == parser.tokens@[ks]@);
            assert(crate::config::lexer::spec_lex(f, code_v)[ks].value is Settings);
        }
    }
    r
}

} // verus!
