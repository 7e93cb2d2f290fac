pub mod error;
pub mod lexer;
pub mod parser;
pub mod token;
pub mod variable;

use vstd::prelude::*;

verus! {

use crate::vars::error::ParserError;
use crate::vars::lexer::Lexer;
use crate::vars::parser::{Parser, all_values_wf, count_semis_v, distinct_names,
    lemma_count_semis_view, spec_parse_full, stmts_v};
use crate::vars::variable::{Variable, VariableV};

/// Lexes and parses a values source text into its list of assignments,
/// exactly as `spec_parse_full` over the model lexer's tokens says.
/// On success the assignment names are pairwise distinct, every value has
/// unique struct keys at every nesting level, and there is exactly one
/// assignment per statement terminator the lexer found in the text.
pub fn generate_ast(file_path: String, code: String) -> (r: Result<Vec<Variable>, ParserError>)
    ensures
        match r {
            Result::Ok(vars) => distinct_names(vars@) && all_values_wf(vars@) && vars@.len()
                == count_semis_v(crate::vars::lexer::spec_lex(file_path@, code@)),
            Result::Err(_) => true,
        },
        ({
            let sp = spec_parse_full(crate::vars::lexer::spec_lex(file_path@, code@));
            match r {
                Result::Ok(vars) => sp == Result::<
                    Seq<VariableV>,
                    crate::vars::error::ParserErrorV,
                >::Ok(stmts_v(vars@)),
                Result::Err(e) => sp == Result::<
                    Seq<VariableV>,
                    crate::vars::error::ParserErrorV,
                >::Err(e@),
            }
        }),
{
    let ghost f = file_path@;
    let ghost c = code@;
    let lexer = Lexer::new(file_path, code);
    let tokens = lexer.generate();
    proof {
        lemma_count_semis_view(tokens@);
    }
    let parser = Parser::new(tokens);
    parser.parse()
}

} // verus!
