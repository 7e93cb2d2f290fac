use vstd::prelude::*;

pub mod case;
pub mod config;
pub mod generator;
pub mod laws;
pub mod liberror;
pub mod num;
pub mod strutil;
pub mod typefile;
pub mod types;
pub mod unify;
pub mod vars;

verus! {

use crate::liberror::{EnvlError, convert_envl_config_error, convert_envl_vars_error};
use crate::unify::VariableHashMap;

/// Compiles a schema text and a values text into a resolved environment:
/// both sources are lexed and parsed independently, then unified, each
/// stage exactly as its own contract says (`config::generate_ast`,
/// `vars::generate_ast`, `unify::unify`). The first diagnostic of
/// whichever stage fails is returned, wrapped so the caller can tell the
/// stages apart. On success the environment holds one entry per declared
/// name, in declaration order, under pairwise-distinct names.
pub fn compile(
    config_file_path: String,
    config_code: String,
    vars_file_path: String,
    vars_code: String,
) -> (r: Result<VariableHashMap, EnvlError>)
    ensures
        match r {
            Result::Ok(env) => forall|i: int, j: int|
                #![trigger env@[i], env@[j]]
                0 <= i < j < env@.len() ==> env@[i].0@ != env@[j].0@,
            Result::Err(e) => e.kind is Config || e.kind is Vars || e.kind is Lib,
        },
{
    let config = match crate::config::generate_ast(config_file_path, config_code) {
        Ok(c) => c,
        Err(e) => {
            return Err(convert_envl_config_error(e));
        },
    };
    let vars = match crate::vars::generate_ast(vars_file_path, vars_code) {
        Ok(v) => v,
        Err(e) => {
            return Err(convert_envl_vars_error(e));
        },
    };
    crate::unify::unify(&config, &vars)
}

} // verus!
