use vstd::prelude::*;

verus! {

use crate::types::{Position, PositionV};

/// An internal consistency failure of the unification stage.
#[derive(Debug)]
pub struct EnvlLibError {
    pub message: String,
}

/// Which stage a top-level error came from, carrying that stage's own
/// diagnostic.
#[derive(Debug)]
pub enum ErrorKind {
    Vars(crate::vars::error::ParserError),
    Config(crate::config::error::ParserError),
    Io(String),
    Lib(EnvlLibError),
}

/// The top-level error: a message, the position nearest the fault when one
/// is known, and the failing stage.
#[derive(Debug)]
pub struct EnvlError {
    pub message: String,
    pub position: Option<Position>,
    pub kind: ErrorKind,
}

pub fn convert_envl_vars_error(err: crate::vars::error::ParserError) -> (r: EnvlError)
    ensures
        r.kind is Vars,
        r.message@ == err.message@,
        r.position is Some && r.position->0@ == err.position@,
{
    let message = err.message.clone();
    let position = err.position.dup();
    EnvlError { message, position: Some(position), kind: ErrorKind::Vars(err) }
}

pub fn convert_envl_config_error(err: crate::config::error::ParserError) -> (r: EnvlError)
    ensures
        r.kind is Config,
        r.message@ == err.message@,
        r.position is Some && r.position->0@ == err.position@,
{
    let message = err.message.clone();
    let position = err.position.dup();
    EnvlError { message, position: Some(position), kind: ErrorKind::Config(err) }
}

pub fn convert_envl_lib_error(err: EnvlLibError) -> (r: EnvlError)
    ensures
        r.kind is Lib,
        r.message@ == err.message@,
        r.position is None,
{
    let message = err.message.clone();
    EnvlError { message, position: None, kind: ErrorKind::Lib(err) }
}

} // verus!
