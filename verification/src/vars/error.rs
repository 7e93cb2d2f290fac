use vstd::prelude::*;

verus! {

use crate::types::{Position, PositionV};

/// The four diagnostic categories of the pipeline.
#[derive(Debug, Clone, Copy, PartialEq, Eq, Structural)]
pub enum ErrorKind {
    SyntaxError,
    DuplicateVars,
    InvalidType,
    MultipleCharacters,
}

/// A diagnostic template: a stable numeric code, its category, and the
/// human-readable message.
#[derive(Debug)]
pub struct EnvlVarsError {
    pub kind: ErrorKind,
    pub code: u32,
    pub message: String,
}

/// A positioned diagnostic of the values parser.
#[derive(Debug)]
pub struct ParserError {
    pub code: u32,
    pub kind: ErrorKind,
    pub message: String,
    pub position: Position,
}

/// Mathematical model of a values-parser diagnostic.
pub ghost struct ParserErrorV {
    pub code: u32,
    pub kind: ErrorKind,
    pub message: Seq<char>,
    pub position: PositionV,
}

impl View for ParserError {
    type V = ParserErrorV;

    open spec fn view(&self) -> ParserErrorV {
        ParserErrorV {
            code: self.code,
            kind: self.kind,
            message: self.message@,
            position: self.position@,
        }
    }
}

/// A model diagnostic from its parts.
pub open spec fn sperr(kind: ErrorKind, code: u32, message: Seq<char>, position: PositionV)
    -> ParserErrorV {
    ParserErrorV { code, kind, message, position }
}

/// The model diagnostic a leaf-literal classification failure carries:
/// the multiple-characters diagnostic or the invalid-type diagnostic.
pub open spec fn spec_classify_err(code: u32, position: PositionV) -> ParserErrorV {
    if code == 13 {
        sperr(
            ErrorKind::MultipleCharacters,
            13,
            "Can't input multiple characters in char"@,
            position,
        )
    } else {
        sperr(ErrorKind::InvalidType, 6, "Invalid type"@, position)
    }
}

pub fn comma_required() -> (r: EnvlVarsError)
    ensures
        r.kind == ErrorKind::SyntaxError && r.code == 1 && r.message@ == "Comma is required"@,
{
    EnvlVarsError {
        kind: ErrorKind::SyntaxError,
        code: 1,
        message: String::from_str("Comma is required"),
    }
}

pub fn comma_position() -> (r: EnvlVarsError)
    ensures
        r.kind == ErrorKind::SyntaxError && r.code == 2 && r.message@ == "Comma position is invalid"@,
{
    EnvlVarsError {
        kind: ErrorKind::SyntaxError,
        code: 2,
        message: String::from_str("Comma position is invalid"),
    }
}

pub fn colon_required() -> (r: EnvlVarsError)
    ensures
        r.kind == ErrorKind::SyntaxError && r.code == 3 && r.message@ == "Colon is required"@,
{
    EnvlVarsError {
        kind: ErrorKind::SyntaxError,
        code: 3,
        message: String::from_str("Colon is required"),
    }
}

pub fn colon_position() -> (r: EnvlVarsError)
    ensures
        r.kind == ErrorKind::SyntaxError && r.code == 4 && r.message@ == "Colon position is invalid"@,
{
    EnvlVarsError {
        kind: ErrorKind::SyntaxError,
        code: 4,
        message: String::from_str("Colon position is invalid"),
    }
}

pub fn different_order() -> (r: EnvlVarsError)
    ensures
        r.kind == ErrorKind::SyntaxError && r.code == 5 && r.message@ == "The order must be variable name, equal sign, value, and semicolon"@,
{
    EnvlVarsError {
        kind: ErrorKind::SyntaxError,
        code: 5,
        message: String::from_str("The order must be variable name, equal sign, value, and semicolon"),
    }
}

pub fn invalid_type() -> (r: EnvlVarsError)
    ensures
        r.kind == ErrorKind::InvalidType && r.code == 6 && r.message@ == "Invalid type"@,
{
    EnvlVarsError { kind: ErrorKind::InvalidType, code: 6, message: String::from_str("Invalid type") }
}

pub fn struct_closed() -> (r: EnvlVarsError)
    ensures
        r.kind == ErrorKind::SyntaxError && r.code == 7 && r.message@ == "Struct isn't closed"@,
{
    EnvlVarsError {
        kind: ErrorKind::SyntaxError,
        code: 7,
        message: String::from_str("Struct isn't closed"),
    }
}

pub fn array_closed() -> (r: EnvlVarsError)
    ensures
        r.kind == ErrorKind::SyntaxError && r.code == 8 && r.message@ == "Array isn't closed"@,
{
    EnvlVarsError {
        kind: ErrorKind::SyntaxError,
        code: 8,
        message: String::from_str("Array isn't closed"),
    }
}

pub fn array_after_equal() -> (r: EnvlVarsError)
    ensures
        r.kind == ErrorKind::SyntaxError && r.code == 9 && r.message@ == "Write arrays after the equal written"@,
{
    EnvlVarsError {
        kind: ErrorKind::SyntaxError,
        code: 9,
        message: String::from_str("Write arrays after the equal written"),
    }
}

pub fn item_name_not_set() -> (r: EnvlVarsError)
    ensures
        r.kind == ErrorKind::SyntaxError && r.code == 10 && r.message@ == "Item name not set"@,
{
    EnvlVarsError {
        kind: ErrorKind::SyntaxError,
        code: 10,
        message: String::from_str("Item name not set"),
    }
}

pub fn syntax_in_struct() -> (r: EnvlVarsError)
    ensures
        r.kind == ErrorKind::SyntaxError && r.code == 11 && r.message@ == "That syntax can't be used whithin a struct"@,
{
    EnvlVarsError {
        kind: ErrorKind::SyntaxError,
        code: 11,
        message: String::from_str("That syntax can't be used whithin a struct"),
    }
}

pub fn syntax_in_array() -> (r: EnvlVarsError)
    ensures
        r.kind == ErrorKind::SyntaxError && r.code == 12 && r.message@ == "That syntax can't be used whithin a array"@,
{
    EnvlVarsError {
        kind: ErrorKind::SyntaxError,
        code: 12,
        message: String::from_str("That syntax can't be used whithin a array"),
    }
}

pub fn multiple_char() -> (r: EnvlVarsError)
    ensures
        r.kind == ErrorKind::MultipleCharacters && r.code == 13 && r.message@ == "Can't input multiple characters in char"@,
{
    EnvlVarsError {
        kind: ErrorKind::MultipleCharacters,
        code: 13,
        message: String::from_str("Can't input multiple characters in char"),
    }
}

pub fn array_invalid_close() -> (r: EnvlVarsError)
    ensures
        r.kind == ErrorKind::SyntaxError && r.code == 14 && r.message@ == "Use ] only when closing an array"@,
{
    EnvlVarsError {
        kind: ErrorKind::SyntaxError,
        code: 14,
        message: String::from_str("Use ] only when closing an array"),
    }
}

pub fn struct_invalid_close() -> (r: EnvlVarsError)
    ensures
        r.kind == ErrorKind::SyntaxError && r.code == 15 && r.message@ == "Use } only when closing an struct"@,
{
    EnvlVarsError {
        kind: ErrorKind::SyntaxError,
        code: 15,
        message: String::from_str("Use } only when closing an struct"),
    }
}

pub fn struct_after_equal() -> (r: EnvlVarsError)
    ensures
        r.kind == ErrorKind::SyntaxError && r.code == 16 && r.message@ == "Write structs after the equal written"@,
{
    EnvlVarsError {
        kind: ErrorKind::SyntaxError,
        code: 16,
        message: String::from_str("Write structs after the equal written"),
    }
}

/// The template for a duplicated top-level name; its message carries the name.
pub fn duplicate_error(name: &String) -> (r: EnvlVarsError)
    ensures
        r.kind == ErrorKind::DuplicateVars && r.code == 18,
        r.message@ == name@ + " is duplicated"@,
{
    EnvlVarsError {
        kind: ErrorKind::DuplicateVars,
        code: 18,
        message: name.clone().concat(" is duplicated"),
    }
}

pub fn invalid_syntax() -> (r: EnvlVarsError)
    ensures
        r.kind == ErrorKind::SyntaxError && r.code == 19 && r.message@ == "That syntax can't be used"@,
{
    EnvlVarsError {
        kind: ErrorKind::SyntaxError,
        code: 19,
        message: String::from_str("That syntax can't be used"),
    }
}

/// Attaches a position to a template.
pub fn to_parser_error(template: EnvlVarsError, position: Position) -> (r: ParserError)
    ensures
        r.code == template.code,
        r.kind == template.kind,
        r.message@ == template.message@,
        r.position@ == position@,
{
    ParserError {
        code: template.code,
        kind: template.kind,
        message: template.message,
        position,
    }
}

} // verus!
