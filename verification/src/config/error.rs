use vstd::prelude::*;

verus! {

use crate::types::{Position, PositionV};

/// The four diagnostic categories of the pipeline.
#[derive(Debug, Clone, Copy, PartialEq, Eq, Structural)]
pub enum ErrorKind {
    SyntaxError,
    DuplicateVars,
    InvalidType,
    MultipleCharacters,
}

/// A diagnostic template of the schema parser: a stable numeric code, its
/// category, and the human-readable message.
#[derive(Debug)]
pub struct EnvlConfigErrorTemplate {
    pub kind: ErrorKind,
    pub code: u32,
    pub message: String,
}

/// A positioned diagnostic of the schema parser.
#[derive(Debug)]
pub struct ParserError {
    pub code: u32,
    pub kind: ErrorKind,
    pub message: String,
    pub position: Position,
}

/// Mathematical model of a schema-parser diagnostic.
pub ghost struct ParserErrorV {
    pub code: u32,
    pub kind: ErrorKind,
    pub message: Seq<char>,
    pub position: PositionV,
}

impl View for ParserError {
    type V = ParserErrorV;

    open spec fn view(&self) -> ParserErrorV {
        ParserErrorV {
            code: self.code,
            kind: self.kind,
            message: self.message@,
            position: self.position@,
        }
    }
}

/// A model diagnostic from its parts.
pub open spec fn csperr(kind: ErrorKind, code: u32, message: Seq<char>, position: PositionV)
    -> ParserErrorV {
    ParserErrorV { code, kind, message, position }
}

/// Attaches a position to a template.
pub fn template_to_error(template: EnvlConfigErrorTemplate, position: Position) -> (r: ParserError)
    ensures
        r.code == template.code,
        r.kind == template.kind,
        r.message@ == template.message@,
        r.position@ == position@,
{
    ParserError {
        code: template.code,
        kind: template.kind,
        message: template.message,
        position,
    }
}

fn template(kind: ErrorKind, code: u32, message: &str) -> (r: EnvlConfigErrorTemplate)
    ensures
        r.kind == kind && r.code == code && r.message@ == message@,
{
    EnvlConfigErrorTemplate { kind, code, message: message.to_owned() }
}

pub fn invalid_left_curly_position() -> (r: EnvlConfigErrorTemplate)
    ensures
        r.kind == ErrorKind::SyntaxError && r.code == 1 && r.message@ == "Position of the { is invalid"@,
{
    template(ErrorKind::SyntaxError, 1, "Position of the { is invalid")
}

pub fn vars_closed() -> (r: EnvlConfigErrorTemplate)
    ensures
        r.kind == ErrorKind::SyntaxError && r.code == 2 && r.message@ == "Vars is not closed"@,
{
    template(ErrorKind::SyntaxError, 2, "Vars is not closed")
}

pub fn settings_and_vars_required() -> (r: EnvlConfigErrorTemplate)
    ensures
        r.kind == ErrorKind::SyntaxError && r.code == 3 && r.message@ == "Settings and vars is required"@,
{
    template(ErrorKind::SyntaxError, 3, "Settings and vars is required")
}

pub fn must_in_vars_block() -> (r: EnvlConfigErrorTemplate)
    ensures
        r.kind == ErrorKind::SyntaxError && r.code == 4 && r.message@ == "To use this syntax, you must be inside a vars block"@,
{
    template(ErrorKind::SyntaxError, 4, "To use this syntax, you must be inside a vars block")
}

pub fn comma_required() -> (r: EnvlConfigErrorTemplate)
    ensures
        r.kind == ErrorKind::SyntaxError && r.code == 5 && r.message@ == "Comma is required"@,
{
    template(ErrorKind::SyntaxError, 5, "Comma is required")
}

pub fn comma_position() -> (r: EnvlConfigErrorTemplate)
    ensures
        r.kind == ErrorKind::SyntaxError && r.code == 6 && r.message@ == "Comma position is invalid"@,
{
    template(ErrorKind::SyntaxError, 6, "Comma position is invalid")
}

pub fn colon_required() -> (r: EnvlConfigErrorTemplate)
    ensures
        r.kind == ErrorKind::SyntaxError && r.code == 7 && r.message@ == "Colon is required"@,
{
    template(ErrorKind::SyntaxError, 7, "Colon is required")
}

pub fn colon_position() -> (r: EnvlConfigErrorTemplate)
    ensures
        r.kind == ErrorKind::SyntaxError && r.code == 8 && r.message@ == "Colon position is invalid"@,
{
    template(ErrorKind::SyntaxError, 8, "Colon position is invalid")
}

pub fn invalid_syntax_in_vars() -> (r: EnvlConfigErrorTemplate)
    ensures
        r.kind == ErrorKind::SyntaxError && r.code == 9 && r.message@ == "That syntax cannot be used within a vars block"@,
{
    template(ErrorKind::SyntaxError, 9, "That syntax cannot be used within a vars block")
}

pub fn invalid_elements() -> (r: EnvlConfigErrorTemplate)
    ensures
        r.kind == ErrorKind::SyntaxError && r.code == 10 && r.message@ == "There are invalid elements"@,
{
    template(ErrorKind::SyntaxError, 10, "There are invalid elements")
}

pub fn element_name_required() -> (r: EnvlConfigErrorTemplate)
    ensures
        r.kind == ErrorKind::SyntaxError && r.code == 11 && r.message@ == "Element name is required"@,
{
    template(ErrorKind::SyntaxError, 11, "Element name is required")
}

/// The template for a duplicated declaration name; its message carries the
/// name.
pub fn duplicate_error(name: &String) -> (r: EnvlConfigErrorTemplate)
    ensures
        r.kind == ErrorKind::DuplicateVars && r.code == 12,
        r.message@ == name@ + " is duplicated"@,
{
    EnvlConfigErrorTemplate {
        kind: ErrorKind::DuplicateVars,
        code: 12,
        message: name.clone().concat(" is duplicated"),
    }
}

pub fn invalid_syntax_outside() -> (r: EnvlConfigErrorTemplate)
    ensures
        r.kind == ErrorKind::SyntaxError && r.code == 13 && r.message@ == "Can't use this syntax outside of the vars and settings blocks"@,
{
    template(ErrorKind::SyntaxError, 13, "Can't use this syntax outside of the vars and settings blocks")
}

pub fn settings_closed() -> (r: EnvlConfigErrorTemplate)
    ensures
        r.kind == ErrorKind::SyntaxError && r.code == 14 && r.message@ == "Settings is not closed"@,
{
    template(ErrorKind::SyntaxError, 14, "Settings is not closed")
}

pub fn invalid_syntax_in_settings() -> (r: EnvlConfigErrorTemplate)
    ensures
        r.kind == ErrorKind::SyntaxError && r.code == 15 && r.message@ == "That syntax cannot be used within a settings block"@,
{
    template(ErrorKind::SyntaxError, 15, "That syntax cannot be used within a settings block")
}

pub fn invalid_equal() -> (r: EnvlConfigErrorTemplate)
    ensures
        r.kind == ErrorKind::SyntaxError && r.code == 16 && r.message@ == "Invalid equal position"@,
{
    template(ErrorKind::SyntaxError, 16, "Invalid equal position")
}

pub fn equal_required() -> (r: EnvlConfigErrorTemplate)
    ensures
        r.kind == ErrorKind::SyntaxError && r.code == 17 && r.message@ == "Equal is required"@,
{
    template(ErrorKind::SyntaxError, 17, "Equal is required")
}

pub fn invalid_setting() -> (r: EnvlConfigErrorTemplate)
    ensures
        r.kind == ErrorKind::SyntaxError && r.code == 18 && r.message@ == "Invalid setting property"@,
{
    template(ErrorKind::SyntaxError, 18, "Invalid setting property")
}

pub fn invalid_type() -> (r: EnvlConfigErrorTemplate)
    ensures
        r.kind == ErrorKind::InvalidType && r.code == 18 && r.message@ == "Invalid type"@,
{
    template(ErrorKind::InvalidType, 18, "Invalid type")
}

pub fn array_closed() -> (r: EnvlConfigErrorTemplate)
    ensures
        r.kind == ErrorKind::SyntaxError && r.code == 19 && r.message@ == "Array is not closed"@,
{
    template(ErrorKind::SyntaxError, 19, "Array is not closed")
}

pub fn invalid_left_shift_position() -> (r: EnvlConfigErrorTemplate)
    ensures
        r.kind == ErrorKind::SyntaxError && r.code == 20 && r.message@ == "Position of the < is invalid"@,
{
    template(ErrorKind::SyntaxError, 20, "Position of the < is invalid")
}

pub fn struct_closed() -> (r: EnvlConfigErrorTemplate)
    ensures
        r.kind == ErrorKind::SyntaxError && r.code == 21 && r.message@ == "Struct is not closed"@,
{
    template(ErrorKind::SyntaxError, 21, "Struct is not closed")
}

pub fn invalid_syntax() -> (r: EnvlConfigErrorTemplate)
    ensures
        r.kind == ErrorKind::SyntaxError && r.code == 22 && r.message@ == "Invalid syntax"@,
{
    template(ErrorKind::SyntaxError, 22, "Invalid syntax")
}

pub fn option_closed() -> (r: EnvlConfigErrorTemplate)
    ensures
        r.kind == ErrorKind::SyntaxError && r.code == 23 && r.message@ == "Option is not closed"@,
{
    template(ErrorKind::SyntaxError, 23, "Option is not closed")
}

pub fn invalid_left_parentheses() -> (r: EnvlConfigErrorTemplate)
    ensures
        r.kind == ErrorKind::SyntaxError && r.code == 24 && r.message@ == "Position of the ( is invalid"@,
{
    template(ErrorKind::SyntaxError, 24, "Position of the ( is invalid")
}

pub fn multiple_char() -> (r: EnvlConfigErrorTemplate)
    ensures
        r.kind == ErrorKind::MultipleCharacters && r.code == 25 && r.message@ == "Can't input multiple characters in char"@,
{
    template(ErrorKind::MultipleCharacters, 25, "Can't input multiple characters in char")
}

} // verus!
