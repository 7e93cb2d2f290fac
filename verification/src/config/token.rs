use vstd::prelude::*;

verus! {

use crate::types::{Position, PositionV, Type, TypeV, type_v};

/// One lexical token of the schema grammar. Keywords, primitive type
/// names and the bracket pairs each have their own kind.
#[derive(Debug, PartialEq)]
pub enum Value {
    Comment(String),
    Ident(String),
    Type(Type),
    RightSquareBracket,
    LeftSquareBracket,
    RightCurlyBracket,
    LeftCurlyBracket,
    RightParentheses,
    LeftParentheses,
    RightShift,
    LeftShift,
    Settings,
    Struct,
    Array,
    Option,
    Comma,
    Colon,
    Equal,
    Null,
    Vars,
    Semi,
}

/// Mathematical model of a schema token value.
pub ghost enum CTokV {
    Comment(Seq<char>),
    Ident(Seq<char>),
    Type(TypeV),
    RightSquareBracket,
    LeftSquareBracket,
    RightCurlyBracket,
    LeftCurlyBracket,
    RightParentheses,
    LeftParentheses,
    RightShift,
    LeftShift,
    Settings,
    Struct,
    Array,
    Option,
    Comma,
    Colon,
    Equal,
    Null,
    Vars,
    Semi,
}

impl View for Value {
    type V = CTokV;

    open spec fn view(&self) -> CTokV {
        match self {
            Value::Comment(s) => CTokV::Comment(s@),
            Value::Ident(s) => CTokV::Ident(s@),
            Value::Type(t) => CTokV::Type(type_v(*t)),
            Value::RightSquareBracket => CTokV::RightSquareBracket,
            Value::LeftSquareBracket => CTokV::LeftSquareBracket,
            Value::RightCurlyBracket => CTokV::RightCurlyBracket,
            Value::LeftCurlyBracket => CTokV::LeftCurlyBracket,
            Value::RightParentheses => CTokV::RightParentheses,
            Value::LeftParentheses => CTokV::LeftParentheses,
            Value::RightShift => CTokV::RightShift,
            Value::LeftShift => CTokV::LeftShift,
            Value::Settings => CTokV::Settings,
            Value::Struct => CTokV::Struct,
            Value::Array => CTokV::Array,
            Value::Option => CTokV::Option,
            Value::Comma => CTokV::Comma,
            Value::Colon => CTokV::Colon,
            Value::Equal => CTokV::Equal,
            Value::Null => CTokV::Null,
            Value::Vars => CTokV::Vars,
            Value::Semi => CTokV::Semi,
        }
    }
}

/// A schema token together with the position of its first character.
#[derive(Debug, PartialEq)]
pub struct Token {
    pub value: Value,
    pub position: Position,
}

/// Mathematical model of a schema token.
pub ghost struct TokenV {
    pub value: CTokV,
    pub position: PositionV,
}

impl View for Token {
    type V = TokenV;

    open spec fn view(&self) -> TokenV {
        TokenV { value: self.value@, position: self.position@ }
    }
}

/// Every type-keyword token carries a well-formed type. The lexer only
/// ever emits primitive type payloads, so its output always satisfies
/// this.
pub open spec fn toks_types_wf(tv: Seq<TokenV>) -> bool {
    forall|k: int|
        0 <= k < tv.len() ==> ((#[trigger] tv[k]).value is Type ==> crate::types::type_wf(
            tv[k].value->Type_0,
        ))
}

} // verus!
