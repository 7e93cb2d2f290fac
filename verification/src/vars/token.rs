use vstd::prelude::*;

verus! {

use crate::types::{Position, PositionV};

/// One lexical token of the values grammar.
#[derive(Debug, Clone, PartialEq)]
pub enum Value {
    Comment(String),
    Ident(String),
    RightSquareBracket,
    LeftSquareBracket,
    RightCurlyBracket,
    LeftCurlyBracket,
    Struct,
    Comma,
    Colon,
    Equal,
    Semi,
}

/// Mathematical model of a token value.
pub ghost enum TokV {
    Comment(Seq<char>),
    Ident(Seq<char>),
    RightSquareBracket,
    LeftSquareBracket,
    RightCurlyBracket,
    LeftCurlyBracket,
    Struct,
    Comma,
    Colon,
    Equal,
    Semi,
}

impl View for Value {
    type V = TokV;

    open spec fn view(&self) -> TokV {
        match self {
            Value::Comment(s) => TokV::Comment(s@),
            Value::Ident(s) => TokV::Ident(s@),
            Value::RightSquareBracket => TokV::RightSquareBracket,
            Value::LeftSquareBracket => TokV::LeftSquareBracket,
            Value::RightCurlyBracket => TokV::RightCurlyBracket,
            Value::LeftCurlyBracket => TokV::LeftCurlyBracket,
            Value::Struct => TokV::Struct,
            Value::Comma => TokV::Comma,
            Value::Colon => TokV::Colon,
            Value::Equal => TokV::Equal,
            Value::Semi => TokV::Semi,
        }
    }
}

/// A token together with the position of its first character.
#[derive(Debug, Clone)]
pub struct Token {
    pub value: Value,
    pub position: Position,
}

/// Mathematical model of a token.
pub ghost struct TokenV {
    pub value: TokV,
    pub position: PositionV,
}

impl View for Token {
    type V = TokenV;

    open spec fn view(&self) -> TokenV {
        TokenV { value: self.value@, position: self.position@ }
    }
}

impl Value {
    /// An explicit deep copy whose contract says the copy models the original.
    pub fn dup(&self) -> (r: Value)
        ensures
            r@ == self@,
    {
        match self {
            Value::Comment(s) => Value::Comment(s.clone()),
            Value::Ident(s) => Value::Ident(s.clone()),
            Value::RightSquareBracket => Value::RightSquareBracket,
            Value::LeftSquareBracket => Value::LeftSquareBracket,
            Value::RightCurlyBracket => Value::RightCurlyBracket,
            Value::LeftCurlyBracket => Value::LeftCurlyBracket,
            Value::Struct => Value::Struct,
            Value::Comma => Value::Comma,
            Value::Colon => Value::Colon,
            Value::Equal => Value::Equal,
            Value::Semi => Value::Semi,
        }
    }
}

impl Token {
    /// An explicit deep copy whose contract says the copy models the original.
    pub fn dup(&self) -> (r: Token)
        ensures
            r@ == self@,
    {
        Token { value: self.value.dup(), position: self.position.dup() }
    }
}

} // verus!
