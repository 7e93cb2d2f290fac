use vstd::prelude::*;

verus! {

use crate::num::{is_float_literal, parse_i64, parse_u64, spec_is_float, spec_parse_i64,
    spec_parse_u64};
use crate::config::error::{EnvlConfigErrorTemplate, ErrorKind, invalid_type, multiple_char};
use crate::types::{Type, TypeV, Value, ValueV, type_v, value_v};

/// Coercion of one literal text against a declared leaf type: `Null`
/// accepts anything as `Null`; `String`/`Char` require a matching quoted
/// pair (`Char` exactly one character inside, else the multiple-characters
/// diagnostic, code 25); `Float`/`Int`/`Uint` require the matching numeric
/// shape; `Bool` requires `true` or `false`; array, struct and option
/// types have no leaf literal. The error side is the diagnostic code.
pub open spec fn spec_cfg_leaf(t: TypeV, s: Seq<char>) -> Result<ValueV, u32> {
    match t {
        TypeV::Null => Result::Ok(ValueV::Null),
        TypeV::Str => if s.len() >= 2 && s[0] == '"' && s[s.len() - 1] == '"' {
            Result::Ok(ValueV::Str(s.subrange(1, s.len() - 1)))
        } else {
            Result::Err(18u32)
        },
        TypeV::Chr => if s.len() >= 2 && s[0] == '\'' && s[s.len() - 1] == '\'' {
            if s.len() == 3 {
                Result::Ok(ValueV::Chr(s[1]))
            } else {
                Result::Err(25u32)
            }
        } else {
            Result::Err(18u32)
        },
        TypeV::Flt => if spec_is_float(s) {
            Result::Ok(ValueV::Flt(s))
        } else {
            Result::Err(18u32)
        },
        TypeV::Int => match spec_parse_i64(s) {
            Option::Some(i) => Result::Ok(ValueV::Int(i)),
            Option::None => Result::Err(18u32),
        },
        TypeV::Uint => match spec_parse_u64(s) {
            Option::Some(u) => Result::Ok(ValueV::Uint(u)),
            Option::None => Result::Err(18u32),
        },
        TypeV::Bool => if s == "true"@ {
            Result::Ok(ValueV::Bool(true))
        } else if s == "false"@ {
            Result::Ok(ValueV::Bool(false))
        } else {
            Result::Err(18u32)
        },
        _ => Result::Err(18u32),
    }
}

/// Coerces one literal text against a declared type, exactly as
/// `spec_cfg_leaf` says.
pub fn parse_value(t: &Type, ident: &String) -> (r: Result<Value, EnvlConfigErrorTemplate>)
    ensures
        match r {
            Result::Ok(v) => spec_cfg_leaf(type_v(*t), ident@) == Result::<ValueV, u32>::Ok(
                value_v(v),
            ),
            Result::Err(e) => spec_cfg_leaf(type_v(*t), ident@) == Result::<ValueV, u32>::Err(
                e.code,
            ) && (e.code == 25 ==> e.kind == ErrorKind::MultipleCharacters && e.message@
                == "Can't input multiple characters in char"@) && (e.code == 18 ==> e.kind
                == ErrorKind::InvalidType && e.message@ == "Invalid type"@),
        },
{
    let s = ident.as_str();
    let n = s.unicode_len();
    match t {
        Type::Null => Ok(Value::Null),
        Type::String => {
            if n >= 2 && s.get_char(0) == '"' && s.get_char(n - 1) == '"' {
                let inner = s.substring_char(1, n - 1).to_owned();
                Ok(Value::String(inner))
            } else {
                Err(invalid_type())
            }
        },
        Type::Char => {
            if n >= 2 && s.get_char(0) == '\'' && s.get_char(n - 1) == '\'' {
                if n == 3 {
                    Ok(Value::Char(s.get_char(1)))
                } else {
                    Err(multiple_char())
                }
            } else {
                Err(invalid_type())
            }
        },
        Type::Float => {
            if is_float_literal(s) {
                Ok(Value::Float(ident.clone()))
            } else {
                Err(invalid_type())
            }
        },
        Type::Int => {
            match parse_i64(s) {
                Some(i) => Ok(Value::Int(i)),
                None => Err(invalid_type()),
            }
        },
        Type::Uint => {
            match parse_u64(s) {
                Some(u) => Ok(Value::Uint(u)),
                None => Err(invalid_type()),
            }
        },
        Type::Bool => {
            if *ident == String::from_str("true") {
                Ok(Value::Bool(true))
            } else if *ident == String::from_str("false") {
                Ok(Value::Bool(false))
            } else {
                Err(invalid_type())
            }
        },
        _ => Err(invalid_type()),
    }
}

} // verus!
