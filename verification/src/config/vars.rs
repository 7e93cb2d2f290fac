use vstd::prelude::*;

verus! {

use crate::config::ast::Var;
use crate::config::error::{ErrorKind, ParserError, ParserErrorV, array_closed, colon_position,
    colon_required, comma_position, comma_required, csperr, duplicate_error,
    element_name_required, invalid_elements, invalid_left_curly_position,
    invalid_left_shift_position, invalid_syntax, invalid_syntax_in_vars, must_in_vars_block,
    option_closed, struct_closed, invalid_type, template_to_error, vars_closed};
use crate::config::token::{CTokV, TokenV};
use crate::vars::parser::adv;
use crate::config::option_value::{parse_option_value, parse_parsed_value};
use crate::config::token::{Token, Value as TokValue, toks_types_wf};
use crate::config::lexer::toks_v;
use crate::types::{Type, TypeV, Value, ValueV, lemma_type_fields_v,
    lemma_type_fields_wf_pointwise, type_fields_v, type_v, type_wf, unique_keys, value_v};

/// The declared variables: unique names, each with a well-formed type.
pub open spec fn vars_wf(vs: Seq<(String, Var)>) -> bool {
    &&& (forall|a: int, b: int|
        #![trigger vs[a], vs[b]]
        0 <= a < b < vs.len() ==> vs[a].0@ != vs[b].0@)
    &&& (forall|k: int| 0 <= k < vs.len() ==> type_wf(type_v((#[trigger] vs[k]).1.v_type)))
}

/// The grammar of an `array` element type, from `i` just past the
/// keyword: a `<`, exactly one type (possibly itself composite), and a
/// `>`; end of input means the bracket pair never closed.
pub open spec fn spec_parse_array_type(
    toks: Seq<TokenV>,
    i: int,
    in_block: bool,
    element: Option<TypeV>,
) -> Result<(TypeV, int), ParserErrorV>
    decreases toks.len() - i, 1int,
{
    if i < 0 || i >= toks.len() {
        Result::Err(
            csperr(ErrorKind::SyntaxError, 19, "Array is not closed"@, toks[i - 1].position),
        )
    } else {
        let t = toks[i];
        match t.value {
            CTokV::LeftShift => if in_block {
                Result::Err(
                    csperr(
                        ErrorKind::SyntaxError,
                        20,
                        "Position of the < is invalid"@,
                        t.position,
                    ),
                )
            } else {
                spec_parse_array_type(toks, i + 1, true, element)
            },
            CTokV::RightShift => match element {
                Option::Some(el) => Result::Ok((TypeV::Array(Box::new(el)), i + 1)),
                Option::None => Result::Err(
                    csperr(ErrorKind::InvalidType, 18, "Invalid type"@, t.position),
                ),
            },
            CTokV::Comment(_) => spec_parse_array_type(toks, i + 1, in_block, element),
            _ => if !in_block {
                Result::Err(
                    csperr(
                        ErrorKind::SyntaxError,
                        4,
                        "To use this syntax, you must be inside a vars block"@,
                        t.position,
                    ),
                )
            } else if element is Some {
                Result::Err(csperr(ErrorKind::InvalidType, 18, "Invalid type"@, t.position))
            } else {
                match t.value {
                    CTokV::Type(tk) => spec_parse_array_type(
                        toks,
                        i + 1,
                        in_block,
                        Option::Some(tk),
                    ),
                    CTokV::Null => spec_parse_array_type(
                        toks,
                        i + 1,
                        in_block,
                        Option::Some(TypeV::Null),
                    ),
                    CTokV::Array => match spec_parse_array_type(toks, i + 1, false, Option::None) {
                        Result::Ok(p) => spec_parse_array_type(
                            toks,
                            adv(i, p.1, toks.len() as int),
                            in_block,
                            Option::Some(p.0),
                        ),
                        Result::Err(e) => Result::Err(e),
                    },
                    CTokV::Struct => match spec_parse_struct_type(
                        toks,
                        i + 1,
                        false,
                        false,
                        Option::None,
                        Option::None,
                        Seq::empty(),
                    ) {
                        Result::Ok(p) => spec_parse_array_type(
                            toks,
                            adv(i, p.1, toks.len() as int),
                            in_block,
                            Option::Some(p.0),
                        ),
                        Result::Err(e) => Result::Err(e),
                    },
                    CTokV::Option => match spec_parse_option_type(
                        toks,
                        i + 1,
                        false,
                        Option::None,
                    ) {
                        Result::Ok(p) => spec_parse_array_type(
                            toks,
                            adv(i, p.1, toks.len() as int),
                            in_block,
                            Option::Some(p.0),
                        ),
                        Result::Err(e) => Result::Err(e),
                    },
                    _ => Result::Err(
                        csperr(ErrorKind::SyntaxError, 22, "Invalid syntax"@, t.position),
                    ),
                }
            },
        }
    }
}

/// The grammar of an `option` inner type: as the array element type, but
/// closing to an option; end of input means the pair never closed.
pub open spec fn spec_parse_option_type(
    toks: Seq<TokenV>,
    i: int,
    in_block: bool,
    element: Option<TypeV>,
) -> Result<(TypeV, int), ParserErrorV>
    decreases toks.len() - i, 1int,
{
    if i < 0 || i >= toks.len() {
        Result::Err(
            csperr(ErrorKind::SyntaxError, 23, "Option is not closed"@, toks[i - 1].position),
        )
    } else {
        let t = toks[i];
        match t.value {
            CTokV::LeftShift => if in_block {
                Result::Err(
                    csperr(
                        ErrorKind::SyntaxError,
                        20,
                        "Position of the < is invalid"@,
                        t.position,
                    ),
                )
            } else {
                spec_parse_option_type(toks, i + 1, true, element)
            },
            CTokV::RightShift => match element {
                Option::Some(el) => Result::Ok((TypeV::Opt(Box::new(el)), i + 1)),
                Option::None => Result::Err(
                    csperr(ErrorKind::InvalidType, 18, "Invalid type"@, t.position),
                ),
            },
            CTokV::Comment(_) => spec_parse_option_type(toks, i + 1, in_block, element),
            _ => if !in_block {
                Result::Err(
                    csperr(
                        ErrorKind::SyntaxError,
                        4,
                        "To use this syntax, you must be inside a vars block"@,
                        t.position,
                    ),
                )
            } else if element is Some {
                Result::Err(csperr(ErrorKind::InvalidType, 18, "Invalid type"@, t.position))
            } else {
                match t.value {
                    CTokV::Type(tk) => spec_parse_option_type(
                        toks,
                        i + 1,
                        in_block,
                        Option::Some(tk),
                    ),
                    CTokV::Null => spec_parse_option_type(
                        toks,
                        i + 1,
                        in_block,
                        Option::Some(TypeV::Null),
                    ),
                    CTokV::Array => match spec_parse_array_type(toks, i + 1, false, Option::None) {
                        Result::Ok(p) => spec_parse_option_type(
                            toks,
                            adv(i, p.1, toks.len() as int),
                            in_block,
                            Option::Some(p.0),
                        ),
                        Result::Err(e) => Result::Err(e),
                    },
                    CTokV::Struct => match spec_parse_struct_type(
                        toks,
                        i + 1,
                        false,
                        false,
                        Option::None,
                        Option::None,
                        Seq::empty(),
                    ) {
                        Result::Ok(p) => spec_parse_option_type(
                            toks,
                            adv(i, p.1, toks.len() as int),
                            in_block,
                            Option::Some(p.0),
                        ),
                        Result::Err(e) => Result::Err(e),
                    },
                    CTokV::Option => match spec_parse_option_type(
                        toks,
                        i + 1,
                        false,
                        Option::None,
                    ) {
                        Result::Ok(p) => spec_parse_option_type(
                            toks,
                            adv(i, p.1, toks.len() as int),
                            in_block,
                            Option::Some(p.0),
                        ),
                        Result::Err(e) => Result::Err(e),
                    },
                    _ => Result::Err(
                        csperr(ErrorKind::SyntaxError, 22, "Invalid syntax"@, t.position),
                    ),
                }
            },
        }
    }
}

/// The grammar of a `struct` field list, from `i` just past the keyword:
/// a `{`, then `name: Type;` entries with unique names, then a `}`; end
/// of input means the brace pair never closed.
pub open spec fn spec_parse_struct_type(
    toks: Seq<TokenV>,
    i: int,
    in_block: bool,
    colon_used: bool,
    prop: Option<Seq<char>>,
    val: Option<TypeV>,
    fields: Seq<(Seq<char>, TypeV)>,
) -> Result<(TypeV, int), ParserErrorV>
    decreases toks.len() - i, 1int,
{
    if i < 0 || i >= toks.len() {
        Result::Err(
            csperr(ErrorKind::SyntaxError, 21, "Struct is not closed"@, toks[i - 1].position),
        )
    } else {
        let t = toks[i];
        match t.value {
            CTokV::LeftCurlyBracket => if in_block {
                Result::Err(
                    csperr(
                        ErrorKind::SyntaxError,
                        1,
                        "Position of the { is invalid"@,
                        t.position,
                    ),
                )
            } else {
                spec_parse_struct_type(toks, i + 1, true, colon_used, prop, val, fields)
            },
            CTokV::RightCurlyBracket => Result::Ok((TypeV::Struct(fields), i + 1)),
            CTokV::Comment(_) => spec_parse_struct_type(
                toks,
                i + 1,
                in_block,
                colon_used,
                prop,
                val,
                fields,
            ),
            _ => if !in_block {
                Result::Err(
                    csperr(
                        ErrorKind::SyntaxError,
                        4,
                        "To use this syntax, you must be inside a vars block"@,
                        t.position,
                    ),
                )
            } else {
                match t.value {
                    CTokV::Colon => if colon_used || prop is None {
                        Result::Err(
                            csperr(
                                ErrorKind::SyntaxError,
                                8,
                                "Colon position is invalid"@,
                                t.position,
                            ),
                        )
                    } else {
                        spec_parse_struct_type(toks, i + 1, in_block, true, prop, val, fields)
                    },
                    CTokV::Semi => if prop is Some && val is Some {
                        if !colon_used {
                            Result::Err(
                                csperr(
                                    ErrorKind::SyntaxError,
                                    7,
                                    "Colon is required"@,
                                    t.position,
                                ),
                            )
                        } else if crate::types::assoc_has(fields, prop->0) {
                            Result::Err(
                                csperr(
                                    ErrorKind::DuplicateVars,
                                    12,
                                    prop->0 + " is duplicated"@,
                                    t.position,
                                ),
                            )
                        } else {
                            spec_parse_struct_type(
                                toks,
                                i + 1,
                                in_block,
                                false,
                                Option::None,
                                Option::None,
                                fields.push((prop->0, val->0)),
                            )
                        }
                    } else {
                        Result::Err(
                            csperr(ErrorKind::SyntaxError, 22, "Invalid syntax"@, t.position),
                        )
                    },
                    CTokV::Ident(text) => if prop is Some {
                        Result::Err(
                            csperr(
                                ErrorKind::SyntaxError,
                                10,
                                "There are invalid elements"@,
                                t.position,
                            ),
                        )
                    } else {
                        spec_parse_struct_type(
                            toks,
                            i + 1,
                            in_block,
                            colon_used,
                            Option::Some(text),
                            val,
                            fields,
                        )
                    },
                    CTokV::Type(tk) => spec_struct_type_value(
                        toks,
                        i,
                        in_block,
                        colon_used,
                        prop,
                        val,
                        fields,
                        tk,
                        i + 1,
                    ),
                    CTokV::Null => spec_struct_type_value(
                        toks,
                        i,
                        in_block,
                        colon_used,
                        prop,
                        val,
                        fields,
                        TypeV::Null,
                        i + 1,
                    ),
                    CTokV::Array => if prop is None {
                        Result::Err(
                            csperr(
                                ErrorKind::SyntaxError,
                                11,
                                "Element name is required"@,
                                t.position,
                            ),
                        )
                    } else if !colon_used {
                        Result::Err(
                            csperr(ErrorKind::SyntaxError, 7, "Colon is required"@, t.position),
                        )
                    } else if val is Some {
                        Result::Err(
                            csperr(ErrorKind::SyntaxError, 22, "Invalid syntax"@, t.position),
                        )
                    } else {
                        match spec_parse_array_type(toks, i + 1, false, Option::None) {
                            Result::Ok(p) => spec_parse_struct_type(
                                toks,
                                adv(i, p.1, toks.len() as int),
                                in_block,
                                colon_used,
                                prop,
                                Option::Some(p.0),
                                fields,
                            ),
                            Result::Err(e) => Result::Err(e),
                        }
                    },
                    CTokV::Struct => if prop is None {
                        Result::Err(
                            csperr(
                                ErrorKind::SyntaxError,
                                11,
                                "Element name is required"@,
                                t.position,
                            ),
                        )
                    } else if !colon_used {
                        Result::Err(
                            csperr(ErrorKind::SyntaxError, 7, "Colon is required"@, t.position),
                        )
                    } else if val is Some {
                        Result::Err(
                            csperr(ErrorKind::SyntaxError, 22, "Invalid syntax"@, t.position),
                        )
                    } else {
                        match spec_parse_struct_type(
                            toks,
                            i + 1,
                            false,
                            false,
                            Option::None,
                            Option::None,
                            Seq::empty(),
                        ) {
                            Result::Ok(p) => spec_parse_struct_type(
                                toks,
                                adv(i, p.1, toks.len() as int),
                                in_block,
                                colon_used,
                                prop,
                                Option::Some(p.0),
                                fields,
                            ),
                            Result::Err(e) => Result::Err(e),
                        }
                    },
                    CTokV::Option => if prop is None {
                        Result::Err(
                            csperr(
                                ErrorKind::SyntaxError,
                                11,
                                "Element name is required"@,
                                t.position,
                            ),
                        )
                    } else if !colon_used {
                        Result::Err(
                            csperr(ErrorKind::SyntaxError, 7, "Colon is required"@, t.position),
                        )
                    } else if val is Some {
                        Result::Err(
                            csperr(ErrorKind::SyntaxError, 22, "Invalid syntax"@, t.position),
                        )
                    } else {
                        match spec_parse_option_type(toks, i + 1, false, Option::None) {
                            Result::Ok(p) => spec_parse_struct_type(
                                toks,
                                adv(i, p.1, toks.len() as int),
                                in_block,
                                colon_used,
                                prop,
                                Option::Some(p.0),
                                fields,
                            ),
                            Result::Err(e) => Result::Err(e),
                        }
                    },
                    _ => Result::Err(
                        csperr(ErrorKind::SyntaxError, 22, "Invalid syntax"@, t.position),
                    ),
                }
            },
        }
    }
}

/// What a primitive type token does to the struct state: it needs a
/// pending name, the colon, and no value yet, and then stands as the
/// pending field type.
pub open spec fn spec_struct_type_value(
    toks: Seq<TokenV>,
    i: int,
    in_block: bool,
    colon_used: bool,
    prop: Option<Seq<char>>,
    val: Option<TypeV>,
    fields: Seq<(Seq<char>, TypeV)>,
    tk: TypeV,
    next: int,
) -> Result<(TypeV, int), ParserErrorV>
    decreases toks.len() - i, 0int,
{
    if i < 0 || i >= toks.len() {
        Result::Err(
            csperr(ErrorKind::SyntaxError, 21, "Struct is not closed"@, toks[i - 1].position),
        )
    } else {
        let t = toks[i];
        if prop is None {
            Result::Err(
                csperr(ErrorKind::SyntaxError, 11, "Element name is required"@, t.position),
            )
        } else if !colon_used {
            Result::Err(csperr(ErrorKind::SyntaxError, 7, "Colon is required"@, t.position))
        } else if val is Some {
            Result::Err(csperr(ErrorKind::SyntaxError, 22, "Invalid syntax"@, t.position))
        } else {
            spec_parse_struct_type(
                toks,
                adv(i, next, toks.len() as int),
                in_block,
                colon_used,
                prop,
                Option::Some(tk),
                fields,
            )
        }
    }
}

/// Parses an `array` element type, exactly as `spec_parse_array_type`
/// says: a `<`, one type, and a `>`.
pub fn parse_array_type(toks: &Vec<Token>, i: usize) -> (r: Result<(Type, usize), ParserError>)
    requires
        1 <= i <= toks@.len(),
    ensures
        match r {
            Result::Ok(p) => i < p.1 <= toks@.len() && (toks_types_wf(toks_v(toks@))
                ==> type_wf(type_v(p.0))),
            Result::Err(_) => true,
        },
        ({
            let sp = spec_parse_array_type(toks_v(toks@), i as int, false, Option::None);
            match r {
                Result::Ok(p) => sp == Result::<(TypeV, int), ParserErrorV>::Ok(
                    (type_v(p.0), p.1 as int),
                ),
                Result::Err(e) => sp == Result::<(TypeV, int), ParserErrorV>::Err(e@),
            }
        }),
    decreases toks@.len() - i,
{
    let ghost tv = toks_v(toks@);
    proof {
        assert(forall|k: int| 0 <= k < toks@.len() ==> #[trigger] tv[k] == toks@[k]@);
    }
    let mut in_block = false;
    let mut element: Option<Type> = None;
    let mut j = i;
    loop
        invariant
            1 <= i <= j <= toks@.len(),
            tv == toks_v(toks@),
            tv.len() == toks@.len(),
            forall|k: int| 0 <= k < toks@.len() ==> #[trigger] tv[k] == toks@[k]@,
            toks_types_wf(tv) ==> (match element {
                Option::Some(t) => type_wf(type_v(t)),
                Option::None => true,
            }),
            spec_parse_array_type(tv, i as int, false, Option::None) == spec_parse_array_type(
                tv,
                j as int,
                in_block,
                match element {
                    Option::Some(t) => Option::Some(type_v(t)),
                    Option::None => Option::None,
                },
            ),
        decreases toks@.len() - j,
    {
        let ghost elv: Option<TypeV> = match &element {
            Option::Some(t) => Option::Some(type_v(*t)),
            Option::None => Option::None,
        };
        if j >= toks.len() {
            let e = template_to_error(array_closed(), toks[j - 1].position.dup());
            proof {
                assert(spec_parse_array_type(tv, j as int, in_block, elv) == Result::<
                    (TypeV, int),
                    ParserErrorV,
                >::Err(e@));
            }
            return Err(e);
        }
        proof {
            assert(tv[j as int] == toks@[j as int]@);
        }
        match &toks[j].value {
            TokValue::LeftShift => {
                if in_block {
                    let e = template_to_error(
                        invalid_left_shift_position(),
                        toks[j].position.dup(),
                    );
                    proof {
                        assert(spec_parse_array_type(tv, j as int, in_block, elv) == Result::<
                            (TypeV, int),
                            ParserErrorV,
                        >::Err(e@));
                    }
                    return Err(e);
                }
                in_block = true;
                j = j + 1;
            },
            TokValue::RightShift => {
                return match element {
                    Some(t) => Ok((Type::Array(Box::new(t)), j + 1)),
                    None => {
                        let e = template_to_error(invalid_type(), toks[j].position.dup());
                        proof {
                            assert(spec_parse_array_type(tv, j as int, in_block, elv) == Result::<
                                (TypeV, int),
                                ParserErrorV,
                            >::Err(e@));
                        }
                        Err(e)
                    },
                };
            },
            TokValue::Comment(_) => {
                j = j + 1;
            },
            _ => {
                if !in_block {
                    let e = template_to_error(must_in_vars_block(), toks[j].position.dup());
                    proof {
                        assert(spec_parse_array_type(tv, j as int, in_block, elv) == Result::<
                            (TypeV, int),
                            ParserErrorV,
                        >::Err(e@));
                    }
                    return Err(e);
                }
                if element.is_some() {
                    let e = template_to_error(invalid_type(), toks[j].position.dup());
                    proof {
                        assert(spec_parse_array_type(tv, j as int, in_block, elv) == Result::<
                            (TypeV, int),
                            ParserErrorV,
                        >::Err(e@));
                    }
                    return Err(e);
                }
                match &toks[j].value {
                    TokValue::Type(t) => {
                        proof {
                            if toks_types_wf(toks_v(toks@)) {
                                assert(toks_v(toks@)[j as int] == toks@[j as int]@);
                            }
                        }
                        element = Some(t.dup());
                        j = j + 1;
                    },
                    TokValue::Null => {
                        element = Some(Type::Null);
                        j = j + 1;
                    },
                    TokValue::Array => {
                        match parse_array_type(toks, j + 1) {
                            Ok(p) => {
                                let (t, j2) = p;
                                proof {
                                    assert(adv(j as int, j2 as int, tv.len() as int)
                                        == j2 as int);
                                }
                                element = Some(t);
                                j = j2;
                            },
                            Err(e) => {
                                proof {
                                    assert(spec_parse_array_type(tv, j as int, in_block, elv) == Result::<
                                        (TypeV, int),
                                        ParserErrorV,
                                    >::Err(e@));
                                }
                                return Err(e);
                            },
                        }
                    },
                    TokValue::Struct => {
                        match parse_struct_type(toks, j + 1) {
                            Ok(p) => {
                                let (t, j2) = p;
                                proof {
                                    assert(adv(j as int, j2 as int, tv.len() as int)
                                        == j2 as int);
                                }
                                element = Some(t);
                                j = j2;
                            },
                            Err(e) => {
                                proof {
                                    assert(spec_parse_array_type(tv, j as int, in_block, elv) == Result::<
                                        (TypeV, int),
                                        ParserErrorV,
                                    >::Err(e@));
                                }
                                return Err(e);
                            },
                        }
                    },
                    TokValue::Option => {
                        match parse_option_type(toks, j + 1) {
                            Ok(p) => {
                                let (t, j2) = p;
                                proof {
                                    assert(adv(j as int, j2 as int, tv.len() as int)
                                        == j2 as int);
                                }
                                element = Some(t);
                                j = j2;
                            },
                            Err(e) => {
                                proof {
                                    assert(spec_parse_array_type(tv, j as int, in_block, elv) == Result::<
                                        (TypeV, int),
                                        ParserErrorV,
                                    >::Err(e@));
                                }
                                return Err(e);
                            },
                        }
                    },
                    _ => {
                        let e = template_to_error(invalid_syntax(), toks[j].position.dup());
                        proof {
                            assert(spec_parse_array_type(tv, j as int, in_block, elv) == Result::<
                                (TypeV, int),
                                ParserErrorV,
                            >::Err(e@));
                        }
                        return Err(e);
                    },
                }
            },
        }
    }
}

/// Parses an `option` inner type, exactly as `spec_parse_option_type`
/// says: a `<`, one type, and a `>`.
pub fn parse_option_type(toks: &Vec<Token>, i: usize) -> (r: Result<(Type, usize), ParserError>)
    requires
        1 <= i <= toks@.len(),
    ensures
        match r {
            Result::Ok(p) => i < p.1 <= toks@.len() && (toks_types_wf(toks_v(toks@))
                ==> type_wf(type_v(p.0))),
            Result::Err(_) => true,
        },
        ({
            let sp = spec_parse_option_type(toks_v(toks@), i as int, false, Option::None);
            match r {
                Result::Ok(p) => sp == Result::<(TypeV, int), ParserErrorV>::Ok(
                    (type_v(p.0), p.1 as int),
                ),
                Result::Err(e) => sp == Result::<(TypeV, int), ParserErrorV>::Err(e@),
            }
        }),
    decreases toks@.len() - i,
{
    let ghost tv = toks_v(toks@);
    proof {
        assert(forall|k: int| 0 <= k < toks@.len() ==> #[trigger] tv[k] == toks@[k]@);
    }
    let mut in_block = false;
    let mut element: Option<Type> = None;
    let mut j = i;
    loop
        invariant
            1 <= i <= j <= toks@.len(),
            tv == toks_v(toks@),
            tv.len() == toks@.len(),
            forall|k: int| 0 <= k < toks@.len() ==> #[trigger] tv[k] == toks@[k]@,
            toks_types_wf(tv) ==> (match element {
                Option::Some(t) => type_wf(type_v(t)),
                Option::None => true,
            }),
            spec_parse_option_type(tv, i as int, false, Option::None) == spec_parse_option_type(
                tv,
                j as int,
                in_block,
                match element {
                    Option::Some(t) => Option::Some(type_v(t)),
                    Option::None => Option::None,
                },
            ),
        decreases toks@.len() - j,
    {
        let ghost elv: Option<TypeV> = match &element {
            Option::Some(t) => Option::Some(type_v(*t)),
            Option::None => Option::None,
        };
        if j >= toks.len() {
            let e = template_to_error(option_closed(), toks[j - 1].position.dup());
            proof {
                assert(spec_parse_option_type(tv, j as int, in_block, elv) == Result::<
                    (TypeV, int),
                    ParserErrorV,
                >::Err(e@));
            }
            return Err(e);
        }
        proof {
            assert(tv[j as int] == toks@[j as int]@);
        }
        match &toks[j].value {
            TokValue::LeftShift => {
                if in_block {
                    let e = template_to_error(
                        invalid_left_shift_position(),
                        toks[j].position.dup(),
                    );
                    proof {
                        assert(spec_parse_option_type(tv, j as int, in_block, elv) == Result::<
                            (TypeV, int),
                            ParserErrorV,
                        >::Err(e@));
                    }
                    return Err(e);
                }
                in_block = true;
                j = j + 1;
            },
            TokValue::RightShift => {
                return match element {
                    Some(t) => Ok((Type::Option(Box::new(t)), j + 1)),
                    None => {
                        let e = template_to_error(invalid_type(), toks[j].position.dup());
                        proof {
                            assert(spec_parse_option_type(tv, j as int, in_block, elv) == Result::<
                                (TypeV, int),
                                ParserErrorV,
                            >::Err(e@));
                        }
                        Err(e)
                    },
                };
            },
            TokValue::Comment(_) => {
                j = j + 1;
            },
            _ => {
                if !in_block {
                    let e = template_to_error(must_in_vars_block(), toks[j].position.dup());
                    proof {
                        assert(spec_parse_option_type(tv, j as int, in_block, elv) == Result::<
                            (TypeV, int),
                            ParserErrorV,
                        >::Err(e@));
                    }
                    return Err(e);
                }
                if element.is_some() {
                    let e = template_to_error(invalid_type(), toks[j].position.dup());
                    proof {
                        assert(spec_parse_option_type(tv, j as int, in_block, elv) == Result::<
                            (TypeV, int),
                            ParserErrorV,
                        >::Err(e@));
                    }
                    return Err(e);
                }
                match &toks[j].value {
                    TokValue::Type(t) => {
                        proof {
                            if toks_types_wf(toks_v(toks@)) {
                                assert(toks_v(toks@)[j as int] == toks@[j as int]@);
                            }
                        }
                        element = Some(t.dup());
                        j = j + 1;
                    },
                    TokValue::Null => {
                        element = Some(Type::Null);
                        j = j + 1;
                    },
                    TokValue::Array => {
                        match parse_array_type(toks, j + 1) {
                            Ok(p) => {
                                let (t, j2) = p;
                                proof {
                                    assert(adv(j as int, j2 as int, tv.len() as int)
                                        == j2 as int);
                                }
                                element = Some(t);
                                j = j2;
                            },
                            Err(e) => {
                                proof {
                                    assert(spec_parse_option_type(tv, j as int, in_block, elv) == Result::<
                                        (TypeV, int),
                                        ParserErrorV,
                                    >::Err(e@));
                                }
                                return Err(e);
                            },
                        }
                    },
                    TokValue::Struct => {
                        match parse_struct_type(toks, j + 1) {
                            Ok(p) => {
                                let (t, j2) = p;
                                proof {
                                    assert(adv(j as int, j2 as int, tv.len() as int)
                                        == j2 as int);
                                }
                                element = Some(t);
                                j = j2;
                            },
                            Err(e) => {
                                proof {
                                    assert(spec_parse_option_type(tv, j as int, in_block, elv) == Result::<
                                        (TypeV, int),
                                        ParserErrorV,
                                    >::Err(e@));
                                }
                                return Err(e);
                            },
                        }
                    },
                    TokValue::Option => {
                        match parse_option_type(toks, j + 1) {
                            Ok(p) => {
                                let (t, j2) = p;
                                proof {
                                    assert(adv(j as int, j2 as int, tv.len() as int)
                                        == j2 as int);
                                }
                                element = Some(t);
                                j = j2;
                            },
                            Err(e) => {
                                proof {
                                    assert(spec_parse_option_type(tv, j as int, in_block, elv) == Result::<
                                        (TypeV, int),
                                        ParserErrorV,
                                    >::Err(e@));
                                }
                                return Err(e);
                            },
                        }
                    },
                    _ => {
                        let e = template_to_error(invalid_syntax(), toks[j].position.dup());
                        proof {
                            assert(spec_parse_option_type(tv, j as int, in_block, elv) == Result::<
                                (TypeV, int),
                                ParserErrorV,
                            >::Err(e@));
                        }
                        return Err(e);
                    },
                }
            },
        }
    }
}

/// Parses a `struct` field list, exactly as `spec_parse_struct_type`
/// says: a `{`, then `name: Type;` entries with unique names, then a `}`.
pub fn parse_struct_type(toks: &Vec<Token>, i: usize) -> (r: Result<(Type, usize), ParserError>)
    requires
        1 <= i <= toks@.len(),
    ensures
        match r {
            Result::Ok(p) => i < p.1 <= toks@.len() && (toks_types_wf(toks_v(toks@))
                ==> type_wf(type_v(p.0))),
            Result::Err(_) => true,
        },
        ({
            let sp = spec_parse_struct_type(
                toks_v(toks@),
                i as int,
                false,
                false,
                Option::None,
                Option::None,
                Seq::empty(),
            );
            match r {
                Result::Ok(p) => sp == Result::<(TypeV, int), ParserErrorV>::Ok(
                    (type_v(p.0), p.1 as int),
                ),
                Result::Err(e) => sp == Result::<(TypeV, int), ParserErrorV>::Err(e@),
            }
        }),
    decreases toks@.len() - i,
{
    let ghost tv = toks_v(toks@);
    proof {
        assert(forall|k: int| 0 <= k < toks@.len() ==> #[trigger] tv[k] == toks@[k]@);
    }
    let mut in_block = false;
    let mut colon_used = false;
    let mut target_prop: Option<String> = None;
    let mut target_value: Option<Type> = None;
    let mut fields: Vec<(String, Type)> = Vec::new();
    let mut j = i;
    loop
        invariant
            1 <= i <= j <= toks@.len(),
            tv == toks_v(toks@),
            tv.len() == toks@.len(),
            forall|k: int| 0 <= k < toks@.len() ==> #[trigger] tv[k] == toks@[k]@,
            forall|a: int, b: int|
                #![trigger fields@[a], fields@[b]]
                0 <= a < b < fields@.len() ==> fields@[a].0@ != fields@[b].0@,
            toks_types_wf(tv) ==> (forall|k: int|
                0 <= k < fields@.len() ==> type_wf(type_v((#[trigger] fields@[k]).1))),
            toks_types_wf(tv) ==> (match target_value {
                Option::Some(t) => type_wf(type_v(t)),
                Option::None => true,
            }),
            spec_parse_struct_type(
                tv,
                i as int,
                false,
                false,
                Option::None,
                Option::None,
                Seq::empty(),
            ) == spec_parse_struct_type(
                tv,
                j as int,
                in_block,
                colon_used,
                match target_prop {
                    Option::Some(p) => Option::Some(p@),
                    Option::None => Option::None,
                },
                match target_value {
                    Option::Some(t) => Option::Some(type_v(t)),
                    Option::None => Option::None,
                },
                type_fields_v(fields@),
            ),
        decreases toks@.len() - j,
    {
        let ghost propv: Option<Seq<char>> = match &target_prop {
            Option::Some(p) => Option::Some(p@),
            Option::None => Option::None,
        };
        let ghost valv: Option<TypeV> = match &target_value {
            Option::Some(t) => Option::Some(type_v(*t)),
            Option::None => Option::None,
        };
        let ghost fldsv = type_fields_v(fields@);
        proof {
            lemma_type_fields_v(fields@);
        }
        if j >= toks.len() {
            let e = template_to_error(struct_closed(), toks[j - 1].position.dup());
            proof {
                assert(spec_parse_struct_type(tv, j as int, in_block, colon_used, propv, valv,
                    fldsv) == Result::<(TypeV, int), ParserErrorV>::Err(e@));
            }
            return Err(e);
        }
        proof {
            assert(tv[j as int] == toks@[j as int]@);
        }
        match &toks[j].value {
            TokValue::LeftCurlyBracket => {
                if in_block {
                    let e = template_to_error(
                        invalid_left_curly_position(),
                        toks[j].position.dup(),
                    );
                    proof {
                        assert(spec_parse_struct_type(tv, j as int, in_block, colon_used, propv,
                            valv, fldsv) == Result::<(TypeV, int), ParserErrorV>::Err(e@));
                    }
                    return Err(e);
                }
                in_block = true;
                j = j + 1;
            },
            TokValue::RightCurlyBracket => {
                proof {
                    if toks_types_wf(tv) {
                        assert forall|k: int|
                            0 <= k < type_fields_v(fields@).len() implies type_wf(
                            #[trigger] type_fields_v(fields@)[k].1,
                        ) by {
                            assert(type_fields_v(fields@)[k] == (
                                fields@[k].0@,
                                type_v(fields@[k].1),
                            ));
                        };
                        assert forall|a: int, b: int|
                            0 <= a < b < type_fields_v(fields@).len() implies type_fields_v(
                            fields@,
                        )[a].0 != type_fields_v(fields@)[b].0 by {
                            assert(type_fields_v(fields@)[a] == (
                                fields@[a].0@,
                                type_v(fields@[a].1),
                            ));
                            assert(type_fields_v(fields@)[b] == (
                                fields@[b].0@,
                                type_v(fields@[b].1),
                            ));
                        };
                        lemma_type_fields_wf_pointwise(type_fields_v(fields@));
                    }
                }
                return Ok((Type::Struct(fields), j + 1));
            },
            TokValue::Comment(_) => {
                j = j + 1;
            },
            _ => {
                if !in_block {
                    let e = template_to_error(must_in_vars_block(), toks[j].position.dup());
                    proof {
                        assert(spec_parse_struct_type(tv, j as int, in_block, colon_used, propv,
                            valv, fldsv) == Result::<(TypeV, int), ParserErrorV>::Err(e@));
                    }
                    return Err(e);
                }
                match &toks[j].value {
                    TokValue::Colon => {
                        if colon_used || target_prop.is_none() {
                            let e = template_to_error(colon_position(), toks[j].position.dup());
                            proof {
                                assert(spec_parse_struct_type(tv, j as int, in_block, colon_used,
                                    propv, valv, fldsv) == Result::<
                                    (TypeV, int),
                                    ParserErrorV,
                                >::Err(e@));
                            }
                            return Err(e);
                        }
                        colon_used = true;
                        j = j + 1;
                    },
                    TokValue::Semi => {
                        if target_prop.is_some() && target_value.is_some() {
                            if !colon_used {
                                let e = template_to_error(
                                    colon_required(),
                                    toks[j].position.dup(),
                                );
                                proof {
                                    assert(spec_parse_struct_type(tv, j as int, in_block,
                                        colon_used, propv, valv, fldsv) == Result::<
                                        (TypeV, int),
                                        ParserErrorV,
                                    >::Err(e@));
                                }
                                return Err(e);
                            }
                            let entry = match (&target_prop, &target_value) {
                                (Some(name), Some(value)) => {
                                    if let Some(ix) = crate::types::assoc_find_idx(&fields, name)
                                    {
                                        let e0 = duplicate_error(name);
                                        let e = to_err_here(e0, toks, j);
                                        proof {
                                            assert(fields@[ix as int].0@ == name@);
                                            crate::types::lemma_assoc_get_some(
                                                fldsv,
                                                name@,
                                                ix as int,
                                            );
                                            assert(spec_parse_struct_type(tv, j as int, in_block,
                                                colon_used, propv, valv, fldsv) == Result::<
                                                (TypeV, int),
                                                ParserErrorV,
                                            >::Err(e@));
                                        }
                                        return Err(e);
                                    }
                                    let key = name.clone();
                                    let tval = value.dup();
                                    proof {
                                        crate::types::lemma_assoc_get_none(fldsv, name@);
                                        crate::types::lemma_type_fields_v_push(
                                            fields@,
                                            (key, tval),
                                        );
                                    }
                                    (key, tval)
                                },
                                _ => {
                                    let e = template_to_error(
                                        invalid_syntax(),
                                        toks[j].position.dup(),
                                    );
                                    return Err(e);
                                },
                            };
                            fields.push(entry);
                            target_prop = None;
                            target_value = None;
                            colon_used = false;
                            j = j + 1;
                        } else {
                            let e = template_to_error(invalid_syntax(), toks[j].position.dup());
                            proof {
                                assert(spec_parse_struct_type(tv, j as int, in_block, colon_used,
                                    propv, valv, fldsv) == Result::<
                                    (TypeV, int),
                                    ParserErrorV,
                                >::Err(e@));
                            }
                            return Err(e);
                        }
                    },
                    TokValue::Ident(text) => {
                        if target_prop.is_some() {
                            let e = template_to_error(invalid_elements(), toks[j].position.dup());
                            proof {
                                assert(spec_parse_struct_type(tv, j as int, in_block, colon_used,
                                    propv, valv, fldsv) == Result::<
                                    (TypeV, int),
                                    ParserErrorV,
                                >::Err(e@));
                            }
                            return Err(e);
                        }
                        target_prop = Some(text.clone());
                        j = j + 1;
                    },
                    TokValue::Type(t) => {
                        proof {
                            assert(spec_parse_struct_type(tv, j as int, in_block, colon_used,
                                propv, valv, fldsv) == spec_struct_type_value(tv, j as int,
                                in_block, colon_used, propv, valv, fldsv, type_v(*t),
                                j as int + 1));
                            if toks_types_wf(toks_v(toks@)) {
                                assert(toks_v(toks@)[j as int] == toks@[j as int]@);
                            }
                        }
                        if target_prop.is_none() {
                            let e = template_to_error(
                                element_name_required(),
                                toks[j].position.dup(),
                            );
                            return Err(e);
                        }
                        if !colon_used {
                            let e = template_to_error(colon_required(), toks[j].position.dup());
                            return Err(e);
                        }
                        if target_value.is_some() {
                            let e = template_to_error(invalid_syntax(), toks[j].position.dup());
                            return Err(e);
                        }
                        target_value = Some(t.dup());
                        j = j + 1;
                    },
                    TokValue::Null => {
                        proof {
                            assert(spec_parse_struct_type(tv, j as int, in_block, colon_used,
                                propv, valv, fldsv) == spec_struct_type_value(tv, j as int,
                                in_block, colon_used, propv, valv, fldsv, TypeV::Null,
                                j as int + 1));
                        }
                        if target_prop.is_none() {
                            let e = template_to_error(
                                element_name_required(),
                                toks[j].position.dup(),
                            );
                            return Err(e);
                        }
                        if !colon_used {
                            let e = template_to_error(colon_required(), toks[j].position.dup());
                            return Err(e);
                        }
                        if target_value.is_some() {
                            let e = template_to_error(invalid_syntax(), toks[j].position.dup());
                            return Err(e);
                        }
                        target_value = Some(Type::Null);
                        j = j + 1;
                    },
                    TokValue::Array => {
                        if target_prop.is_none() {
                            let e = template_to_error(
                                element_name_required(),
                                toks[j].position.dup(),
                            );
                            proof {
                                assert(spec_parse_struct_type(tv, j as int, in_block, colon_used,
                                    propv, valv, fldsv) == Result::<
                                    (TypeV, int),
                                    ParserErrorV,
                                >::Err(e@));
                            }
                            return Err(e);
                        }
                        if !colon_used {
                            let e = template_to_error(colon_required(), toks[j].position.dup());
                            proof {
                                assert(spec_parse_struct_type(tv, j as int, in_block, colon_used,
                                    propv, valv, fldsv) == Result::<
                                    (TypeV, int),
                                    ParserErrorV,
                                >::Err(e@));
                            }
                            return Err(e);
                        }
                        if target_value.is_some() {
                            let e = template_to_error(invalid_syntax(), toks[j].position.dup());
                            proof {
                                assert(spec_parse_struct_type(tv, j as int, in_block, colon_used,
                                    propv, valv, fldsv) == Result::<
                                    (TypeV, int),
                                    ParserErrorV,
                                >::Err(e@));
                            }
                            return Err(e);
                        }
                        match parse_array_type(toks, j + 1) {
                            Ok(p) => {
                                let (t, j2) = p;
                                proof {
                                    assert(adv(j as int, j2 as int, tv.len() as int)
                                        == j2 as int);
                                }
                                target_value = Some(t);
                                j = j2;
                            },
                            Err(e) => {
                                proof {
                                    assert(spec_parse_struct_type(tv, j as int, in_block,
                                        colon_used, propv, valv, fldsv) == Result::<
                                        (TypeV, int),
                                        ParserErrorV,
                                    >::Err(e@));
                                }
                                return Err(e);
                            },
                        }
                    },
                    TokValue::Struct => {
                        if target_prop.is_none() {
                            let e = template_to_error(
                                element_name_required(),
                                toks[j].position.dup(),
                            );
                            proof {
                                assert(spec_parse_struct_type(tv, j as int, in_block, colon_used,
                                    propv, valv, fldsv) == Result::<
                                    (TypeV, int),
                                    ParserErrorV,
                                >::Err(e@));
                            }
                            return Err(e);
                        }
                        if !colon_used {
                            let e = template_to_error(colon_required(), toks[j].position.dup());
                            proof {
                                assert(spec_parse_struct_type(tv, j as int, in_block, colon_used,
                                    propv, valv, fldsv) == Result::<
                                    (TypeV, int),
                                    ParserErrorV,
                                >::Err(e@));
                            }
                            return Err(e);
                        }
                        if target_value.is_some() {
                            let e = template_to_error(invalid_syntax(), toks[j].position.dup());
                            proof {
                                assert(spec_parse_struct_type(tv, j as int, in_block, colon_used,
                                    propv, valv, fldsv) == Result::<
                                    (TypeV, int),
                                    ParserErrorV,
                                >::Err(e@));
                            }
                            return Err(e);
                        }
                        match parse_struct_type(toks, j + 1) {
                            Ok(p) => {
                                let (t, j2) = p;
                                proof {
                                    assert(adv(j as int, j2 as int, tv.len() as int)
                                        == j2 as int);
                                }
                                target_value = Some(t);
                                j = j2;
                            },
                            Err(e) => {
                                proof {
                                    assert(spec_parse_struct_type(tv, j as int, in_block,
                                        colon_used, propv, valv, fldsv) == Result::<
                                        (TypeV, int),
                                        ParserErrorV,
                                    >::Err(e@));
                                }
                                return Err(e);
                            },
                        }
                    },
                    TokValue::Option => {
                        if target_prop.is_none() {
                            let e = template_to_error(
                                element_name_required(),
                                toks[j].position.dup(),
                            );
                            proof {
                                assert(spec_parse_struct_type(tv, j as int, in_block, colon_used,
                                    propv, valv, fldsv) == Result::<
                                    (TypeV, int),
                                    ParserErrorV,
                                >::Err(e@));
                            }
                            return Err(e);
                        }
                        if !colon_used {
                            let e = template_to_error(colon_required(), toks[j].position.dup());
                            proof {
                                assert(spec_parse_struct_type(tv, j as int, in_block, colon_used,
                                    propv, valv, fldsv) == Result::<
                                    (TypeV, int),
                                    ParserErrorV,
                                >::Err(e@));
                            }
                            return Err(e);
                        }
                        if target_value.is_some() {
                            let e = template_to_error(invalid_syntax(), toks[j].position.dup());
                            proof {
                                assert(spec_parse_struct_type(tv, j as int, in_block, colon_used,
                                    propv, valv, fldsv) == Result::<
                                    (TypeV, int),
                                    ParserErrorV,
                                >::Err(e@));
                            }
                            return Err(e);
                        }
                        match parse_option_type(toks, j + 1) {
                            Ok(p) => {
                                let (t, j2) = p;
                                proof {
                                    assert(adv(j as int, j2 as int, tv.len() as int)
                                        == j2 as int);
                                }
                                target_value = Some(t);
                                j = j2;
                            },
                            Err(e) => {
                                proof {
                                    assert(spec_parse_struct_type(tv, j as int, in_block,
                                        colon_used, propv, valv, fldsv) == Result::<
                                        (TypeV, int),
                                        ParserErrorV,
                                    >::Err(e@));
                                }
                                return Err(e);
                            },
                        }
                    },
                    _ => {
                        let e = template_to_error(invalid_syntax(), toks[j].position.dup());
                        proof {
                            assert(spec_parse_struct_type(tv, j as int, in_block, colon_used,
                                propv, valv, fldsv) == Result::<
                                (TypeV, int),
                                ParserErrorV,
                            >::Err(e@));
                        }
                        return Err(e);
                    },
                }
            },
        }
    }
}

/// Attaches the current token's position to a template.
fn to_err_here(template: crate::config::error::EnvlConfigErrorTemplate, toks: &Vec<Token>,
    j: usize) -> (r: ParserError)
    requires
        j < toks@.len(),
    ensures
        r.code == template.code,
        r.kind == template.kind,
        r.message@ == template.message@,
        r.position@ == toks@[j as int].position@,
{
    template_to_error(template, toks[j].position.dup())
}

/// The models of a declaration list.
pub open spec fn cvars_v(s: Seq<(String, Var)>) -> Seq<(Seq<char>, crate::config::ast::VarV)> {
    s.map(|i: int, p: (String, Var)| (p.0@, p.1@))
}

pub proof fn lemma_cvars_v_push(s: Seq<(String, Var)>, x: (String, Var))
    ensures
        cvars_v(s.push(x)) == cvars_v(s).push((x.0@, x.1@)),
{
    assert(cvars_v(s.push(x)) =~= cvars_v(s).push((x.0@, x.1@)));
}

/// The grammar of the `vars { }` block, from `i` just past the keyword:
/// `name : Type` entries with unique names, a comma between any two, each
/// optionally followed by a `(default: …, actions: …)` clause whose raw
/// values are coerced against the entry's declared type; `}` closes; end
/// of input means the block never closed.
pub open spec fn spec_parse_vars(
    toks: Seq<TokenV>,
    i: int,
    in_block: bool,
    colon_used: bool,
    comma_used: bool,
    element_name: Option<Seq<char>>,
    inserted: Option<int>,
    vars: Seq<(Seq<char>, crate::config::ast::VarV)>,
) -> Result<(Seq<(Seq<char>, crate::config::ast::VarV)>, int), ParserErrorV>
    decreases toks.len() - i, 1int,
{
    if i < 0 || i >= toks.len() {
        Result::Err(
            csperr(ErrorKind::SyntaxError, 2, "Vars is not closed"@, toks[i - 1].position),
        )
    } else {
        let t = toks[i];
        match t.value {
            CTokV::LeftCurlyBracket => if in_block {
                Result::Err(
                    csperr(
                        ErrorKind::SyntaxError,
                        1,
                        "Position of the { is invalid"@,
                        t.position,
                    ),
                )
            } else {
                spec_parse_vars(
                    toks,
                    i + 1,
                    true,
                    colon_used,
                    comma_used,
                    element_name,
                    inserted,
                    vars,
                )
            },
            CTokV::RightCurlyBracket => Result::Ok((vars, i + 1)),
            CTokV::Comment(_) => spec_parse_vars(
                toks,
                i + 1,
                in_block,
                colon_used,
                comma_used,
                element_name,
                inserted,
                vars,
            ),
            _ => if !in_block {
                Result::Err(
                    csperr(
                        ErrorKind::SyntaxError,
                        4,
                        "To use this syntax, you must be inside a vars block"@,
                        t.position,
                    ),
                )
            } else {
                match t.value {
                    CTokV::Comma => if comma_used {
                        Result::Err(
                            csperr(
                                ErrorKind::SyntaxError,
                                6,
                                "Comma position is invalid"@,
                                t.position,
                            ),
                        )
                    } else {
                        spec_parse_vars(
                            toks,
                            i + 1,
                            in_block,
                            colon_used,
                            true,
                            element_name,
                            inserted,
                            vars,
                        )
                    },
                    CTokV::Colon => if colon_used {
                        Result::Err(
                            csperr(
                                ErrorKind::SyntaxError,
                                8,
                                "Colon position is invalid"@,
                                t.position,
                            ),
                        )
                    } else {
                        spec_parse_vars(
                            toks,
                            i + 1,
                            in_block,
                            true,
                            comma_used,
                            element_name,
                            inserted,
                            vars,
                        )
                    },
                    CTokV::Ident(text) => if element_name is Some {
                        Result::Err(
                            csperr(
                                ErrorKind::SyntaxError,
                                10,
                                "There are invalid elements"@,
                                t.position,
                            ),
                        )
                    } else {
                        spec_parse_vars(
                            toks,
                            i + 1,
                            in_block,
                            colon_used,
                            comma_used,
                            Option::Some(text),
                            inserted,
                            vars,
                        )
                    },
                    CTokV::LeftParentheses => match inserted {
                        Option::None => Result::Err(
                            csperr(
                                ErrorKind::SyntaxError,
                                11,
                                "Element name is required"@,
                                t.position,
                            ),
                        ),
                        Option::Some(ix) => if ix < 0 || ix >= vars.len() {
                            Result::Err(
                                csperr(
                                    ErrorKind::SyntaxError,
                                    22,
                                    "Invalid syntax"@,
                                    t.position,
                                ),
                            )
                        } else {
                            match crate::config::option_value::spec_parse_clause(
                                toks,
                                i + 1,
                                crate::config::option_value::ParsedValueV::Null,
                                crate::config::option_value::ParsedValueV::Null,
                                Option::None,
                                false,
                                false,
                                false,
                            ) {
                                Result::Err(e) => Result::Err(e),
                                Result::Ok(p) => match crate::config::option_value::spec_coerce_raw(
                                    vars[ix].1.v_type,
                                    p.0.0,
                                ) {
                                    Result::Err(c) => Result::Err(
                                        crate::config::option_value::spec_coerce_err(
                                            c,
                                            t.position,
                                        ),
                                    ),
                                    Result::Ok(dv) => match
                                        crate::config::option_value::spec_coerce_raw(
                                        vars[ix].1.v_type,
                                        p.0.1,
                                    ) {
                                        Result::Err(c) => Result::Err(
                                            crate::config::option_value::spec_coerce_err(
                                                c,
                                                t.position,
                                            ),
                                        ),
                                        Result::Ok(av) => spec_parse_vars(
                                            toks,
                                            adv(i, p.1, toks.len() as int),
                                            in_block,
                                            colon_used,
                                            comma_used,
                                            element_name,
                                            inserted,
                                            vars.update(
                                                ix,
                                                (
                                                    vars[ix].0,
                                                    crate::config::ast::VarV {
                                                        v_type: vars[ix].1.v_type,
                                                        default_value: dv,
                                                        actions_value: av,
                                                        position: vars[ix].1.position,
                                                    },
                                                ),
                                            ),
                                        ),
                                    },
                                },
                            }
                        },
                    },
                    CTokV::Type(tk) => spec_vars_insert(
                        toks,
                        i,
                        in_block,
                        colon_used,
                        comma_used,
                        element_name,
                        vars,
                        tk,
                        i + 1,
                    ),
                    CTokV::Null => spec_vars_insert(
                        toks,
                        i,
                        in_block,
                        colon_used,
                        comma_used,
                        element_name,
                        vars,
                        TypeV::Null,
                        i + 1,
                    ),
                    CTokV::Array => match spec_parse_array_type(toks, i + 1, false, Option::None) {
                        Result::Ok(p) => spec_vars_insert(
                            toks,
                            i,
                            in_block,
                            colon_used,
                            comma_used,
                            element_name,
                            vars,
                            p.0,
                            p.1,
                        ),
                        Result::Err(e) => Result::Err(e),
                    },
                    CTokV::Struct => match spec_parse_struct_type(
                        toks,
                        i + 1,
                        false,
                        false,
                        Option::None,
                        Option::None,
                        Seq::empty(),
                    ) {
                        Result::Ok(p) => spec_vars_insert(
                            toks,
                            i,
                            in_block,
                            colon_used,
                            comma_used,
                            element_name,
                            vars,
                            p.0,
                            p.1,
                        ),
                        Result::Err(e) => Result::Err(e),
                    },
                    CTokV::Option => match spec_parse_option_type(
                        toks,
                        i + 1,
                        false,
                        Option::None,
                    ) {
                        Result::Ok(p) => spec_vars_insert(
                            toks,
                            i,
                            in_block,
                            colon_used,
                            comma_used,
                            element_name,
                            vars,
                            p.0,
                            p.1,
                        ),
                        Result::Err(e) => Result::Err(e),
                    },
                    _ => Result::Err(
                        csperr(
                            ErrorKind::SyntaxError,
                            9,
                            "That syntax cannot be used within a vars block"@,
                            t.position,
                        ),
                    ),
                }
            },
        }
    }
}

/// What a completed declared type does to the vars state: it needs a
/// pending name, a comma after the first entry, the colon and a fresh
/// name, and then stands as a declaration with `null` fallbacks at the
/// type's last token.
pub open spec fn spec_vars_insert(
    toks: Seq<TokenV>,
    i: int,
    in_block: bool,
    colon_used: bool,
    comma_used: bool,
    element_name: Option<Seq<char>>,
    vars: Seq<(Seq<char>, crate::config::ast::VarV)>,
    tk: TypeV,
    next: int,
) -> Result<(Seq<(Seq<char>, crate::config::ast::VarV)>, int), ParserErrorV>
    decreases toks.len() - i, 0int,
{
    if i < 0 || i >= toks.len() {
        Result::Err(
            csperr(ErrorKind::SyntaxError, 2, "Vars is not closed"@, toks[i - 1].position),
        )
    } else {
        let nj = adv(i, next, toks.len() as int);
        let pos = toks[nj - 1].position;
        match element_name {
            Option::None => Result::Err(
                csperr(ErrorKind::SyntaxError, 11, "Element name is required"@, pos),
            ),
            Option::Some(nm) => if vars.len() > 0 && !comma_used {
                Result::Err(csperr(ErrorKind::SyntaxError, 5, "Comma is required"@, pos))
            } else if !colon_used {
                Result::Err(csperr(ErrorKind::SyntaxError, 7, "Colon is required"@, pos))
            } else if crate::types::assoc_has(vars, nm) {
                Result::Err(
                    csperr(ErrorKind::DuplicateVars, 12, nm + " is duplicated"@, pos),
                )
            } else {
                spec_parse_vars(
                    toks,
                    nj,
                    in_block,
                    false,
                    false,
                    Option::None,
                    Option::Some(vars.len() as int),
                    vars.push(
                        (
                            nm,
                            crate::config::ast::VarV {
                                v_type: tk,
                                default_value: ValueV::Null,
                                actions_value: ValueV::Null,
                                position: pos,
                            },
                        ),
                    ),
                )
            },
        }
    }
}

/// Parses the `vars { }` block from `i`, the index just past the `vars`
/// keyword, exactly as `spec_parse_vars` says: `name : Type` entries
/// separated by commas, each optionally followed by a
/// `(default: …, actions: …)` clause. On success the declared names are
/// unique and every declared type is well-formed.
#[verifier::rlimit(100)]
#[verifier::spinoff_prover]
pub fn parse_vars(toks: &Vec<Token>, i: usize) -> (r: Result<
    (Vec<(String, Var)>, usize),
    ParserError,
>)
    requires
        1 <= i <= toks@.len(),
    ensures
        match r {
            Result::Ok(p) => i < p.1 <= toks@.len() && (forall|a: int, b: int|
                #![trigger p.0@[a], p.0@[b]]
                0 <= a < b < p.0@.len() ==> p.0@[a].0@ != p.0@[b].0@) && (toks_types_wf(
                toks_v(toks@),
            ) ==> forall|k: int|
                0 <= k < p.0@.len() ==> type_wf(type_v((#[trigger] p.0@[k]).1.v_type))),
            Result::Err(_) => true,
        },
        ({
            let sp = spec_parse_vars(
                toks_v(toks@),
                i as int,
                false,
                false,
                false,
                Option::None,
                Option::None,
                Seq::empty(),
            );
            match r {
                Result::Ok(p) => sp == Result::<
                    (Seq<(Seq<char>, crate::config::ast::VarV)>, int),
                    ParserErrorV,
                >::Ok((cvars_v(p.0@), p.1 as int)),
                Result::Err(e) => sp == Result::<
                    (Seq<(Seq<char>, crate::config::ast::VarV)>, int),
                    ParserErrorV,
                >::Err(e@),
            }
        }),
    decreases toks@.len() - i,
{
    let ghost tv = toks_v(toks@);
    proof {
        assert(forall|k: int| 0 <= k < toks@.len() ==> #[trigger] tv[k] == toks@[k]@);
    }
    let mut in_block = false;
    let mut colon_used = false;
    let mut comma_used = false;
    let mut element_name: Option<String> = None;
    let mut inserted: Option<usize> = None;
    let mut vars: Vec<(String, Var)> = Vec::new();
    proof {
        assert(cvars_v(vars@) =~= Seq::<(Seq<char>, crate::config::ast::VarV)>::empty());
    }
    let mut j = i;
    loop
        invariant
            1 <= i <= j <= toks@.len(),
            tv == toks_v(toks@),
            tv.len() == toks@.len(),
            forall|k: int| 0 <= k < toks@.len() ==> #[trigger] tv[k] == toks@[k]@,
            forall|a: int, b: int|
                #![trigger vars@[a], vars@[b]]
                0 <= a < b < vars@.len() ==> vars@[a].0@ != vars@[b].0@,
            toks_types_wf(tv) ==> (forall|k: int|
                0 <= k < vars@.len() ==> type_wf(type_v((#[trigger] vars@[k]).1.v_type))),
            match inserted {
                Option::Some(ix) => ix < vars@.len(),
                Option::None => true,
            },
            spec_parse_vars(
                tv,
                i as int,
                false,
                false,
                false,
                Option::None,
                Option::None,
                Seq::empty(),
            ) == spec_parse_vars(
                tv,
                j as int,
                in_block,
                colon_used,
                comma_used,
                match element_name {
                    Option::Some(nm) => Option::Some(nm@),
                    Option::None => Option::None,
                },
                match inserted {
                    Option::Some(ix) => Option::Some(ix as int),
                    Option::None => Option::None,
                },
                cvars_v(vars@),
            ),
        decreases toks@.len() - j,
    {
        let ghost j0 = j as int;
        let ghost cv0 = cvars_v(vars@);
        let ghost nm0: Option<Seq<char>> = match &element_name {
            Option::Some(nm) => Option::Some(nm@),
            Option::None => Option::None,
        };
        let ghost in0: Option<int> = match &inserted {
            Option::Some(ix) => Option::Some(*ix as int),
            Option::None => Option::None,
        };
        proof {
            assert(forall|k: int| 0 <= k < vars@.len() ==> #[trigger] cv0[k] == (
                vars@[k].0@,
                vars@[k].1@,
            ));
        }
        if j >= toks.len() {
            let e = template_to_error(vars_closed(), toks[j - 1].position.dup());
            proof {
                assert(spec_parse_vars(tv, j0, in_block, colon_used, comma_used, nm0, in0, cv0)
                    == Result::<
                    (Seq<(Seq<char>, crate::config::ast::VarV)>, int),
                    ParserErrorV,
                >::Err(e@));
            }
            return Err(e);
        }
        proof {
            assert(tv[j0] == toks@[j0]@);
        }
        match &toks[j].value {
            TokValue::LeftCurlyBracket => {
                if in_block {
                    let e = template_to_error(
                        invalid_left_curly_position(),
                        toks[j].position.dup(),
                    );
                    proof {
                        assert(spec_parse_vars(tv, j0, in_block, colon_used, comma_used, nm0,
                            in0, cv0) == Result::<
                            (Seq<(Seq<char>, crate::config::ast::VarV)>, int),
                            ParserErrorV,
                        >::Err(e@));
                    }
                    return Err(e);
                }
                in_block = true;
                j = j + 1;
            },
            TokValue::RightCurlyBracket => {
                return Ok((vars, j + 1));
            },
            TokValue::Comment(_) => {
                j = j + 1;
            },
            _ => {
                if !in_block {
                    let e = template_to_error(must_in_vars_block(), toks[j].position.dup());
                    proof {
                        assert(spec_parse_vars(tv, j0, in_block, colon_used, comma_used, nm0,
                            in0, cv0) == Result::<
                            (Seq<(Seq<char>, crate::config::ast::VarV)>, int),
                            ParserErrorV,
                        >::Err(e@));
                    }
                    return Err(e);
                }
                match &toks[j].value {
                    TokValue::Comma => {
                        if comma_used {
                            let e = template_to_error(comma_position(), toks[j].position.dup());
                            proof {
                                assert(spec_parse_vars(tv, j0, in_block, colon_used, comma_used,
                                    nm0, in0, cv0) == Result::<
                                    (Seq<(Seq<char>, crate::config::ast::VarV)>, int),
                                    ParserErrorV,
                                >::Err(e@));
                            }
                            return Err(e);
                        }
                        comma_used = true;
                        j = j + 1;
                    },
                    TokValue::Colon => {
                        if colon_used {
                            let e = template_to_error(colon_position(), toks[j].position.dup());
                            proof {
                                assert(spec_parse_vars(tv, j0, in_block, colon_used, comma_used,
                                    nm0, in0, cv0) == Result::<
                                    (Seq<(Seq<char>, crate::config::ast::VarV)>, int),
                                    ParserErrorV,
                                >::Err(e@));
                            }
                            return Err(e);
                        }
                        colon_used = true;
                        j = j + 1;
                    },
                    TokValue::Ident(text) => {
                        if element_name.is_some() {
                            let e = template_to_error(invalid_elements(), toks[j].position.dup());
                            proof {
                                assert(spec_parse_vars(tv, j0, in_block, colon_used, comma_used,
                                    nm0, in0, cv0) == Result::<
                                    (Seq<(Seq<char>, crate::config::ast::VarV)>, int),
                                    ParserErrorV,
                                >::Err(e@));
                            }
                            return Err(e);
                        }
                        element_name = Some(text.clone());
                        j = j + 1;
                    },
                    TokValue::LeftParentheses => {
                        let ix = match inserted {
                            Some(ix) => ix,
                            None => {
                                let e = template_to_error(
                                    element_name_required(),
                                    toks[j].position.dup(),
                                );
                                proof {
                                    assert(spec_parse_vars(tv, j0, in_block, colon_used,
                                        comma_used, nm0, in0, cv0) == Result::<
                                        (Seq<(Seq<char>, crate::config::ast::VarV)>, int),
                                        ParserErrorV,
                                    >::Err(e@));
                                }
                                return Err(e);
                            },
                        };
                        let clause_pos = toks[j].position.dup();
                        match parse_option_value(toks, j + 1) {
                            Err(e) => {
                                proof {
                                    assert(spec_parse_vars(tv, j0, in_block, colon_used,
                                        comma_used, nm0, in0, cv0) == Result::<
                                        (Seq<(Seq<char>, crate::config::ast::VarV)>, int),
                                        ParserErrorV,
                                    >::Err(e@));
                                }
                                return Err(e);
                            },
                            Ok(p) => {
                                let ((d_raw, a_raw), j2) = p;
                                let d_val = match parse_parsed_value(
                                    &d_raw,
                                    &vars[ix].1.v_type,
                                    &clause_pos,
                                ) {
                                    Ok(v) => v,
                                    Err(e) => {
                                        proof {
                                            assert(spec_parse_vars(tv, j0, in_block, colon_used,
                                                comma_used, nm0, in0, cv0) == Result::<
                                                (
                                                    Seq<(Seq<char>, crate::config::ast::VarV)>,
                                                    int,
                                                ),
                                                ParserErrorV,
                                            >::Err(e@));
                                        }
                                        return Err(e);
                                    },
                                };
                                let a_val = match parse_parsed_value(
                                    &a_raw,
                                    &vars[ix].1.v_type,
                                    &clause_pos,
                                ) {
                                    Ok(v) => v,
                                    Err(e) => {
                                        proof {
                                            assert(spec_parse_vars(tv, j0, in_block, colon_used,
                                                comma_used, nm0, in0, cv0) == Result::<
                                                (
                                                    Seq<(Seq<char>, crate::config::ast::VarV)>,
                                                    int,
                                                ),
                                                ParserErrorV,
                                            >::Err(e@));
                                        }
                                        return Err(e);
                                    },
                                };
                                let entry = vars.remove(ix);
                                let (nm, old_var) = entry;
                                let new_var = Var {
                                    v_type: old_var.v_type,
                                    default_value: d_val,
                                    actions_value: a_val,
                                    position: old_var.position,
                                };
                                vars.insert(ix, (nm, new_var));
                                proof {
                                    assert(adv(j0, j2 as int, tv.len() as int) == j2 as int);
                                    assert(cvars_v(vars@) =~= cv0.update(
                                        ix as int,
                                        (
                                            cv0[ix as int].0,
                                            crate::config::ast::VarV {
                                                v_type: cv0[ix as int].1.v_type,
                                                default_value: value_v(vars@[ix as int]
                                                    .1.default_value),
                                                actions_value: value_v(vars@[ix as int]
                                                    .1.actions_value),
                                                position: cv0[ix as int].1.position,
                                            },
                                        ),
                                    ));
                                }
                                j = j2;
                            },
                        }
                    },
                    _ => {
                        // a declared type completes the pending entry
                        let v_type: Type = match &toks[j].value {
                            TokValue::Type(t) => {
                                proof {
                                    if toks_types_wf(toks_v(toks@)) {
                                        assert(toks_v(toks@)[j0] == toks@[j0]@);
                                    }
                                }
                                let r = t.dup();
                                j = j + 1;
                                r
                            },
                            TokValue::Null => {
                                j = j + 1;
                                Type::Null
                            },
                            TokValue::Array => {
                                match parse_array_type(toks, j + 1) {
                                    Ok(p) => {
                                        let (t, j2) = p;
                                        j = j2;
                                        t
                                    },
                                    Err(e) => {
                                        proof {
                                            assert(spec_parse_vars(tv, j0, in_block, colon_used,
                                                comma_used, nm0, in0, cv0) == Result::<
                                                (
                                                    Seq<(Seq<char>, crate::config::ast::VarV)>,
                                                    int,
                                                ),
                                                ParserErrorV,
                                            >::Err(e@));
                                        }
                                        return Err(e);
                                    },
                                }
                            },
                            TokValue::Struct => {
                                match parse_struct_type(toks, j + 1) {
                                    Ok(p) => {
                                        let (t, j2) = p;
                                        j = j2;
                                        t
                                    },
                                    Err(e) => {
                                        proof {
                                            assert(spec_parse_vars(tv, j0, in_block, colon_used,
                                                comma_used, nm0, in0, cv0) == Result::<
                                                (
                                                    Seq<(Seq<char>, crate::config::ast::VarV)>,
                                                    int,
                                                ),
                                                ParserErrorV,
                                            >::Err(e@));
                                        }
                                        return Err(e);
                                    },
                                }
                            },
                            TokValue::Option => {
                                match parse_option_type(toks, j + 1) {
                                    Ok(p) => {
                                        let (t, j2) = p;
                                        j = j2;
                                        t
                                    },
                                    Err(e) => {
                                        proof {
                                            assert(spec_parse_vars(tv, j0, in_block, colon_used,
                                                comma_used, nm0, in0, cv0) == Result::<
                                                (
                                                    Seq<(Seq<char>, crate::config::ast::VarV)>,
                                                    int,
                                                ),
                                                ParserErrorV,
                                            >::Err(e@));
                                        }
                                        return Err(e);
                                    },
                                }
                            },
                            _ => {
                                let e = template_to_error(
                                    invalid_syntax_in_vars(),
                                    toks[j].position.dup(),
                                );
                                proof {
                                    assert(spec_parse_vars(tv, j0, in_block, colon_used,
                                        comma_used, nm0, in0, cv0) == Result::<
                                        (Seq<(Seq<char>, crate::config::ast::VarV)>, int),
                                        ParserErrorV,
                                    >::Err(e@));
                                }
                                return Err(e);
                            },
                        };
                        proof {
                            assert(spec_parse_vars(tv, j0, in_block, colon_used, comma_used,
                                nm0, in0, cv0) == spec_vars_insert(tv, j0, in_block, colon_used,
                                comma_used, nm0, cv0, type_v(v_type), j as int));
                        }
                        let type_pos = toks[j - 1].position.dup();
                        let name = match element_name {
                            Some(nm) => nm,
                            None => {
                                let e = template_to_error(
                                    element_name_required(),
                                    toks[j - 1].position.dup(),
                                );
                                return Err(e);
                            },
                        };
                        element_name = None;
                        if vars.len() > 0 && !comma_used {
                            let e = template_to_error(
                                comma_required(),
                                toks[j - 1].position.dup(),
                            );
                            return Err(e);
                        }
                        if !colon_used {
                            let e = template_to_error(
                                colon_required(),
                                toks[j - 1].position.dup(),
                            );
                            return Err(e);
                        }
                        if let Some(ixd) = crate::types::assoc_find_idx(&vars, &name) {
                            let e0 = duplicate_error(&name);
                            let e = template_to_error(e0, toks[j - 1].position.dup());
                            proof {
                                assert(vars@[ixd as int].0@ == name@);
                                assert(cv0[ixd as int].0 == name@);
                                crate::types::lemma_assoc_get_some(cv0, name@, ixd as int);
                            }
                            return Err(e);
                        }
                        let entry = (
                            name,
                            Var {
                                v_type,
                                default_value: Value::Null,
                                actions_value: Value::Null,
                                position: type_pos,
                            },
                        );
                        proof {
                            assert(forall|a: int|
                                0 <= a < cv0.len() ==> (#[trigger] cv0[a]).0
                                    != entry.0@);
                            crate::types::lemma_assoc_get_none(cv0, entry.0@);
                            lemma_cvars_v_push(vars@, entry);
                        }
                        vars.push(entry);
                        inserted = Some(vars.len() - 1);
                        comma_used = false;
                        colon_used = false;
                    },
                }
            },
        }
    }
}

} // verus!
